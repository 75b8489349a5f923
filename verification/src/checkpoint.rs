//! Checkpoints as the planner sees them: the names that exist, and the reads
//! that a plan asks for.

use crate::distributed::Shard;
use crate::text::{contains, join, path_of};
use vstd::prelude::*;

verus! {

/// Element types of stored and computed tensors.
#[derive(Clone, Copy, Debug, PartialEq, Eq, Structural)]
pub enum DType {
    U8,
    U32,
    I64,
    BF16,
    F16,
    F32,
    F64,
    F8E4M3,
    F8E8M0,
}

/// The names of all tensors of a checkpoint, and its file format.
pub struct Checkpoint {
    pub names: Vec<String>,
    /// Whether the file holds block-quantized tensors (GGUF).
    pub gguf: bool,
    /// Element type of reads that ask for none.
    pub dtype: DType,
}

impl Checkpoint {
    /// Whether a tensor of that full name exists.
    pub open spec fn has(&self, name: Seq<char>) -> bool {
        exists|i: int| 0 <= i < self.names@.len() && (#[trigger] self.names@[i])@ == name
    }

    pub fn contains(&self, name: &str) -> (r: bool)
        ensures
            r == self.has(name@),
    {
        contains(&self.names, name)
    }
}

/// One read from a checkpoint.
#[derive(Clone)]
pub struct TensorRead {
    /// Full name of the tensor.
    pub path: String,
    /// Shape of the whole tensor.
    pub shape: Vec<usize>,
    /// The part that is read.
    pub shard: Shard,
    pub dtype: DType,
}

impl TensorRead {
    /// Whether this is the read of `path` with that shape, part and type.
    pub open spec fn reads(self, path: Seq<char>, shape: Seq<usize>, shard: Shard, dtype: DType) -> bool {
        self.path@ == path && self.shape@ == shape && self.shard == shard && self.dtype == dtype
    }
}

/// Reads of which the first that succeeds counts.
#[derive(Clone)]
pub struct Fetch {
    pub tries: Vec<TensorRead>,
}

impl Fetch {
    /// Whether the only try is this one.
    pub open spec fn once(self, path: Seq<char>, shape: Seq<usize>, shard: Shard, dtype: DType) -> bool {
        self.tries@.len() == 1 && self.tries@[0].reads(path, shape, shard, dtype)
    }

    pub fn one(read: TensorRead) -> (r: Self)
        ensures
            r.tries@ == seq![read],
    {
        let mut tries = Vec::new();
        tries.push(read);
        Fetch { tries }
    }

    pub fn two(first: TensorRead, second: TensorRead) -> (r: Self)
        ensures
            r.tries@ == seq![first, second],
    {
        let mut tries = Vec::new();
        tries.push(first);
        tries.push(second);
        Fetch { tries }
    }
}

impl Fetch {
    pub fn three(first: TensorRead, second: TensorRead, third: TensorRead) -> (r: Self)
        ensures
            r.tries@ == seq![first, second, third],
    {
        let mut tries = Vec::new();
        tries.push(first);
        tries.push(second);
        tries.push(third);
        Fetch { tries }
    }
}

/// Where a single scale factor comes from.
#[derive(Clone)]
pub enum ScaleSource {
    /// No factor is stored: 1.
    One,
    /// The stored factor.
    Direct(Fetch),
    /// The reciprocal of the stored factor, 1 where that is 0.
    Inverse(Fetch),
}

/// A scope of a checkpoint: names are taken below `prefix`.
pub struct VarBuilderX<'a> {
    pub checkpoint: &'a Checkpoint,
    pub prefix: String,
}

impl<'a> VarBuilderX<'a> {
    /// The full name of `name` in this scope.
    pub open spec fn spec_path(&self, name: Seq<char>) -> Seq<char> {
        path_of(self.prefix@, name)
    }

    /// Whether this is the scope `name` below `parent`.
    pub open spec fn below(&self, parent: &VarBuilderX, name: Seq<char>) -> bool {
        self.checkpoint == parent.checkpoint && self.prefix@ == parent.spec_path(name)
    }

    /// The scope `name` below this one.
    pub open spec fn child(&self, name: Seq<char>) -> VarBuilderX<'a> {
        scope_at(self.checkpoint, self.spec_path(name))
    }

    /// Whether `name` exists in this scope.
    pub open spec fn has(&self, name: Seq<char>) -> bool {
        self.checkpoint.has(self.spec_path(name))
    }

    pub fn new(checkpoint: &'a Checkpoint) -> (r: Self)
        ensures
            r.checkpoint == checkpoint,
            r.prefix@ == Seq::<char>::empty(),
    {
        VarBuilderX { checkpoint, prefix: String::new() }
    }

    pub fn pp(&self, name: &str) -> (r: Self)
        ensures
            r.below(self, name@),
            self.child(name@).below(self, name@),
    {
        let r = VarBuilderX { checkpoint: self.checkpoint, prefix: join(self.prefix.as_str(), name) };
        assert(r.prefix@ == self.spec_path(name@));
        r
    }

    pub fn has_key(&self, name: &str) -> (r: bool)
        ensures
            r == self.has(name@),
    {
        let full = join(self.prefix.as_str(), name);
        self.checkpoint.contains(full.as_str())
    }

    pub fn is_qvar_builder(&self) -> (r: bool)
        ensures
            r == self.checkpoint.gguf,
    {
        self.checkpoint.gguf
    }

    /// The same scope again.
    pub fn dup(&self) -> (r: Self)
        ensures
            r.checkpoint == self.checkpoint,
            r.prefix@ == self.prefix@,
    {
        VarBuilderX { checkpoint: self.checkpoint, prefix: self.prefix.clone() }
    }

    /// Whether `f` reads the single value `name`, stored with one dimension or
    /// with none.
    pub open spec fn scalar_fetch(&self, f: Fetch, name: Seq<char>) -> bool {
        &&& f.tries@.len() == 2
        &&& f.tries@[0].reads(self.spec_path(name), seq![1usize], Shard::whole(), DType::F32)
        &&& f.tries@[1].reads(self.spec_path(name), Seq::<usize>::empty(), Shard::whole(), DType::F32)
    }

    pub fn scalar(&self, name: &str) -> (r: Fetch)
        ensures
            self.scalar_fetch(r, name@),
    {
        Fetch::two(
            self.read(name, dims1(1), Shard::default(), DType::F32),
            self.read(name, dims0(), Shard::default(), DType::F32),
        )
    }

    /// Whether `s` is the global scale of an NVFP4 weight in this scope.
    pub open spec fn is_global_scale(&self, s: ScaleSource) -> bool {
        if self.has("weight_global_scale"@) {
            s matches ScaleSource::Inverse(f) && self.scalar_fetch(f, "weight_global_scale"@)
        } else if self.has("weight_scale_2"@) {
            s matches ScaleSource::Direct(f) && self.scalar_fetch(f, "weight_scale_2"@)
        } else {
            s is One
        }
    }

    pub fn global_scale(&self) -> (r: ScaleSource)
        ensures
            self.is_global_scale(r),
    {
        if self.has_key("weight_global_scale") {
            ScaleSource::Inverse(self.scalar("weight_global_scale"))
        } else if self.has_key("weight_scale_2") {
            ScaleSource::Direct(self.scalar("weight_scale_2"))
        } else {
            ScaleSource::One
        }
    }

    /// Whether `s` is the input scale of an NVFP4 weight in this scope.
    pub open spec fn is_input_scale(&self, s: ScaleSource) -> bool {
        if self.has("input_scale"@) {
            s matches ScaleSource::Direct(f) && self.scalar_fetch(f, "input_scale"@)
        } else if self.has("input_global_scale"@) {
            s matches ScaleSource::Inverse(f) && self.scalar_fetch(f, "input_global_scale"@)
        } else {
            s is One
        }
    }

    pub fn input_scale(&self) -> (r: ScaleSource)
        ensures
            self.is_input_scale(r),
    {
        if self.has_key("input_scale") {
            ScaleSource::Direct(self.scalar("input_scale"))
        } else if self.has_key("input_global_scale") {
            ScaleSource::Inverse(self.scalar("input_global_scale"))
        } else {
            ScaleSource::One
        }
    }

    /// A read of the whole of `name`, as the type of the checkpoint.
    pub fn get(&self, name: &str, shape: Vec<usize>) -> (r: TensorRead)
        ensures
            r.reads(self.spec_path(name@), shape@, Shard::whole(), self.checkpoint.dtype),
    {
        self.read(name, shape, Shard::default(), self.checkpoint.dtype)
    }

    /// A read of a part of `name`, as the type of the checkpoint.
    pub fn get_with_hints(&self, name: &str, shape: Vec<usize>, shard: Shard) -> (r: TensorRead)
        ensures
            r.reads(self.spec_path(name@), shape@, shard, self.checkpoint.dtype),
    {
        self.read(name, shape, shard, self.checkpoint.dtype)
    }

    /// A read of `name` in this scope.
    pub fn read(&self, name: &str, shape: Vec<usize>, shard: Shard, dtype: DType) -> (r: TensorRead)
        ensures
            r.reads(self.spec_path(name@), shape@, shard, dtype),
    {
        TensorRead { path: join(self.prefix.as_str(), name), shape, shard, dtype }
    }
}

/// A string of these characters.
pub open spec fn string_of(chars: Seq<char>) -> String {
    choose|s: String| #[trigger] s@ == chars
}

/// The scope of a checkpoint with that path.
pub open spec fn scope_at<'a>(checkpoint: &'a Checkpoint, path: Seq<char>) -> VarBuilderX<'a> {
    VarBuilderX { checkpoint, prefix: string_of(path) }
}

/// The empty shape.
pub fn dims0() -> (r: Vec<usize>)
    ensures
        r@ == Seq::<usize>::empty(),
{
    Vec::new()
}

pub fn dims1(a: usize) -> (r: Vec<usize>)
    ensures
        r@ == seq![a],
{
    let mut v = Vec::new();
    v.push(a);
    assert(v@ =~= seq![a]);
    v
}

pub fn dims2(a: usize, b: usize) -> (r: Vec<usize>)
    ensures
        r@ == seq![a, b],
{
    let mut v = Vec::new();
    v.push(a);
    v.push(b);
    assert(v@ =~= seq![a, b]);
    v
}

pub fn dims3(a: usize, b: usize, c: usize) -> (r: Vec<usize>)
    ensures
        r@ == seq![a, b, c],
{
    let mut v = dims2(a, b);
    v.push(c);
    assert(v@ =~= seq![a, b, c]);
    v
}

/// Reads name a tensor below the scope, with the shape that is asked for: whole
/// and in the type of the checkpoint unless a part or a type is given.
pub proof fn law_reads_are_what_is_asked_for(vb: VarBuilderX, name: &str, shape: Vec<usize>, s: Shard, t: DType, a: TensorRead, b: TensorRead, c: TensorRead)
    requires
        call_ensures(VarBuilderX::get, (&vb, name, shape), a),
        call_ensures(VarBuilderX::get_with_hints, (&vb, name, shape, s), b),
        call_ensures(VarBuilderX::read, (&vb, name, shape, s, t), c),
    ensures
        vb.prefix@.len() == 0 ==> a.path@ == name@ && b.path@ == name@ && c.path@ == name@,
        vb.prefix@.len() > 0 ==> a.path@ == vb.prefix@ + seq!['.'] + name@ && b.path@ == a.path@ && c.path@ == a.path@,
        a.shape@ == shape@ && b.shape@ == shape@ && c.shape@ == shape@,
        a.shard.rank == 0 && a.shard.world_size == 1,
        b.shard == s && c.shard == s,
        a.dtype == vb.checkpoint.dtype && b.dtype == vb.checkpoint.dtype && c.dtype == t,
{
}

/// A scope below another has its name behind that of the other; a tensor is
/// there where the checkpoint lists its full name.
pub proof fn law_scopes_and_their_tensors(vb: VarBuilderX, name: &str, p: VarBuilderX, there: bool, i: int)
    requires
        call_ensures(VarBuilderX::pp, (&vb, name), p),
        call_ensures(VarBuilderX::has_key, (&vb, name), there),
    ensures
        p.checkpoint == vb.checkpoint,
        vb.prefix@.len() == 0 ==> p.prefix@ == name@,
        vb.prefix@.len() > 0 ==> p.prefix@ == vb.prefix@ + seq!['.'] + name@,
        0 <= i < vb.checkpoint.names@.len() && vb.checkpoint.names@[i]@ == p.prefix@ ==> there,
        there ==> exists|j: int| 0 <= j < vb.checkpoint.names@.len() && (#[trigger] vb.checkpoint.names@[j])@ == p.prefix@,
{
}

/// Factors of NVFP4 weights: a global one stored inverted comes before one as it
/// is; for inputs the other way round. Single values are stored with one
/// dimension or with none.
pub proof fn law_factors_of_packed_weights(vb: VarBuilderX, g: ScaleSource, i: ScaleSource, name: &str, f: Fetch)
    requires
        call_ensures(VarBuilderX::global_scale, (&vb,), g),
        call_ensures(VarBuilderX::input_scale, (&vb,), i),
        call_ensures(VarBuilderX::scalar, (&vb, name), f),
    ensures
        g is Inverse <==> vb.has("weight_global_scale"@),
        g is Direct <==> !vb.has("weight_global_scale"@) && vb.has("weight_scale_2"@),
        i is Direct <==> vb.has("input_scale"@),
        i is Inverse <==> !vb.has("input_scale"@) && vb.has("input_global_scale"@),
        g matches ScaleSource::Inverse(x) ==> x.tries@[0].path@ == vb.spec_path("weight_global_scale"@),
        g matches ScaleSource::Direct(x) ==> x.tries@[0].path@ == vb.spec_path("weight_scale_2"@),
        i matches ScaleSource::Direct(x) ==> x.tries@[0].path@ == vb.spec_path("input_scale"@),
        i matches ScaleSource::Inverse(x) ==> x.tries@[0].path@ == vb.spec_path("input_global_scale"@),
        f.tries@.len() == 2 && f.tries@[0].shape@ == seq![1usize] && f.tries@[1].shape@.len() == 0,
        f.tries@[0].path@ == vb.spec_path(name@) && f.tries@[1].path@ == vb.spec_path(name@),
        f.tries@[0].dtype == DType::F32 && f.tries@[1].dtype == DType::F32,
{
}

} // verus!
