//! Block-quantized element types.

use crate::text::same;
use candle_core::quantized::GgmlDType;
use vstd::prelude::*;

verus! {

/// Element types of block-quantized files.
#[derive(Debug, Clone, Copy, PartialEq, Eq, Structural)]
pub enum QuantType {
    F32,
    F16,
    BF16,
    Q4_0,
    Q4_1,
    Q5_0,
    Q5_1,
    Q8_0,
    Q8_1,
    Q2K,
    Q3K,
    Q4K,
    Q5K,
    Q6K,
    Q8K,
}

impl QuantType {
    /// Elements of one block.
    pub open spec fn block_elems(self) -> usize {
        match self {
            QuantType::F32 | QuantType::F16 | QuantType::BF16 => 1,
            QuantType::Q2K | QuantType::Q3K | QuantType::Q4K | QuantType::Q5K | QuantType::Q6K | QuantType::Q8K => 256,
            _ => 32,
        }
    }

    /// `candle_core::quantized::GgmlDType::block_size`: the elements of one
    /// block, which are 256 for the K types, 32 for the older quantized types
    /// and 1 for plain floats.
    #[verifier::external_body]
    pub(crate) fn block_size(self) -> (r: usize)
        ensures
            r == self.block_elems(),
    {
        let t = match self {
            Self::F32 => GgmlDType::F32, Self::F16 => GgmlDType::F16, Self::BF16 => GgmlDType::BF16,
            Self::Q4_0 => GgmlDType::Q4_0, Self::Q4_1 => GgmlDType::Q4_1,
            Self::Q5_0 => GgmlDType::Q5_0, Self::Q5_1 => GgmlDType::Q5_1,
            Self::Q8_0 => GgmlDType::Q8_0, Self::Q8_1 => GgmlDType::Q8_1,
            Self::Q2K => GgmlDType::Q2K, Self::Q3K => GgmlDType::Q3K, Self::Q4K => GgmlDType::Q4K,
            Self::Q5K => GgmlDType::Q5K, Self::Q6K => GgmlDType::Q6K, Self::Q8K => GgmlDType::Q8K,
        };
        t.block_size()
    }

    /// The type that a setting names.
    pub open spec fn of_name(name: Seq<char>) -> Option<QuantType> {
        if name == "q40"@ || name == "q4_0"@ {
            Some(QuantType::Q4_0)
        } else if name == "q4"@ || name == "q41"@ || name == "q4_1"@ {
            Some(QuantType::Q4_1)
        } else if name == "q50"@ || name == "q5_0"@ {
            Some(QuantType::Q5_0)
        } else if name == "q5"@ || name == "q51"@ || name == "q5_1"@ {
            Some(QuantType::Q5_1)
        } else if name == "q8"@ || name == "q80"@ || name == "q8_0"@ {
            Some(QuantType::Q8_0)
        } else if name == "q2k"@ || name == "q2_k"@ {
            Some(QuantType::Q2K)
        } else if name == "q3k"@ || name == "q3_k"@ {
            Some(QuantType::Q3K)
        } else if name == "q4k"@ || name == "q4_k"@ {
            Some(QuantType::Q4K)
        } else if name == "q5k"@ || name == "q5_k"@ {
            Some(QuantType::Q5K)
        } else if name == "q6k"@ || name == "q6_k"@ {
            Some(QuantType::Q6K)
        } else {
            None
        }
    }

    pub fn from_name(name: &str) -> (r: Option<QuantType>)
        ensures
            r == Self::of_name(name@),
    {
        if same(name, "q40") || same(name, "q4_0") {
            Some(QuantType::Q4_0)
        } else if same(name, "q4") || same(name, "q41") || same(name, "q4_1") {
            Some(QuantType::Q4_1)
        } else if same(name, "q50") || same(name, "q5_0") {
            Some(QuantType::Q5_0)
        } else if same(name, "q5") || same(name, "q51") || same(name, "q5_1") {
            Some(QuantType::Q5_1)
        } else if same(name, "q8") || same(name, "q80") || same(name, "q8_0") {
            Some(QuantType::Q8_0)
        } else if same(name, "q2k") || same(name, "q2_k") {
            Some(QuantType::Q2K)
        } else if same(name, "q3k") || same(name, "q3_k") {
            Some(QuantType::Q3K)
        } else if same(name, "q4k") || same(name, "q4_k") {
            Some(QuantType::Q4K)
        } else if same(name, "q5k") || same(name, "q5_k") {
            Some(QuantType::Q5K)
        } else if same(name, "q6k") || same(name, "q6_k") {
            Some(QuantType::Q6K)
        } else {
            None
        }
    }

    /// This type where `extent` is made of whole blocks, else [`QuantType::Q8_0`].
    pub open spec fn fitting(self, extent: int) -> QuantType {
        if extent % (self.block_elems() as int) == 0 { self } else { QuantType::Q8_0 }
    }

    pub fn fit(self, extent: usize) -> (r: QuantType)
        ensures
            r == self.fitting(extent as int),
    {
        if extent % self.block_size() == 0 { self } else { QuantType::Q8_0 }
    }

    /// The type that weights with rows of `row` elements are quantized to
    /// when this type is asked for: this type, [`QuantType::Q8_0`] where only
    /// its blocks fit, or none.
    pub open spec fn in_situ(self, row: int) -> Option<QuantType> {
        if row % (self.block_elems() as int) == 0 {
            Some(self)
        } else if row % (QuantType::Q8_0.block_elems() as int) == 0 {
            Some(QuantType::Q8_0)
        } else {
            None
        }
    }

    pub fn choose_in_situ(self, row: usize) -> (r: Option<QuantType>)
        ensures
            r == self.in_situ(row as int),
    {
        if row % self.block_size() == 0 {
            Some(self)
        } else if row % QuantType::Q8_0.block_size() == 0 {
            Some(QuantType::Q8_0)
        } else {
            None
        }
    }
}

/// Whatever type is asked for, quantized rows are made of whole blocks.
pub proof fn law_in_situ_rows_are_whole_blocks(t: QuantType, row: int)
    ensures
        t.in_situ(row) matches Some(q) ==> row % (q.block_elems() as int) == 0,
        t.in_situ(row) is None ==> row % 32 != 0,
{
}

/// A number of bits alone names the type with a minimum, `q8` the only one of
/// eight bits; with `0` or `1` behind it a type of 32 elements in a block, with
/// `k` one of 256. Other names mean nothing.
pub proof fn law_names_mean_types(name: &str, r: Option<QuantType>)
    requires
        call_ensures(QuantType::from_name, (name,), r),
    ensures
        r == Some(QuantType::Q4_0) <==> name@ == "q40"@ || name@ == "q4_0"@,
        r == Some(QuantType::Q4_1) <==> name@ == "q4"@ || name@ == "q41"@ || name@ == "q4_1"@,
        r == Some(QuantType::Q5_0) <==> name@ == "q50"@ || name@ == "q5_0"@,
        r == Some(QuantType::Q5_1) <==> name@ == "q5"@ || name@ == "q51"@ || name@ == "q5_1"@,
        r == Some(QuantType::Q8_0) <==> name@ == "q8"@ || name@ == "q80"@ || name@ == "q8_0"@,
        r == Some(QuantType::Q2K) <==> name@ == "q2k"@ || name@ == "q2_k"@,
        r == Some(QuantType::Q3K) <==> name@ == "q3k"@ || name@ == "q3_k"@,
        r == Some(QuantType::Q4K) <==> name@ == "q4k"@ || name@ == "q4_k"@,
        r == Some(QuantType::Q5K) <==> name@ == "q5k"@ || name@ == "q5_k"@,
        r == Some(QuantType::Q6K) <==> name@ == "q6k"@ || name@ == "q6_k"@,
        r matches Some(t) ==> t.block_elems() == 32 || t.block_elems() == 256,
{
    reveal_strlit("q40"); reveal_strlit("q4_0"); reveal_strlit("q4"); reveal_strlit("q41"); reveal_strlit("q4_1");
    reveal_strlit("q50"); reveal_strlit("q5_0"); reveal_strlit("q5"); reveal_strlit("q51"); reveal_strlit("q5_1");
    reveal_strlit("q8"); reveal_strlit("q80"); reveal_strlit("q8_0"); reveal_strlit("q2k"); reveal_strlit("q2_k");
    reveal_strlit("q3k"); reveal_strlit("q3_k"); reveal_strlit("q4k"); reveal_strlit("q4_k"); reveal_strlit("q5k");
    reveal_strlit("q5_k"); reveal_strlit("q6k"); reveal_strlit("q6_k");
    let s = name@;
    if s.len() >= 2 {
        let (a, b) = (s[0], s[1]);
        assert(s == "q40"@ || s == "q4_0"@ || s == "q4"@ || s == "q41"@ || s == "q4_1"@ || s == "q4k"@ || s == "q4_k"@ ==> b == '4');
        assert(s == "q50"@ || s == "q5_0"@ || s == "q5"@ || s == "q51"@ || s == "q5_1"@ || s == "q5k"@ || s == "q5_k"@ ==> b == '5');
        assert(s == "q8"@ || s == "q80"@ || s == "q8_0"@ ==> b == '8');
        assert(s == "q2k"@ || s == "q2_k"@ ==> b == '2');
        assert(s == "q3k"@ || s == "q3_k"@ ==> b == '3');
        assert(s == "q6k"@ || s == "q6_k"@ ==> b == '6');
        assert(s == "q40"@ || s == "q4_0"@ || s == "q50"@ || s == "q5_0"@ ==> s.last() == '0');
        assert(s == "q41"@ || s == "q4_1"@ || s == "q51"@ || s == "q5_1"@ ==> s.last() == '1');
        assert(s == "q4k"@ || s == "q4_k"@ || s == "q5k"@ || s == "q5_k"@ ==> s.last() == 'k');
        assert(s == "q4"@ ==> s.last() == '4');
        assert(s == "q5"@ ==> s.last() == '5');
    }
}

/// A part keeps the type that it has where it is made of whole blocks, else it
/// becomes eight bits. Quantizing at load time keeps the type that is asked for
/// where rows are made of its blocks, takes eight bits where only those fit, and
/// leaves the weight alone otherwise.
pub proof fn law_types_are_kept_where_blocks_fit(t: QuantType, n: usize, part: QuantType, row: Option<QuantType>)
    requires
        call_ensures(QuantType::fit, (t, n), part),
        call_ensures(QuantType::choose_in_situ, (t, n), row),
    ensures
        n as int % t.block_elems() as int == 0 ==> part == t && row == Some(t),
        n as int % t.block_elems() as int != 0 ==> part == QuantType::Q8_0,
        n as int % t.block_elems() as int != 0 && n % 32 == 0 ==> row == Some(QuantType::Q8_0),
        n as int % t.block_elems() as int != 0 && n % 32 != 0 ==> row is None,
{
}

} // verus!
