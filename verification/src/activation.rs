//! Which gated activation a model uses.

use crate::json::{find, find_text, item_pointer, kind_at, text_at, text_view, JsonKind};
use crate::moe::pass::{gated_activation, gated_pass, GatedPass};
use crate::text::{matches_at, stands_at};
use vstd::prelude::*;

verus! {

/// A gated activation. The parameters of the second are numbers of the
/// configuration file.
#[derive(Debug, Clone, Copy, PartialEq, Eq, Structural)]
pub enum GatedActivation {
    Standard { is_silu: bool },
    /// A clamped sigmoid gate, with parameters under `text_config` or at the
    /// root.
    SwiGluOai { in_text_config: bool },
}

/// Whether the first of an array of architectures is a MiniMax M3 model.
pub open spec fn names_m3(architectures: Option<JsonKind>, first: Option<Seq<char>>) -> bool {
    architectures matches Some(JsonKind::Array(_)) && (first matches Some(a) && stands_at(a, "MiniMaxM3"@, 0))
}

impl GatedActivation {
    pub fn standard(is_silu: bool) -> (r: Self)
        ensures
            r == (GatedActivation::Standard { is_silu }),
    {
        GatedActivation::Standard { is_silu }
    }

    /// The activation of a file with these values: `architectures`, its first
    /// item, and whether there is a `text_config`.
    pub open spec fn chosen(is_silu: bool, architectures: Option<JsonKind>, first: Option<Seq<char>>, nested: bool) -> Self {
        if names_m3(architectures, first) {
            GatedActivation::SwiGluOai { in_text_config: nested }
        } else {
            GatedActivation::Standard { is_silu }
        }
    }

    pub fn from_values(is_silu: bool, architectures: Option<JsonKind>, first: &Option<String>, nested: bool) -> (r: Self)
        ensures
            r == Self::chosen(is_silu, architectures, text_view(*first), nested),
    {
        let array = match architectures {
            Some(JsonKind::Array(_)) => true,
            _ => false,
        };
        let named = match first {
            Some(a) => matches_at(a.as_str(), "MiniMaxM3", 0),
            None => false,
        };
        if array && named {
            GatedActivation::SwiGluOai { in_text_config: nested }
        } else {
            GatedActivation::Standard { is_silu }
        }
    }

    /// The activation that a configuration file asks for.
    pub fn from_model_config(is_silu: bool, text: &Option<String>) -> (r: Self)
        ensures
            r == Self::chosen(
                is_silu, kind_at(*text, "/architectures"@), text_at(*text, item_pointer("/architectures"@, 0)),
                kind_at(*text, "/text_config"@) is Some),
    {
        proof {
            reveal_strlit("/architectures");
            reveal_strlit("/architectures/0");
            assert("/architectures/0"@ =~= item_pointer("/architectures"@, 0));
        }
        let first = find_text(text, "/architectures/0");
        Self::from_values(is_silu, find(text, "/architectures"), &first, find(text, "/text_config").is_some())
    }

    /// How gate and up outputs in one row are activated. Only the standard
    /// one has a kernel for both.
    pub fn forward_fused(&self, half_dim: usize) -> (r: GatedPass)
        ensures
            r == gated_pass(half_dim, *self == (GatedActivation::Standard { is_silu: true })),
    {
        match self {
            GatedActivation::Standard { is_silu } => gated_activation(half_dim, *is_silu),
            GatedActivation::SwiGluOai { .. } => gated_activation(half_dim, false),
        }
    }
}

/// The clamped gate is for models whose first architecture starts with
/// `MiniMaxM3`, with parameters where the file keeps those of the text model;
/// every other model has the standard one, whatever its file holds. Both halves
/// of a row are as wide as asked for, gates before values, and one kernel takes
/// them only for the standard gate with SiLU.
pub proof fn law_only_minimax_m3_clamps(
    is_silu: bool,
    architectures: Option<JsonKind>,
    first: Option<String>,
    nested: bool,
    r: GatedActivation,
    half: usize,
    pass: GatedPass,
)
    requires
        call_ensures(GatedActivation::from_values, (is_silu, architectures, &first, nested), r),
        call_ensures(GatedActivation::forward_fused, (&r, half), pass),
    ensures
        r is SwiGluOai ==> {
            &&& architectures matches Some(JsonKind::Array(_))
            &&& first matches Some(a) && a@.len() >= "MiniMaxM3"@.len() && a@.take("MiniMaxM3"@.len() as int) == "MiniMaxM3"@
            &&& r->in_text_config == nested
        },
        r is Standard ==> r->is_silu == is_silu,
        r is Standard ==> !(architectures matches Some(JsonKind::Array(_))) || first is None
            || !stands_at(first->0@, "MiniMaxM3"@, 0),
        pass is Fused <==> r is Standard && is_silu,
        pass matches GatedPass::Fused { half: h } ==> h == half,
        pass matches GatedPass::Halves { gate, up } ==> gate.start == 0 && gate.len == half && up.start == half && up.len == half,
{
    if r is SwiGluOai {
        let a = first->0@;
        assert(a.take("MiniMaxM3"@.len() as int) =~= a.subrange(0, "MiniMaxM3"@.len() as int));
    }
}

} // verus!
