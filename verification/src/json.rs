//! Values looked up in a JSON text by pointer.

use crate::text::{decimal, decimal_of};
use vstd::prelude::*;

verus! {

/// A JSON value, without what strings, arrays and objects hold.
#[derive(Clone, Copy, Debug, PartialEq, Eq, Structural)]
pub enum JsonKind {
    Null,
    Bool(bool),
    /// A number, with its value where it is an integer from 0 to `u64::MAX`.
    Number(Option<u64>),
    Text,
    /// An array of that many items.
    Array(usize),
    Object,
}

/// What `serde_json` finds in a text at a pointer: `None` where the text does
/// not parse or nothing is there.
pub uninterp spec fn json_kind_of(text: Seq<char>, pointer: Seq<char>) -> Option<JsonKind>;

/// The string that `serde_json` finds in a text at a pointer.
pub uninterp spec fn json_text_of(text: Seq<char>, pointer: Seq<char>) -> Option<Seq<char>>;

/// `serde_json::from_str` into a `Value`, then `Value::pointer`: the variant
/// of the value found, with `Number::as_u64` of a number and the length of an
/// array. It depends on the text and the pointer alone.
#[verifier::external_body]
pub(crate) fn json_kind(text: &str, pointer: &str) -> (r: Option<JsonKind>)
    ensures
        r == json_kind_of(text@, pointer@),
{
    let root = serde_json::from_str::<serde_json::Value>(text).ok()?;
    Some(match root.pointer(pointer)? {
        serde_json::Value::Null => JsonKind::Null,
        serde_json::Value::Bool(b) => JsonKind::Bool(*b),
        serde_json::Value::Number(n) => JsonKind::Number(n.as_u64()),
        serde_json::Value::String(_) => JsonKind::Text,
        serde_json::Value::Array(a) => JsonKind::Array(a.len()),
        serde_json::Value::Object(_) => JsonKind::Object,
    })
}

/// `serde_json::from_str` into a `Value`, then `Value::pointer` and
/// `Value::as_str`: the string found. It depends on the text and the pointer
/// alone.
#[verifier::external_body]
pub(crate) fn json_text(text: &str, pointer: &str) -> (r: Option<String>)
    ensures
        text_view(r) == json_text_of(text@, pointer@),
{
    let root = serde_json::from_str::<serde_json::Value>(text).ok()?;
    root.pointer(pointer)?.as_str().map(|s| s.to_string())
}

/// The characters of an optional string.
pub open spec fn text_view(s: Option<String>) -> Option<Seq<char>> {
    match s {
        Some(t) => Some(t@),
        None => None,
    }
}

/// The value of an integer.
pub open spec fn u64_in(k: Option<JsonKind>) -> Option<u64> {
    match k {
        Some(JsonKind::Number(n)) => n,
        _ => None,
    }
}

pub fn as_u64(k: Option<JsonKind>) -> (r: Option<u64>)
    ensures
        r == u64_in(k),
{
    match k {
        Some(JsonKind::Number(n)) => n,
        _ => None,
    }
}

/// The value of an integer, or `default`.
pub open spec fn size_in(k: Option<JsonKind>, default: usize) -> usize {
    match u64_in(k) {
        Some(n) => n as usize,
        None => default,
    }
}

pub fn as_size(k: Option<JsonKind>, default: usize) -> (r: usize)
    ensures
        r == size_in(k, default),
{
    match as_u64(k) {
        Some(n) => #[verifier::truncate] (n as usize),
        None => default,
    }
}

/// The value of a truth value, or `default`.
pub open spec fn bool_in(k: Option<JsonKind>, default: bool) -> bool {
    match k {
        Some(JsonKind::Bool(b)) => b,
        _ => default,
    }
}

pub fn as_bool(k: Option<JsonKind>, default: bool) -> (r: bool)
    ensures
        r == bool_in(k, default),
{
    match k {
        Some(JsonKind::Bool(b)) => b,
        _ => default,
    }
}

/// What an optional text holds at `pointer`.
pub open spec fn kind_at(text: Option<String>, pointer: Seq<char>) -> Option<JsonKind> {
    match text {
        Some(t) => json_kind_of(t@, pointer),
        None => None,
    }
}

pub fn find(text: &Option<String>, pointer: &str) -> (r: Option<JsonKind>)
    ensures
        r == kind_at(*text, pointer@),
{
    match text {
        Some(t) => json_kind(t.as_str(), pointer),
        None => None,
    }
}

/// What an optional text holds at `first`, or at `second` where nothing is at
/// `first`. A value of the wrong type at `first` still counts.
pub open spec fn kind_at_either(text: Option<String>, first: Seq<char>, second: Seq<char>) -> Option<JsonKind> {
    match kind_at(text, first) {
        Some(k) => Some(k),
        None => kind_at(text, second),
    }
}

pub fn find_either(text: &Option<String>, first: &str, second: &str) -> (r: Option<JsonKind>)
    ensures
        r == kind_at_either(*text, first@, second@),
{
    match find(text, first) {
        Some(k) => Some(k),
        None => find(text, second),
    }
}

/// The string of an optional text at `pointer`.
pub open spec fn text_at(text: Option<String>, pointer: Seq<char>) -> Option<Seq<char>> {
    match text {
        Some(t) => json_text_of(t@, pointer),
        None => None,
    }
}

pub fn find_text(text: &Option<String>, pointer: &str) -> (r: Option<String>)
    ensures
        text_view(r) == text_at(*text, pointer@),
{
    match text {
        Some(t) => json_text(t.as_str(), pointer),
        None => None,
    }
}

/// The pointer to item `i` of the array at `pointer`.
pub open spec fn item_pointer(pointer: Seq<char>, i: int) -> Seq<char> {
    pointer + seq!['/'] + decimal_of(i as nat)
}

fn item(pointer: &str, i: usize) -> (r: String)
    ensures
        r@ == item_pointer(pointer@, i as int),
{
    let head = pointer.to_owned().concat("/");
    proof {
        reveal_strlit("/");
        assert("/"@ =~= seq!['/']);
    }
    head.concat(decimal(i).as_str())
}

/// Whether `r` are the kinds of the items of the array at `pointer`, `None`
/// where there is no array.
pub open spec fn kinds_of_items(r: Option<Vec<Option<JsonKind>>>, text: Option<String>, pointer: Seq<char>) -> bool {
    match kind_at(text, pointer) {
        Some(JsonKind::Array(n)) => {
            &&& r is Some
            &&& r->0@.len() == n
            &&& forall|i: int| 0 <= i < n ==> #[trigger] r->0@[i] == kind_at(text, item_pointer(pointer, i))
        },
        _ => r is None,
    }
}

pub fn find_items(text: &Option<String>, pointer: &str) -> (r: Option<Vec<Option<JsonKind>>>)
    ensures
        kinds_of_items(r, *text, pointer@),
{
    let n: usize = match find(text, pointer) {
        Some(JsonKind::Array(n)) => n,
        _ => return None,
    };
    let mut v: Vec<Option<JsonKind>> = Vec::new();
    let mut i: usize = 0;
    while i < n
        invariant
            i <= n,
            v@.len() == i,
            forall|j: int| 0 <= j < i ==> #[trigger] v@[j] == kind_at(*text, item_pointer(pointer@, j)),
        decreases n - i,
    {
        v.push(find(text, item(pointer, i).as_str()));
        i = i + 1;
    }
    Some(v)
}

/// Whether `r` are the strings among the items of the array at `pointer`,
/// `None` where there is no array.
pub open spec fn texts_of_items(r: Option<Vec<Option<String>>>, text: Option<String>, pointer: Seq<char>) -> bool {
    match kind_at(text, pointer) {
        Some(JsonKind::Array(n)) => {
            &&& r is Some
            &&& r->0@.len() == n
            &&& forall|i: int| 0 <= i < n ==> text_view(#[trigger] r->0@[i]) == text_at(text, item_pointer(pointer, i))
        },
        _ => r is None,
    }
}

pub fn find_text_items(text: &Option<String>, pointer: &str) -> (r: Option<Vec<Option<String>>>)
    ensures
        texts_of_items(r, *text, pointer@),
{
    let n: usize = match find(text, pointer) {
        Some(JsonKind::Array(n)) => n,
        _ => return None,
    };
    let mut v: Vec<Option<String>> = Vec::new();
    let mut i: usize = 0;
    while i < n
        invariant
            i <= n,
            v@.len() == i,
            forall|j: int| 0 <= j < i ==> text_view(#[trigger] v@[j]) == text_at(*text, item_pointer(pointer@, j)),
        decreases n - i,
    {
        v.push(find_text(text, item(pointer, i).as_str()));
        i = i + 1;
    }
    Some(v)
}

/// A key gives the value of an integer, else the default; nothing else is read
/// as a number, and nothing but a truth value as one.
pub proof fn law_values_or_defaults(k: Option<JsonKind>, default: usize, truth: bool, size: usize, flag: bool, whole: Option<u64>)
    requires
        call_ensures(as_size, (k, default), size),
        call_ensures(as_bool, (k, truth), flag),
        call_ensures(as_u64, (k,), whole),
    ensures
        whole is Some <==> (k matches Some(JsonKind::Number(Some(_)))),
        k matches Some(JsonKind::Number(Some(n))) ==> whole == Some(n) && (n <= usize::MAX ==> size == n),
        whole is None ==> size == default,
        k matches Some(JsonKind::Bool(b)) ==> flag == b,
        !(k matches Some(JsonKind::Bool(_))) ==> flag == truth,
{
}

/// Of two keys the first counts wherever it is there, and the second only where
/// it is not.
pub proof fn law_the_first_key_counts(text: Option<String>, first: &str, second: &str, a: Option<JsonKind>, b: Option<JsonKind>, r: Option<JsonKind>)
    requires
        call_ensures(find, (&text, first), a),
        call_ensures(find, (&text, second), b),
        call_ensures(find_either, (&text, first, second), r),
    ensures
        a is Some ==> r == a,
        a is None ==> r == b,
        text is None ==> r is None,
{
}

/// The items of an array are found one by one, in order and each at its own
/// index; what is no array has no items.
pub proof fn law_items_are_found_in_order(text: Option<String>, pointer: &str, whole: Option<JsonKind>, r: Option<Vec<Option<JsonKind>>>, i: int)
    requires
        call_ensures(find, (&text, pointer), whole),
        call_ensures(find_items, (&text, pointer), r),
    ensures
        r is Some <==> (whole matches Some(JsonKind::Array(_))),
        whole matches Some(JsonKind::Array(n)) ==> r->0@.len() == n
            && (0 <= i < n ==> r->0@[i] == json_kind_of(text->0@, pointer@ + seq!['/'] + decimal_of(i as nat))),
{
}

} // verus!
