//! Names of tensors: dotted paths, decimal indices and comparisons.

use vstd::prelude::*;

verus! {

/// The path of `name` below `prefix`: the two joined by a dot, or `name`
/// alone at the root.
pub open spec fn path_of(prefix: Seq<char>, name: Seq<char>) -> Seq<char> {
    if prefix.len() == 0 {
        name
    } else {
        prefix + seq!['.'] + name
    }
}

/// Joins `prefix` and `name` as nested scopes are joined.
pub fn join(prefix: &str, name: &str) -> (r: String)
    ensures
        r@ == path_of(prefix@, name@),
{
    if prefix.is_empty() {
        name.to_owned()
    } else {
        let dotted = prefix.to_owned().concat(".");
        proof {
            reveal_strlit(".");
            assert("."@ =~= seq!['.']);
        }
        dotted.concat(name)
    }
}

/// Whether two names are the same sequence of characters.
pub fn same(a: &str, b: &str) -> (r: bool)
    ensures
        r == (a@ == b@),
{
    a.to_owned() == b.to_owned()
}

/// Whether `name` is one of `names`.
pub fn contains(names: &Vec<String>, name: &str) -> (r: bool)
    ensures
        r == exists|i: int| 0 <= i < names@.len() && (#[trigger] names@[i])@ == name@,
{
    let mut i: usize = 0;
    while i < names.len()
        invariant
            i <= names@.len(),
            forall|j: int| 0 <= j < i ==> (#[trigger] names@[j])@ != name@,
        decreases names@.len() - i,
    {
        if same(names[i].as_str(), name) {
            return true;
        }
        i = i + 1;
    }
    false
}

/// Whether `part` stands at position `at` of `s`.
pub open spec fn stands_at(s: Seq<char>, part: Seq<char>, at: int) -> bool {
    0 <= at && at + part.len() <= s.len() && s.subrange(at, at + part.len()) == part
}

/// Whether `part` stands somewhere in `s`.
pub open spec fn has_part(s: Seq<char>, part: Seq<char>) -> bool {
    exists|at: int| #[trigger] stands_at(s, part, at)
}

/// Whether `part` stands at position `at` of `s`.
pub fn matches_at(s: &str, part: &str, at: usize) -> (r: bool)
    ensures
        r == stands_at(s@, part@, at as int),
{
    let (n, m) = (s.unicode_len(), part.unicode_len());
    if at > n || m > n - at {
        return false;
    }
    let mut i: usize = 0;
    while i < m
        invariant
            i <= m,
            n == s@.len(),
            m == part@.len(),
            at + m <= n,
            forall|j: int| 0 <= j < i ==> s@[at + j] == part@[j],
        decreases m - i,
    {
        if s.get_char(at + i) != part.get_char(i) {
            assert(s@.subrange(at as int, at + m)[i as int] != part@[i as int]);
            return false;
        }
        i = i + 1;
    }
    assert(s@.subrange(at as int, at + m) =~= part@);
    true
}

/// Whether `part` stands somewhere in `s`.
pub fn contains_part(s: &str, part: &str) -> (r: bool)
    ensures
        r == has_part(s@, part@),
{
    let n: usize = s.unicode_len();
    let mut at: usize = 0;
    while at < n
        invariant
            at <= n,
            n == s@.len(),
            forall|k: int| 0 <= k < at ==> !#[trigger] stands_at(s@, part@, k),
        decreases n - at,
    {
        if matches_at(s, part, at) {
            return true;
        }
        at = at + 1;
    }
    let r = matches_at(s, part, n);
    assert forall|k: int| #[trigger] stands_at(s@, part@, k) implies r by {
        assert(k <= n);
    }
    r
}

/// The decimal digit of `d`.
pub open spec fn digit_char(d: nat) -> char {
    if d == 0 { '0' } else if d == 1 { '1' } else if d == 2 { '2' } else if d == 3 { '3' }
    else if d == 4 { '4' } else if d == 5 { '5' } else if d == 6 { '6' } else if d == 7 { '7' }
    else if d == 8 { '8' } else { '9' }
}

/// The decimal writing of `n`, without leading zeros.
pub open spec fn decimal_of(n: nat) -> Seq<char>
    decreases n,
{
    if n < 10 {
        seq![digit_char(n)]
    } else {
        decimal_of(n / 10).push(digit_char(n % 10))
    }
}

fn digit(d: usize) -> (r: &'static str)
    requires
        d < 10,
    ensures
        r@ == seq![digit_char(d as nat)],
{
    let r = if d == 0 { "0" } else if d == 1 { "1" } else if d == 2 { "2" } else if d == 3 { "3" }
        else if d == 4 { "4" } else if d == 5 { "5" } else if d == 6 { "6" } else if d == 7 { "7" }
        else if d == 8 { "8" } else { "9" };
    proof {
        reveal_strlit("0"); reveal_strlit("1"); reveal_strlit("2"); reveal_strlit("3");
        reveal_strlit("4"); reveal_strlit("5"); reveal_strlit("6"); reveal_strlit("7");
        reveal_strlit("8"); reveal_strlit("9");
    }
    assert(r@ =~= seq![digit_char(d as nat)]);
    r
}

/// Writes `n` in decimal.
pub fn decimal(n: usize) -> (r: String)
    ensures
        r@ == decimal_of(n as nat),
    decreases n,
{
    if n < 10 {
        digit(n).to_owned()
    } else {
        let head = decimal(n / 10);
        let r = head.concat(digit(n % 10));
        assert(r@ =~= decimal_of(n as nat));
        r
    }
}

/// What `str::to_lowercase` makes of a text.
pub uninterp spec fn lowercase_of(s: Seq<char>) -> Seq<char>;

/// `str::to_lowercase` of the standard library: the lowercase equivalent of
/// the text by the Unicode tables, a function of the text alone.
#[verifier::external_body]
pub(crate) fn lowercase(s: &str) -> (r: String)
    ensures
        r@ == lowercase_of(s@),
{
    s.to_lowercase()
}

/// `c` with a capital ASCII letter made small.
pub open spec fn ascii_lower_char(c: char) -> char {
    if 'A' <= c && c <= 'Z' {
        ((c as int) + 32) as char
    } else {
        c
    }
}

/// `c` with a capital ASCII letter made small.
fn ascii_lower(c: char) -> (r: char)
    ensures
        r == ascii_lower_char(c),
{
    if 'A' <= c && c <= 'Z' {
        ((c as u8) + 32) as char
    } else {
        c
    }
}

/// Whether `s` is `small` once its capital ASCII letters are made small.
pub fn same_in_small(s: &str, small: &str) -> (r: bool)
    ensures
        r == (s@.map_values(|c: char| ascii_lower_char(c)) == small@),
{
    let ghost lowered = s@.map_values(|c: char| ascii_lower_char(c));
    let n: usize = s.unicode_len();
    if small.unicode_len() != n {
        assert(lowered.len() != small@.len());
        return false;
    }
    let mut i: usize = 0;
    while i < n
        invariant
            i <= n,
            n == s@.len(),
            n == small@.len(),
            lowered == s@.map_values(|c: char| ascii_lower_char(c)),
            forall|j: int| 0 <= j < i ==> lowered[j] == small@[j],
        decreases n - i,
    {
        if ascii_lower(s.get_char(i)) != small.get_char(i) {
            assert(lowered[i as int] != small@[i as int]);
            return false;
        }
        i = i + 1;
    }
    assert(lowered =~= small@);
    true
}

/// The number that decimal digits write.
pub open spec fn number_of(s: Seq<char>) -> int
    decreases s.len(),
{
    if s.len() == 0 { 0 } else { number_of(s.drop_last()) * 10 + (s.last() as int - '0' as int) }
}

/// Decimal writing reads back as the number, in digits only and without a
/// leading zero, so that different numbers are written differently.
pub proof fn law_decimal_reads_back(n: nat)
    ensures
        number_of(decimal_of(n)) == n,
        decimal_of(n).len() > 0,
        n > 0 ==> decimal_of(n)[0] != '0',
        forall|i: int| 0 <= i < decimal_of(n).len() ==> '0' <= #[trigger] decimal_of(n)[i] <= '9',
    decreases n,
{
    if n < 10 {
        let s = decimal_of(n);
        assert(s.drop_last() =~= Seq::<char>::empty());
        assert(number_of(s.drop_last()) == 0);
        assert(s.last() as int - '0' as int == n);
    } else {
        law_decimal_reads_back(n / 10);
        let s = decimal_of(n);
        assert(s.drop_last() =~= decimal_of(n / 10));
        assert(s.last() as int - '0' as int == n % 10);
    }
}

/// What is written for an index is that index.
pub proof fn law_indices_are_written_in_decimal(n: usize, r: String)
    requires
        call_ensures(decimal, (n,), r),
    ensures
        number_of(r@) == n,
        r@.len() > 0,
        n > 0 ==> r@[0] != '0',
{
    law_decimal_reads_back(n as nat);
}

/// A name stands at the end of its path, behind the scope and one dot; at the
/// root it stands alone.
pub proof fn law_paths_end_with_the_name(prefix: &str, name: &str, r: String)
    requires
        call_ensures(join, (prefix, name), r),
    ensures
        prefix@.len() == 0 ==> r@ == name@,
        prefix@.len() > 0 ==> {
            &&& r@.len() == prefix@.len() + 1 + name@.len()
            &&& r@.take(prefix@.len() as int) == prefix@
            &&& r@[prefix@.len() as int] == '.'
            &&& r@.skip(prefix@.len() as int + 1) == name@
        },
{
    if prefix@.len() > 0 {
        assert(r@.take(prefix@.len() as int) =~= prefix@);
        assert(r@.skip(prefix@.len() as int + 1) =~= name@);
    }
}

/// Names are the same where they have the same characters in the same places.
pub proof fn law_same_names(a: &str, b: &str, r: bool, i: int)
    requires
        call_ensures(same, (a, b), r),
    ensures
        r ==> a@.len() == b@.len() && (0 <= i < a@.len() ==> a@[i] == b@[i]),
        a@ =~= b@ ==> r,
{
}

/// A part stands at a place where each of its characters is found there, and in a
/// text where it stands at some place.
pub proof fn law_parts_of_text(s: &str, part: &str, at: usize, here: bool, somewhere: bool, i: int)
    requires
        call_ensures(matches_at, (s, part, at), here),
        call_ensures(contains_part, (s, part), somewhere),
    ensures
        here ==> at + part@.len() <= s@.len() && (0 <= i < part@.len() ==> s@[at + i] == part@[i]),
        at + part@.len() <= s@.len() && (forall|j: int| 0 <= j < part@.len() ==> s@[at + j] == #[trigger] part@[j]) ==> here,
        here ==> somewhere,
        somewhere ==> part@.len() <= s@.len(),
        somewhere ==> exists|k: int| 0 <= k <= s@.len() - part@.len() && #[trigger] s@.subrange(k, k + part@.len()) == part@,
{
    if here && 0 <= i < part@.len() {
        assert(s@.subrange(at as int, at + part@.len())[i] == part@[i]);
    }
    if at + part@.len() <= s@.len() && (forall|j: int| 0 <= j < part@.len() ==> s@[at + j] == #[trigger] part@[j]) {
        assert(s@.subrange(at as int, at + part@.len()) =~= part@);
    }
    if somewhere {
        let k = choose|k: int| #[trigger] stands_at(s@, part@, k);
        assert(s@.subrange(k, k + part@.len()) == part@);
    }
}

/// Names that differ only in large and small letters of ASCII count as the same
/// in small, and only those.
pub proof fn law_same_in_small(a: &str, b: &str, r: bool, i: int)
    requires
        call_ensures(same_in_small, (a, b), r),
    ensures
        r ==> a@.len() == b@.len() && (0 <= i < a@.len() ==> ascii_lower_char(a@[i]) == b@[i]),
        a@.len() == b@.len() && (forall|j: int| 0 <= j < a@.len() ==> ascii_lower_char(#[trigger] a@[j]) == b@[j]) ==> r,
{
    let small = a@.map_values(|c: char| ascii_lower_char(c));
    if r && 0 <= i < a@.len() {
        assert(small[i] == b@[i]);
    }
    if a@.len() == b@.len() && (forall|j: int| 0 <= j < a@.len() ==> ascii_lower_char(#[trigger] a@[j]) == b@[j]) {
        assert(small =~= b@);
    }
}

} // verus!
