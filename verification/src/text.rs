use vstd::prelude::*;
use vstd::string::*;

verus! {

// ---------------------------------------------------------------------------
// Character classes (ASCII), case folding, and case-insensitive matching over
// sequences of characters. Plan-step keywords are ASCII, so ASCII case folding
// is all the matching needs.
// ---------------------------------------------------------------------------

pub open spec fn is_ws_char(c: char) -> bool {
    c == ' ' || c == '\t' || c == '\n' || c == '\r'
}

pub open spec fn is_ident_char(c: char) -> bool {
    ||| 'a' as u32 <= c as u32 && c as u32 <= 'z' as u32
    ||| 'A' as u32 <= c as u32 && c as u32 <= 'Z' as u32
    ||| '0' as u32 <= c as u32 && c as u32 <= '9' as u32
    ||| c == '_'
}

/// ASCII upper-casing of one character; other characters are unchanged.
pub open spec fn upper_char(c: char) -> char {
    if 'a' as u32 <= c as u32 && c as u32 <= 'z' as u32 {
        ((c as u8) - 0x20) as char
    } else {
        c
    }
}

pub fn is_ws_char_x(c: char) -> (r: bool)
    ensures
        r == is_ws_char(c),
{
    c == ' ' || c == '\t' || c == '\n' || c == '\r'
}

pub fn is_ident_char_x(c: char) -> (r: bool)
    ensures
        r == is_ident_char(c),
{
    ('a' as u32 <= c as u32 && c as u32 <= 'z' as u32)
        || ('A' as u32 <= c as u32 && c as u32 <= 'Z' as u32)
        || ('0' as u32 <= c as u32 && c as u32 <= '9' as u32)
        || c == '_'
}

pub fn upper_char_x(c: char) -> (r: char)
    ensures
        r == upper_char(c),
{
    if 'a' as u32 <= c as u32 && c as u32 <= 'z' as u32 {
        ((c as u8) - 0x20) as char
    } else {
        c
    }
}

/// The keyword `k` matches at position `i` of `s`, comparing ASCII
/// case-insensitively.
pub open spec fn matches_ci_at(s: Seq<char>, k: Seq<char>, i: int) -> bool {
    &&& 0 <= i
    &&& i + k.len() <= s.len()
    &&& forall|j: int| 0 <= j < k.len() ==> upper_char(s[i + j]) == upper_char(k[j])
}

/// First position at or after `i` where `k` matches `s` case-insensitively.
pub open spec fn find_ci_from(s: Seq<char>, k: Seq<char>, i: int) -> Option<int>
    decreases s.len() - i,
{
    if i < 0 || i + k.len() > s.len() {
        None
    } else if matches_ci_at(s, k, i) {
        Some(i)
    } else {
        find_ci_from(s, k, i + 1)
    }
}

pub open spec fn find_ci(s: Seq<char>, k: Seq<char>) -> Option<int> {
    find_ci_from(s, k, 0)
}

pub open spec fn contains_ci(s: Seq<char>, k: Seq<char>) -> bool {
    find_ci(s, k) is Some
}

proof fn lemma_find_ci_from_bounds(s: Seq<char>, k: Seq<char>, i: int)
    requires
        find_ci_from(s, k, i) is Some,
    ensures
        i <= find_ci_from(s, k, i)->Some_0,
        matches_ci_at(s, k, find_ci_from(s, k, i)->Some_0),
    decreases s.len() - i,
{
    if i < 0 || i + k.len() > s.len() {
    } else if matches_ci_at(s, k, i) {
    } else {
        lemma_find_ci_from_bounds(s, k, i + 1);
    }
}

pub proof fn lemma_find_ci_props(s: Seq<char>, k: Seq<char>)
    requires
        find_ci(s, k) is Some,
    ensures
        0 <= find_ci(s, k)->Some_0,
        matches_ci_at(s, k, find_ci(s, k)->Some_0),
{
    lemma_find_ci_from_bounds(s, k, 0);
}

pub fn matches_ci_at_x(s: &Vec<char>, k: &Vec<char>, i: usize) -> (r: bool)
    requires
        i + k.len() <= s.len(),
    ensures
        r == matches_ci_at(s@, k@, i as int),
{
    let mut j: usize = 0;
    while j < k.len()
        invariant
            0 <= j <= k.len(),
            i + k.len() <= s.len(),
            forall|m: int| 0 <= m < j ==> upper_char(s@[i + m]) == upper_char(k@[m]),
        decreases k.len() - j,
    {
        if upper_char_x(s[i + j]) != upper_char_x(k[j]) {
            return false;
        }
        j += 1;
    }
    true
}

/// Finds the first case-insensitive occurrence of `k` in `s`.
pub fn find_ci_x(s: &Vec<char>, k: &Vec<char>) -> (r: Option<usize>)
    ensures
        match r {
            Some(i) => find_ci(s@, k@) == Some(i as int),
            None => find_ci(s@, k@) is None,
        },
{
    if k.len() > s.len() {
        return None;
    }
    let bound = s.len() - k.len();
    let mut i: usize = 0;
    while i <= bound
        invariant
            k.len() <= s.len(),
            bound == s.len() - k.len(),
            0 <= i <= bound + 1,
            find_ci_from(s@, k@, 0) == find_ci_from(s@, k@, i as int),
        decreases bound + 1 - i,
    {
        if matches_ci_at_x(s, k, i) {
            return Some(i);
        }
        assert(find_ci_from(s@, k@, i as int) == find_ci_from(s@, k@, i + 1 as int));
        i += 1;
    }
    assert(find_ci_from(s@, k@, i as int) is None);
    None
}

// ---------------------------------------------------------------------------
// Scanning primitives: skip whitespace, read an identifier, find a quote.
// ---------------------------------------------------------------------------

/// First position at or after `i` that does not hold whitespace.
pub open spec fn skip_ws(s: Seq<char>, i: int) -> int
    decreases s.len() - i,
{
    if 0 <= i < s.len() && is_ws_char(s[i]) {
        skip_ws(s, i + 1)
    } else {
        i
    }
}

pub fn skip_ws_x(s: &Vec<char>, i: usize) -> (r: usize)
    requires
        i <= s.len(),
    ensures
        r == skip_ws(s@, i as int),
        i <= r <= s.len(),
    decreases s.len() - i,
{
    if i < s.len() && is_ws_char_x(s[i]) {
        skip_ws_x(s, i + 1)
    } else {
        i
    }
}

/// First position at or after `i` that does not hold an identifier character.
pub open spec fn ident_end(s: Seq<char>, i: int) -> int
    decreases s.len() - i,
{
    if 0 <= i < s.len() && is_ident_char(s[i]) {
        ident_end(s, i + 1)
    } else {
        i
    }
}

pub proof fn lemma_ident_end_bounds(s: Seq<char>, i: int)
    requires
        0 <= i <= s.len(),
    ensures
        i <= ident_end(s, i) <= s.len(),
    decreases s.len() - i,
{
    if 0 <= i < s.len() && is_ident_char(s[i]) {
        lemma_ident_end_bounds(s, i + 1);
    }
}

pub fn ident_end_x(s: &Vec<char>, i: usize) -> (r: usize)
    requires
        i <= s.len(),
    ensures
        r == ident_end(s@, i as int),
        i <= r <= s.len(),
    decreases s.len() - i,
{
    if i < s.len() && is_ident_char_x(s[i]) {
        ident_end_x(s, i + 1)
    } else {
        i
    }
}

/// First position at or after `i` holding exactly `q`, or the length of `s`.
pub open spec fn find_char(s: Seq<char>, i: int, q: char) -> int
    decreases s.len() - i,
{
    if 0 <= i < s.len() {
        if s[i] == q {
            i
        } else {
            find_char(s, i + 1, q)
        }
    } else {
        s.len() as int
    }
}

pub fn find_char_x(s: &Vec<char>, i: usize, q: char) -> (r: usize)
    requires
        i <= s.len(),
    ensures
        r == find_char(s@, i as int, q),
        i <= r <= s.len(),
    decreases s.len() - i,
{
    if i < s.len() {
        if s[i] == q {
            i
        } else {
            find_char_x(s, i + 1, q)
        }
    } else {
        s.len()
    }
}

// ---------------------------------------------------------------------------
// Lexicographic order on character sequences (by code point), used to sort
// table names alphabetically.
// ---------------------------------------------------------------------------

pub open spec fn seq_le_from(a: Seq<char>, b: Seq<char>, i: int) -> bool
    decreases a.len() - i,
{
    if i < 0 || i >= a.len() {
        true
    } else if i >= b.len() {
        false
    } else if (a[i] as u32) == (b[i] as u32) {
        seq_le_from(a, b, i + 1)
    } else {
        (a[i] as u32) < (b[i] as u32)
    }
}

/// `a` sorts at or before `b` in code-point lexicographic order.
pub open spec fn seq_le(a: Seq<char>, b: Seq<char>) -> bool {
    seq_le_from(a, b, 0)
}

pub proof fn lemma_seq_le_total(a: Seq<char>, b: Seq<char>, i: int)
    ensures
        seq_le_from(a, b, i) || seq_le_from(b, a, i),
    decreases a.len() - i,
{
    if i < 0 || i >= a.len() || i >= b.len() {
    } else if (a[i] as u32) == (b[i] as u32) {
        lemma_seq_le_total(a, b, i + 1);
    }
}

pub proof fn lemma_seq_le_trans(a: Seq<char>, b: Seq<char>, c: Seq<char>, i: int)
    requires
        seq_le_from(a, b, i),
        seq_le_from(b, c, i),
    ensures
        seq_le_from(a, c, i),
    decreases a.len() - i,
{
    if i < 0 || i >= a.len() {
    } else if i >= b.len() {
    } else if i >= c.len() {
    } else if (a[i] as u32) == (b[i] as u32) && (b[i] as u32) == (c[i] as u32) {
        lemma_seq_le_trans(a, b, c, i + 1);
    }
}

fn lex_le_from(a: &Vec<char>, b: &Vec<char>, i: usize) -> (r: bool)
    requires
        i <= a.len(),
        i <= b.len(),
    ensures
        r == seq_le_from(a@, b@, i as int),
    decreases a.len() - i,
{
    if i >= a.len() {
        true
    } else if i >= b.len() {
        false
    } else if (a[i] as u32) == (b[i] as u32) {
        lex_le_from(a, b, i + 1)
    } else {
        (a[i] as u32) < (b[i] as u32)
    }
}

pub fn lex_le(a: &Vec<char>, b: &Vec<char>) -> (r: bool)
    ensures
        r == seq_le(a@, b@),
{
    lex_le_from(a, b, 0)
}

// ---------------------------------------------------------------------------
// Conversions between `String` and `Vec<char>`, and string building.
// ---------------------------------------------------------------------------

/// Relies on std's `String::push`: appends exactly one character.
#[verifier::external_body]
pub(crate) fn push_char(s: &mut String, c: char)
    ensures
        final(s)@ == old(s)@.push(c),
{
    s.push(c);
}

/// The characters of `s`, in order.
pub fn chars_of(s: &str) -> (r: Vec<char>)
    ensures
        r@ == s@,
{
    let n = s.unicode_len();
    let mut r: Vec<char> = Vec::new();
    let mut i: usize = 0;
    while i < n
        invariant
            0 <= i <= n,
            n == s@.len(),
            r@ == s@.subrange(0, i as int),
        decreases n - i,
    {
        r.push(s.get_char(i));
        assert(r@ =~= s@.subrange(0, i + 1 as int));
        i += 1;
    }
    assert(r@ =~= s@);
    r
}

/// A `String` holding exactly the characters of `v`.
pub fn string_of_chars(v: &Vec<char>) -> (r: String)
    ensures
        r@ == v@,
{
    let mut r = String::new();
    let mut i: usize = 0;
    while i < v.len()
        invariant
            0 <= i <= v.len(),
            r@ == v@.subrange(0, i as int),
        decreases v.len() - i,
    {
        push_char(&mut r, v[i]);
        assert(r@ =~= v@.subrange(0, i + 1 as int));
        i += 1;
    }
    assert(r@ =~= v@);
    r
}

/// The views of a sequence of strings.
pub open spec fn str_views(v: Seq<String>) -> Seq<Seq<char>> {
    Seq::new(v.len(), |i: int| v[i]@)
}

/// `s` begins with `p`, compared case-sensitively.
pub open spec fn starts_with_cs(s: Seq<char>, p: Seq<char>) -> bool {
    p.len() <= s.len() && s.subrange(0, p.len() as int) == p
}

pub fn starts_with_cs_x(s: &Vec<char>, p: &Vec<char>) -> (r: bool)
    ensures
        r == starts_with_cs(s@, p@),
{
    if p.len() > s.len() {
        return false;
    }
    let mut i: usize = 0;
    while i < p.len()
        invariant
            0 <= i <= p@.len() <= s@.len(),
            forall|j: int| 0 <= j < i ==> s@[j] == p@[j],
        decreases p@.len() - i,
    {
        if s[i] != p[i] {
            assert(s@.subrange(0, p@.len() as int)[i as int] != p@[i as int]);
            return false;
        }
        i += 1;
    }
    assert(s@.subrange(0, p@.len() as int) =~= p@);
    true
}

/// `s` with every occurrence of `q` removed.
pub open spec fn without_char(s: Seq<char>, q: char) -> Seq<char>
    decreases s.len(),
{
    if s.len() == 0 {
        Seq::empty()
    } else if s.last() == q {
        without_char(s.drop_last(), q)
    } else {
        without_char(s.drop_last(), q).push(s.last())
    }
}

pub fn without_char_x(s: &Vec<char>, q: char) -> (r: Vec<char>)
    ensures
        r@ == without_char(s@, q),
{
    let mut r: Vec<char> = Vec::new();
    let mut i: usize = 0;
    while i < s.len()
        invariant
            0 <= i <= s@.len(),
            r@ == without_char(s@.take(i as int), q),
        decreases s@.len() - i,
    {
        proof {
            assert(s@.take(i as int + 1).drop_last() =~= s@.take(i as int));
        }
        if s[i] != q {
            r.push(s[i]);
        }
        i += 1;
    }
    proof {
        assert(s@.take(s@.len() as int) =~= s@);
    }
    r
}

/// `s` with every occurrence of `q` doubled.
pub open spec fn double_char(s: Seq<char>, q: char) -> Seq<char>
    decreases s.len(),
{
    if s.len() == 0 {
        Seq::empty()
    } else if s.last() == q {
        double_char(s.drop_last(), q).push(q).push(q)
    } else {
        double_char(s.drop_last(), q).push(s.last())
    }
}

pub fn double_char_x(s: &Vec<char>, q: char) -> (r: Vec<char>)
    ensures
        r@ == double_char(s@, q),
{
    let mut r: Vec<char> = Vec::new();
    let mut i: usize = 0;
    while i < s.len()
        invariant
            0 <= i <= s@.len(),
            r@ == double_char(s@.take(i as int), q),
        decreases s@.len() - i,
    {
        proof {
            assert(s@.take(i as int + 1).drop_last() =~= s@.take(i as int));
        }
        if s[i] == q {
            r.push(q);
            r.push(q);
        } else {
            r.push(s[i]);
        }
        i += 1;
    }
    proof {
        assert(s@.take(s@.len() as int) =~= s@);
    }
    r
}

/// `prefix` followed by `tail`, as a fresh `String`.
pub fn concat_str(prefix: &str, tail: &str) -> (r: String)
    ensures
        r@ == prefix@ + tail@,
{
    let mut r = String::from_str(prefix);
    r.append(tail);
    r
}

} // verus!
