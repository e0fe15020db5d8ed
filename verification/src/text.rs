//! Character-level string helpers with exact specifications over `Seq<char>`.
use vstd::prelude::*;

verus! {

broadcast use vstd::string::group_string_axioms;

// ---------------------------------------------------------------------------
// Specifications
// ---------------------------------------------------------------------------

/// `p` occurs in `s` at position `i`.
pub open spec fn occurs_at(s: Seq<char>, p: Seq<char>, i: int) -> bool {
    0 <= i && i + p.len() <= s.len() && s.subrange(i, i + p.len()) == p
}

/// `p` occurs somewhere in `s` (what `str::contains` decides for a string pattern).
pub open spec fn has_substring(s: Seq<char>, p: Seq<char>) -> bool {
    exists|i: int| #[trigger] occurs_at(s, p, i)
}

/// `s` starts with `p`.
pub open spec fn has_prefix(s: Seq<char>, p: Seq<char>) -> bool {
    p.len() <= s.len() && s.subrange(0, p.len() as int) == p
}

/// `s` ends with `p`.
pub open spec fn has_suffix(s: Seq<char>, p: Seq<char>) -> bool {
    p.len() <= s.len() && s.subrange(s.len() - p.len(), s.len() as int) == p
}

/// ASCII lower-casing of one character (`char::to_ascii_lowercase`).
pub open spec fn ascii_lower(c: char) -> char {
    if 'A' <= c && c <= 'Z' {
        ((c as u32 + 32) as u8) as char
    } else {
        c
    }
}

/// ASCII lower-casing of a string (`str::to_ascii_lowercase`).
pub open spec fn ascii_lower_seq(s: Seq<char>) -> Seq<char> {
    s.map_values(|c: char| ascii_lower(c))
}

/// The Unicode `White_Space` property (`char::is_whitespace`).
pub open spec fn is_white(c: char) -> bool {
    let u = c as u32;
    (0x09 <= u && u <= 0x0d) || u == 0x20 || u == 0x85 || u == 0xa0 || u == 0x1680 || (0x2000 <= u
        && u <= 0x200a) || u == 0x2028 || u == 0x2029 || u == 0x202f || u == 0x205f || u == 0x3000
}

/// Number of leading white-space characters of `s`.
pub open spec fn leading_white(s: Seq<char>) -> nat
    decreases s.len(),
{
    if s.len() > 0 && is_white(s[0]) {
        1 + leading_white(s.drop_first())
    } else {
        0
    }
}

/// `s` without its leading white space (`str::trim_start`).
pub open spec fn trim_start(s: Seq<char>) -> Seq<char> {
    s.subrange(leading_white(s) as int, s.len() as int)
}

/// Decimal digits.
pub const DIGITS: [char; 10] = ['0', '1', '2', '3', '4', '5', '6', '7', '8', '9'];

/// Decimal rendering of a natural number (what `Display` prints for an unsigned integer).
pub open spec fn decimal(n: nat) -> Seq<char>
    decreases n,
{
    if n < 10 {
        seq![DIGITS@[n as int]]
    } else {
        decimal(n / 10).push(DIGITS@[(n % 10) as int])
    }
}

/// Elements of `items` with `sep` between consecutive elements.
pub open spec fn join(items: Seq<Seq<char>>, sep: Seq<char>) -> Seq<char>
    decreases items.len(),
{
    if items.len() == 0 {
        seq![]
    } else if items.len() == 1 {
        items[0]
    } else {
        join(items.drop_last(), sep) + sep + items.last()
    }
}

/// The views of a vector of strings.
pub open spec fn views(v: Seq<String>) -> Seq<Seq<char>> {
    v.map_values(|s: String| s@)
}

// ---------------------------------------------------------------------------
// Trusted std call
// ---------------------------------------------------------------------------

/// `String::push`: appends one character; std documents that the string then
/// ends with that character after its previous contents.
#[verifier::external_body]
pub(crate) fn push_char(s: &mut String, c: char)
    ensures
        final(s)@ == old(s)@.push(c),
{
    s.push(c);
}

// ---------------------------------------------------------------------------
// Executable helpers
// ---------------------------------------------------------------------------

/// The characters of `s`, in order.
pub fn str_chars(s: &str) -> (v: Vec<char>)
    ensures
        v@ == s@,
{
    let mut v: Vec<char> = Vec::new();
    for c in iter: s.chars()
        invariant
            v@ == iter.seq().take(iter.index() as int),
    {
        v.push(c);
    }
    v
}

/// Appends the characters of `v` to `s`.
pub fn push_chars(s: &mut String, v: &Vec<char>)
    ensures
        final(s)@ == old(s)@ + v@,
{
    let n = v.len();
    let mut i: usize = 0;
    while i < n
        invariant
            n == v.len(),
            i <= n,
            s@ == old(s)@ + v@.take(i as int),
        decreases n - i,
    {
        push_char(s, v[i]);
        assert(v@.take(i as int).push(v@[i as int]) == v@.take(i + 1));
        i = i + 1;
    }
    assert(v@.take(n as int) == v@);
}

/// A new string holding exactly the characters of `v`.
pub fn string_from_chars(v: &Vec<char>) -> (s: String)
    ensures
        s@ == v@,
{
    let mut s = String::new();
    push_chars(&mut s, v);
    s
}

/// Appends a string slice.
pub fn push_str(s: &mut String, t: &str)
    ensures
        final(s)@ == old(s)@ + t@,
{
    let v = str_chars(t);
    push_chars(s, &v);
}

/// Concatenation of two string slices.
pub fn concat2(a: &str, b: &str) -> (r: String)
    ensures
        r@ == a@ + b@,
{
    let mut r = String::new();
    push_str(&mut r, a);
    push_str(&mut r, b);
    r
}

/// A copy of a string slice.
pub fn to_owned(a: &str) -> (r: String)
    ensures
        r@ == a@,
{
    let v = str_chars(a);
    string_from_chars(&v)
}

/// Whether `p` occurs in `h` at position `i`.
pub fn occurs_at_exec(h: &Vec<char>, p: &Vec<char>, i: usize) -> (b: bool)
    requires
        i + p.len() <= h.len(),
    ensures
        b == occurs_at(h@, p@, i as int),
{
    let n = p.len();
    let mut k: usize = 0;
    while k < n
        invariant
            n == p.len(),
            i + n <= h.len(),
            k <= n,
            forall|j: int| 0 <= j < k ==> h@[i + j] == p@[j],
        decreases n - k,
    {
        if h[i + k] != p[k] {
            assert(h@.subrange(i as int, i + n)[k as int] != p@[k as int]);
            return false;
        }
        k = k + 1;
    }
    assert(h@.subrange(i as int, i + n) =~= p@);
    true
}

/// Whether `p` occurs in `h` (`str::contains`).
pub fn contains_chars(h: &Vec<char>, p: &Vec<char>) -> (b: bool)
    ensures
        b == has_substring(h@, p@),
{
    if p.len() > h.len() {
        assert forall|i: int| !#[trigger] occurs_at(h@, p@, i) by {}
        return false;
    }
    let last = h.len() - p.len();
    let mut i: usize = 0;
    loop
        invariant
            last == h.len() - p.len(),
            p.len() <= h.len(),
            i <= last,
            forall|j: int| 0 <= j < i ==> !#[trigger] occurs_at(h@, p@, j),
        ensures
            forall|j: int| 0 <= j <= last ==> !#[trigger] occurs_at(h@, p@, j),
        decreases last - i,
    {
        if occurs_at_exec(h, p, i) {
            assert(occurs_at(h@, p@, i as int));
            return true;
        }
        if i == last {
            break;
        }
        i = i + 1;
    }
    assert forall|j: int| !#[trigger] occurs_at(h@, p@, j) by {
        if 0 <= j <= last {
        }
    }
    false
}

/// Whether `pat` occurs in `s`.
pub fn str_contains(s: &str, pat: &str) -> (b: bool)
    ensures
        b == has_substring(s@, pat@),
{
    let h = str_chars(s);
    let p = str_chars(pat);
    contains_chars(&h, &p)
}

/// Whether two strings are equal.
pub fn str_eq(a: &str, b: &str) -> (r: bool)
    ensures
        r == (a@ == b@),
{
    let x = str_chars(a);
    let y = str_chars(b);
    if x.len() != y.len() {
        return false;
    }
    let r = occurs_at_exec(&x, &y, 0);
    assert(r ==> x@.subrange(0, y@.len() as int) =~= x@);
    assert(a@ == b@ ==> x@.subrange(0, y@.len() as int) =~= y@);
    r
}

/// Whether `h` starts with `p`.
pub fn starts_with_chars(h: &Vec<char>, p: &Vec<char>) -> (b: bool)
    ensures
        b == has_prefix(h@, p@),
{
    if p.len() > h.len() {
        return false;
    }
    let r = occurs_at_exec(h, p, 0);
    r
}

/// Whether `h` ends with `p`.
pub fn ends_with_chars(h: &Vec<char>, p: &Vec<char>) -> (b: bool)
    ensures
        b == has_suffix(h@, p@),
{
    if p.len() > h.len() {
        return false;
    }
    let r = occurs_at_exec(h, p, h.len() - p.len());
    r
}

/// Whether `s` starts with `pat` (`str::starts_with`).
pub fn str_starts_with(s: &str, pat: &str) -> (b: bool)
    ensures
        b == has_prefix(s@, pat@),
{
    let h = str_chars(s);
    let p = str_chars(pat);
    starts_with_chars(&h, &p)
}

/// ASCII lower-casing of one character.
pub fn ascii_lower_exec(c: char) -> (r: char)
    ensures
        r == ascii_lower(c),
{
    if 'A' <= c && c <= 'Z' {
        let u: u32 = c as u32;
        let b: u8 = (u + 32) as u8;
        b as char
    } else {
        c
    }
}

/// ASCII lower-casing of a character vector.
pub fn ascii_lower_chars(v: &Vec<char>) -> (r: Vec<char>)
    ensures
        r@ == ascii_lower_seq(v@),
{
    let mut r: Vec<char> = Vec::new();
    let n = v.len();
    let mut i: usize = 0;
    while i < n
        invariant
            n == v.len(),
            i <= n,
            r@ == ascii_lower_seq(v@.take(i as int)),
        decreases n - i,
    {
        r.push(ascii_lower_exec(v[i]));
        assert(ascii_lower_seq(v@.take(i + 1)) =~= ascii_lower_seq(v@.take(i as int)).push(
            ascii_lower(v@[i as int]),
        ));
        i = i + 1;
    }
    assert(v@.take(n as int) == v@);
    r
}

/// `char::is_whitespace`.
pub fn is_white_exec(c: char) -> (b: bool)
    ensures
        b == is_white(c),
{
    let u: u32 = c as u32;
    (0x09 <= u && u <= 0x0d) || u == 0x20 || u == 0x85 || u == 0xa0 || u == 0x1680 || (0x2000 <= u
        && u <= 0x200a) || u == 0x2028 || u == 0x2029 || u == 0x202f || u == 0x205f || u == 0x3000
}

/// `leading_white` of a suffix, counted from the front of that suffix.
proof fn lemma_leading_white_skip(s: Seq<char>, k: int)
    requires
        0 <= k <= s.len(),
        forall|j: int| 0 <= j < k ==> is_white(#[trigger] s[j]),
    ensures
        leading_white(s) == k + leading_white(s.subrange(k, s.len() as int)),
    decreases k,
{
    if k > 0 {
        let t = s.drop_first();
        assert forall|j: int| 0 <= j < k - 1 implies is_white(#[trigger] t[j]) by {
            assert(t[j] == s[j + 1]);
        }
        lemma_leading_white_skip(t, k - 1);
        assert(t.subrange(k - 1, t.len() as int) =~= s.subrange(k, s.len() as int));
    } else {
        assert(s.subrange(0, s.len() as int) =~= s);
    }
}

/// The characters of `v` without leading white space (`str::trim_start`).
pub fn trim_start_chars(v: &Vec<char>) -> (r: Vec<char>)
    ensures
        r@ == trim_start(v@),
{
    let n = v.len();
    let mut k: usize = 0;
    while k < n && is_white_exec(v[k])
        invariant
            n == v.len(),
            k <= n,
            forall|j: int| 0 <= j < k ==> is_white(#[trigger] v@[j]),
        decreases n - k,
    {
        k = k + 1;
    }
    proof {
        lemma_leading_white_skip(v@, k as int);
        let rest = v@.subrange(k as int, n as int);
        if k < n {
            assert(rest[0] == v@[k as int]);
            assert(leading_white(rest) == 0);
        } else {
            assert(rest.len() == 0);
        }
    }
    let mut r: Vec<char> = Vec::new();
    let mut i: usize = k;
    while i < n
        invariant
            n == v.len(),
            k <= i <= n,
            r@ == v@.subrange(k as int, i as int),
        decreases n - i,
    {
        r.push(v[i]);
        assert(v@.subrange(k as int, i + 1) == v@.subrange(k as int, i as int).push(v@[i as int]));
        i = i + 1;
    }
    r
}

/// Appends the decimal rendering of `n` (as `{}` formats a `u64`).
pub fn push_decimal(out: &mut String, n: u64)
    ensures
        final(out)@ == old(out)@ + decimal(n as nat),
    decreases n,
{
    if n >= 10 {
        push_decimal(out, n / 10);
    }
    let d: usize = (n % 10) as usize;
    push_char(out, DIGITS[d]);
    proof {
        if n >= 10 {
            assert(decimal(n as nat) == decimal((n / 10) as nat).push(DIGITS@[(n % 10) as int]));
        }
    }
}

/// The decimal rendering of `n`.
pub fn decimal_string(n: u64) -> (s: String)
    ensures
        s@ == decimal(n as nat),
{
    let mut s = String::new();
    push_decimal(&mut s, n);
    s
}

/// Joins `items` with `sep` between consecutive elements (`[String]::join`).
pub fn join_strings(items: &Vec<String>, sep: &str) -> (r: String)
    ensures
        r@ == join(views(items@), sep@),
{
    let mut r = String::new();
    let n = items.len();
    let mut i: usize = 0;
    while i < n
        invariant
            n == items.len(),
            i <= n,
            r@ == join(views(items@.take(i as int)), sep@),
        decreases n - i,
    {
        if i > 0 {
            push_str(&mut r, sep);
        }
        push_str(&mut r, items[i].as_str());
        proof {
            let pre = views(items@.take(i as int));
            let post = views(items@.take(i + 1));
            assert(post =~= pre.push(items@[i as int]@));
            assert(post.drop_last() =~= pre);
            if i == 0 {
                assert(post.len() == 1);
            }
        }
        i = i + 1;
    }
    assert(items@.take(n as int) == items@);
    r
}

} // verus!
