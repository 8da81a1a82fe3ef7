//! Character-level text handling shared by the rest of the library.
use vstd::prelude::*;

verus! {

/// The Unicode `White_Space` property, as used by `char::is_whitespace`.
pub open spec fn is_ws(c: char) -> bool {
    ||| ('\u{9}' <= c && c <= '\u{d}')
    ||| c == ' '
    ||| c == '\u{85}'
    ||| c == '\u{a0}'
    ||| c == '\u{1680}'
    ||| ('\u{2000}' <= c && c <= '\u{200a}')
    ||| c == '\u{2028}'
    ||| c == '\u{2029}'
    ||| c == '\u{202f}'
    ||| c == '\u{205f}'
    ||| c == '\u{3000}'
}

pub fn is_whitespace(c: char) -> (r: bool)
    ensures
        r == is_ws(c),
{
    ('\u{9}' <= c && c <= '\u{d}') || c == ' ' || c == '\u{85}' || c == '\u{a0}' || c
        == '\u{1680}' || ('\u{2000}' <= c && c <= '\u{200a}') || c == '\u{2028}' || c == '\u{2029}'
        || c == '\u{202f}' || c == '\u{205f}' || c == '\u{3000}'
}

/// A class of characters that trimming and matching work with.
#[derive(Clone, Copy)]
pub enum CharClass {
    /// `char::is_whitespace`.
    Whitespace,
    /// A double or a single quote.
    Quote,
    /// Exactly the given character.
    Exactly(char),
    /// A Windows path separator: `\\` or `/`.
    Separator,
}

pub open spec fn in_class(cls: CharClass, c: char) -> bool {
    match cls {
        CharClass::Whitespace => is_ws(c),
        CharClass::Quote => c == '"' || c == '\'',
        CharClass::Exactly(x) => c == x,
        CharClass::Separator => c == '\\' || c == '/',
    }
}

pub fn class_matches(cls: CharClass, c: char) -> (r: bool)
    ensures
        r == in_class(cls, c),
{
    match cls {
        CharClass::Whitespace => is_whitespace(c),
        CharClass::Quote => c == '"' || c == '\'',
        CharClass::Exactly(x) => c == x,
        CharClass::Separator => c == '\\' || c == '/',
    }
}

/// Removes leading characters of the class.
pub open spec fn trim_start_class(s: Seq<char>, cls: CharClass) -> Seq<char>
    decreases s.len(),
{
    if s.len() > 0 && in_class(cls, s[0]) {
        trim_start_class(s.drop_first(), cls)
    } else {
        s
    }
}

/// Removes trailing characters of the class.
pub open spec fn trim_end_class(s: Seq<char>, cls: CharClass) -> Seq<char>
    decreases s.len(),
{
    if s.len() > 0 && in_class(cls, s.last()) {
        trim_end_class(s.drop_last(), cls)
    } else {
        s
    }
}

/// `str::trim_matches` for a class of characters.
pub open spec fn trim_class(s: Seq<char>, cls: CharClass) -> Seq<char> {
    trim_end_class(trim_start_class(s, cls), cls)
}

/// `str::trim`: strips Unicode whitespace from both ends.
pub open spec fn trim(s: Seq<char>) -> Seq<char> {
    trim_class(s, CharClass::Whitespace)
}


pub open spec fn ascii_lower_char(c: char) -> char {
    if 'A' <= c && c <= 'Z' {
        ((c as u32) + 32) as char
    } else {
        c
    }
}

pub open spec fn ascii_upper_char(c: char) -> char {
    if 'a' <= c && c <= 'z' {
        ((c as u32) - 32) as char
    } else {
        c
    }
}

/// `str::to_ascii_lowercase`.
pub open spec fn ascii_lower(s: Seq<char>) -> Seq<char> {
    s.map_values(|c: char| ascii_lower_char(c))
}

/// `str::to_ascii_uppercase`.
pub open spec fn ascii_upper(s: Seq<char>) -> Seq<char> {
    s.map_values(|c: char| ascii_upper_char(c))
}

/// Every occurrence of `from` replaced by `to`.
pub open spec fn replace_char(s: Seq<char>, from: char, to: char) -> Seq<char> {
    s.map_values(|c: char| if c == from { to } else { c })
}

pub open spec fn starts_with(s: Seq<char>, p: Seq<char>) -> bool {
    p.len() <= s.len() && s.subrange(0, p.len() as int) == p
}

pub open spec fn ends_with(s: Seq<char>, p: Seq<char>) -> bool {
    p.len() <= s.len() && s.subrange(s.len() - p.len(), s.len() as int) == p
}

/// `p` occurs in `s` starting at `i`.
pub open spec fn occurs_at(s: Seq<char>, p: Seq<char>, i: int) -> bool {
    0 <= i && i + p.len() <= s.len() && s.subrange(i, i + p.len()) == p
}

pub open spec fn contains_seq(s: Seq<char>, p: Seq<char>) -> bool {
    exists|i: int| occurs_at(s, p, i)
}

/// `i` is the first position where `p` occurs in `s`.
pub open spec fn first_occurrence(s: Seq<char>, p: Seq<char>, i: int) -> bool {
    occurs_at(s, p, i) && forall|j: int| 0 <= j < i ==> !occurs_at(s, p, j)
}

/// `char::to_ascii_lowercase`: maps `A`..=`Z` to `a`..=`z` and leaves every
/// other character unchanged.
pub fn ascii_lower_of(c: char) -> (r: char)
    ensures
        r == ascii_lower_char(c),
{
    if 'A' <= c && c <= 'Z' {
        let b = (c as u8) + 32;
        b as char
    } else {
        c
    }
}

/// `char::to_ascii_uppercase`: maps `a`..=`z` to `A`..=`Z` and leaves every
/// other character unchanged.
pub fn ascii_upper_of(c: char) -> (r: char)
    ensures
        r == ascii_upper_char(c),
{
    if 'a' <= c && c <= 'z' {
        let b = (c as u8) - 32;
        b as char
    } else {
        c
    }
}

/// Decimal digits of `n`, most significant first (`u64::to_string`).
pub open spec fn decimal(n: nat) -> Seq<char>
    decreases n,
{
    if n < 10 {
        seq![digit_char(n)]
    } else {
        decimal(n / 10).push(digit_char(n % 10))
    }
}

pub open spec fn digit_char(d: nat) -> char {
    if d == 0 { '0' } else if d == 1 { '1' } else if d == 2 { '2' } else if d == 3 { '3' }
    else if d == 4 { '4' } else if d == 5 { '5' } else if d == 6 { '6' } else if d == 7 { '7' }
    else if d == 8 { '8' } else { '9' }
}

fn digit_of(d: u64) -> (c: char)
    requires
        d < 10,
    ensures
        c == digit_char(d as nat),
{
    if d == 0 { '0' } else if d == 1 { '1' } else if d == 2 { '2' } else if d == 3 { '3' }
    else if d == 4 { '4' } else if d == 5 { '5' } else if d == 6 { '6' } else if d == 7 { '7' }
    else if d == 8 { '8' } else { '9' }
}

/// The decimal representation of `n`.
pub fn decimal_string(n: u64) -> (s: String)
    ensures
        s@ == decimal(n as nat),
    decreases n,
{
    if n < 10 {
        let mut s = String::new();
        push_char(&mut s, digit_of(n));
        assert(s@ == seq![digit_char(n as nat)]);
        s
    } else {
        let mut s = decimal_string(n / 10);
        push_char(&mut s, digit_of(n % 10));
        s
    }
}

/// An owned copy of a string slice.
pub fn owned(s: &str) -> (r: String)
    ensures
        r@ == s@,
{
    s.to_owned()
}

/// `a` followed by `b`.
pub fn concat2(a: &str, b: &str) -> (r: String)
    ensures
        r@ == a@ + b@,
{
    let mut r = a.to_owned();
    r.append(b);
    r
}

/// `a`, `b` and `c` in order.
pub fn concat3(a: &str, b: &str, c: &str) -> (r: String)
    ensures
        r@ == a@ + b@ + c@,
{
    let mut r = a.to_owned();
    r.append(b);
    r.append(c);
    r
}

pub fn lower_chars(v: &[char]) -> (r: Vec<char>)
    ensures
        r@ == ascii_lower(v@),
{
    let mut r: Vec<char> = Vec::new();
    let mut i: usize = 0;
    while i < v.len()
        invariant
            0 <= i <= v.len(),
            r@ == ascii_lower(v@.take(i as int)),
        decreases v.len() - i,
    {
        r.push(ascii_lower_of(v[i]));
        assert(v@.take(i + 1) == v@.take(i as int).push(v@[i as int]));
        i += 1;
    }
    assert(v@.take(v.len() as int) == v@);
    r
}

pub fn upper_chars(v: &[char]) -> (r: Vec<char>)
    ensures
        r@ == ascii_upper(v@),
{
    let mut r: Vec<char> = Vec::new();
    let mut i: usize = 0;
    while i < v.len()
        invariant
            0 <= i <= v.len(),
            r@ == ascii_upper(v@.take(i as int)),
        decreases v.len() - i,
    {
        r.push(ascii_upper_of(v[i]));
        assert(v@.take(i + 1) == v@.take(i as int).push(v@[i as int]));
        i += 1;
    }
    assert(v@.take(v.len() as int) == v@);
    r
}

pub fn replace_chars(v: &[char], from: char, to: char) -> (r: Vec<char>)
    ensures
        r@ == replace_char(v@, from, to),
{
    let mut r: Vec<char> = Vec::new();
    let mut i: usize = 0;
    while i < v.len()
        invariant
            0 <= i <= v.len(),
            r@ == replace_char(v@.take(i as int), from, to),
        decreases v.len() - i,
    {
        if v[i] == from {
            r.push(to);
        } else {
            r.push(v[i]);
        }
        assert(v@.take(i + 1) == v@.take(i as int).push(v@[i as int]));
        i += 1;
    }
    assert(v@.take(v.len() as int) == v@);
    r
}

/// Equality of two character sequences.
pub fn chars_eq(a: &[char], b: &[char]) -> (r: bool)
    ensures
        r == (a@ == b@),
{
    if a.len() != b.len() {
        return false;
    }
    let mut i: usize = 0;
    while i < a.len()
        invariant
            0 <= i <= a.len() == b.len(),
            forall|j: int| 0 <= j < i ==> a@[j] == b@[j],
        decreases a.len() - i,
    {
        if a[i] != b[i] {
            return false;
        }
        i += 1;
    }
    assert(a@ == b@);
    true
}

/// Whether `p` occurs in `v` at position `i`.
pub fn occurs_at_exec(v: &[char], p: &[char], i: usize) -> (r: bool)
    ensures
        r == occurs_at(v@, p@, i as int),
{
    if i > v.len() || p.len() > v.len() - i {
        return false;
    }
    let mut k: usize = 0;
    while k < p.len()
        invariant
            0 <= k <= p.len(),
            i + p.len() <= v.len(),
            forall|j: int| 0 <= j < k ==> v@[i + j] == p@[j],
        decreases p.len() - k,
    {
        if v[i + k] != p[k] {
            assert(v@.subrange(i as int, i + p.len())[k as int] != p@[k as int]);
            return false;
        }
        k += 1;
    }
    assert(v@.subrange(i as int, i + p.len()) == p@);
    true
}

pub fn starts_with_chars(v: &[char], p: &[char]) -> (r: bool)
    ensures
        r == starts_with(v@, p@),
{
    occurs_at_exec(v, p, 0)
}

pub fn ends_with_chars(v: &[char], p: &[char]) -> (r: bool)
    ensures
        r == ends_with(v@, p@),
{
    if p.len() > v.len() {
        false
    } else {
        occurs_at_exec(v, p, v.len() - p.len())
    }
}

/// The first position where `p` occurs in `v`, if any.
pub fn find_chars(v: &[char], p: &[char]) -> (r: Option<usize>)
    ensures
        r matches Some(i) ==> first_occurrence(v@, p@, i as int),
        r is None ==> !contains_seq(v@, p@),
{
    if p.len() > v.len() {
        assert forall|j: int| !occurs_at(v@, p@, j) by {}
        return None;
    }
    let last = v.len() - p.len();
    let mut i: usize = 0;
    loop
        invariant
            p.len() <= v.len(),
            last == v.len() - p.len(),
            0 <= i <= last,
            forall|j: int| 0 <= j < i ==> !occurs_at(v@, p@, j),
        ensures
            forall|j: int| !occurs_at(v@, p@, j),
        decreases last - i,
    {
        if occurs_at_exec(v, p, i) {
            return Some(i);
        }
        if i == last {
            break;
        }
        i += 1;
    }
    None
}

pub fn contains_chars(v: &[char], p: &[char]) -> (r: bool)
    ensures
        r == contains_seq(v@, p@),
{
    match find_chars(v, p) {
        Some(_) => true,
        None => false,
    }
}

/// Whether the string contains the pattern.
pub fn str_contains(s: &str, p: &str) -> (r: bool)
    ensures
        r == contains_seq(s@, p@),
{
    let v = chars_of(s);
    let q = chars_of(p);
    contains_chars(v.as_slice(), q.as_slice())
}

/// What `str::to_lowercase` returns for a string: the Unicode lowercase
/// mapping, which this library takes from std rather than restating.
pub uninterp spec fn unicode_lowercase(s: Seq<char>) -> Seq<char>;

/// Every character is ASCII.
pub open spec fn is_ascii_text(s: Seq<char>) -> bool {
    forall|i: int| 0 <= i < s.len() ==> (#[trigger] s[i] as u32) < 128
}

/// `str::to_lowercase` as far as it is stated: on ASCII text it is ASCII
/// lowercasing; on other text it is the Unicode mapping.
pub open spec fn lowercase(s: Seq<char>) -> Seq<char> {
    if is_ascii_text(s) {
        ascii_lower(s)
    } else {
        unicode_lowercase(s)
    }
}

/// `str::to_lowercase`. Its documentation defines it by Unicode's
/// lowercase mapping, which for ASCII letters is `A`..=`Z` to `a`..=`z`
/// and leaves every other ASCII character as it is; beyond ASCII the
/// result is only named.
#[verifier::external_body]
pub(crate) fn to_lowercase_str(s: &str) -> (r: String)
    ensures
        r@ == unicode_lowercase(s@),
        r@ == lowercase(s@),
{
    s.to_lowercase()
}

pub fn chars_of(s: &str) -> (v: Vec<char>)
    ensures
        v@ == s@,
{
    let mut v: Vec<char> = Vec::new();
    for c in it: s.chars()
        invariant
            v@ == it.seq().take(it.index() as int),
    {
        v.push(c);
    }
    v
}

pub fn string_of(v: &[char]) -> (s: String)
    ensures
        s@ == v@,
{
    let mut s = String::new();
    let mut i: usize = 0;
    while i < v.len()
        invariant
            0 <= i <= v.len(),
            s@ == v@.take(i as int),
        decreases v.len() - i,
    {
        push_char(&mut s, v[i]);
        i += 1;
    }
    assert(v@.take(v.len() as int) == v@);
    s
}

/// Appends one character (`String::push`).
#[verifier::external_body]
pub(crate) fn push_char(s: &mut String, c: char)
    ensures
        final(s)@ == old(s)@.push(c),
{
    s.push(c);
}

/// Copies `v[lo..hi]`.
pub fn slice_chars(v: &[char], lo: usize, hi: usize) -> (r: Vec<char>)
    requires
        lo <= hi <= v.len(),
    ensures
        r@ == v@.subrange(lo as int, hi as int),
{
    let mut r: Vec<char> = Vec::new();
    let mut i = lo;
    while i < hi
        invariant
            lo <= i <= hi <= v.len(),
            r@ == v@.subrange(lo as int, i as int),
        decreases hi - i,
    {
        r.push(v[i]);
        i += 1;
    }
    r
}

/// Trims leading characters of `cls` from `v`.
pub fn trim_start_chars(v: &[char], cls: CharClass) -> (r: Vec<char>)
    ensures
        r@ == trim_start_class(v@, cls),
{
    let n = v.len();
    let mut start: usize = 0;
    assert(v@.subrange(0, n as int) == v@);
    while start < n && class_matches(cls, v[start])
        invariant
            0 <= start <= n == v@.len(),
            trim_start_class(v@, cls) == trim_start_class(v@.subrange(start as int, n as int), cls),
        decreases n - start,
    {
        assert(v@.subrange(start as int, n as int).drop_first() == v@.subrange(start + 1, n as int));
        start += 1;
    }
    slice_chars(v, start, n)
}

/// Trims trailing characters of `cls` from `v`.
pub fn trim_end_chars(v: &[char], cls: CharClass) -> (r: Vec<char>)
    ensures
        r@ == trim_end_class(v@, cls),
{
    let n = v.len();
    let mut end: usize = n;
    assert(v@.subrange(0, n as int) == v@);
    while end > 0 && class_matches(cls, v[end - 1])
        invariant
            0 <= end <= n == v@.len(),
            trim_end_class(v@, cls) == trim_end_class(v@.subrange(0, end as int), cls),
        decreases end,
    {
        assert(v@.subrange(0, end as int).drop_last() == v@.subrange(0, end - 1));
        end -= 1;
    }
    slice_chars(v, 0, end)
}

/// Trims characters of `cls` from both ends of `v`.
pub fn trim_chars(v: &[char], cls: CharClass) -> (r: Vec<char>)
    ensures
        r@ == trim_class(v@, cls),
{
    let t = trim_start_chars(v, cls);
    trim_end_chars(t.as_slice(), cls)
}

/// `i` is the last position of a character of `cls` in `s`.
pub open spec fn last_in_class(s: Seq<char>, cls: CharClass, i: int) -> bool {
    &&& 0 <= i < s.len()
    &&& in_class(cls, s[i])
    &&& forall|j: int| i < j < s.len() ==> !in_class(cls, #[trigger] s[j])
}

pub open spec fn none_in_class(s: Seq<char>, cls: CharClass) -> bool {
    forall|j: int| 0 <= j < s.len() ==> !in_class(cls, #[trigger] s[j])
}

/// The last position of a character of `cls`, if any.
pub fn rfind_class(v: &[char], cls: CharClass) -> (r: Option<usize>)
    ensures
        r matches Some(i) ==> last_in_class(v@, cls, i as int),
        r is None ==> none_in_class(v@, cls),
{
    let mut i: usize = v.len();
    while i > 0
        invariant
            0 <= i <= v.len(),
            forall|j: int| i <= j < v.len() ==> !in_class(cls, #[trigger] v@[j]),
        decreases i,
    {
        if class_matches(cls, v[i - 1]) {
            return Some(i - 1);
        }
        i -= 1;
    }
    None
}

/// The first position of a character of `cls`, if any.
pub fn find_class(v: &[char], cls: CharClass) -> (r: Option<usize>)
    ensures
        r matches Some(i) ==> 0 <= i < v@.len() && in_class(cls, v@[i as int]) && forall|j: int|
            0 <= j < i ==> !in_class(cls, #[trigger] v@[j]),
        r is None ==> none_in_class(v@, cls),
{
    let mut i: usize = 0;
    while i < v.len()
        invariant
            0 <= i <= v.len(),
            forall|j: int| 0 <= j < i ==> !in_class(cls, #[trigger] v@[j]),
        decreases v.len() - i,
    {
        if class_matches(cls, v[i]) {
            return Some(i);
        }
        i += 1;
    }
    None
}

/// `str::trim` on a string.
pub fn trim_str(s: &str) -> (r: String)
    ensures
        r@ == trim(s@),
{
    let v = chars_of(s);
    let t = trim_chars(v.as_slice(), CharClass::Whitespace);
    string_of(t.as_slice())
}

/// A pattern's first position is unique.
pub proof fn lemma_first_occurrence_unique(s: Seq<char>, p: Seq<char>, i: int, j: int)
    requires
        first_occurrence(s, p, i),
        first_occurrence(s, p, j),
    ensures
        i == j,
{
}

/// `str::split_once`: the parts before and after the first occurrence of
/// `p`.
pub open spec fn split_once_spec(s: Seq<char>, p: Seq<char>) -> Option<(Seq<char>, Seq<char>)> {
    if exists|i: int| first_occurrence(s, p, i) {
        let i = choose|i: int| first_occurrence(s, p, i);
        Some((s.subrange(0, i), s.subrange(i + p.len(), s.len() as int)))
    } else {
        None
    }
}

/// Splits `v` at the first occurrence of `p`.
pub fn split_once_chars(v: &[char], p: &[char]) -> (r: Option<(Vec<char>, Vec<char>)>)
    ensures
        match r {
            Some((a, b)) => split_once_spec(v@, p@) == Some((a@, b@)),
            None => split_once_spec(v@, p@) is None,
        },
{
    match find_chars(v, p) {
        Some(i) => {
            proof {
                let c = choose|c: int| first_occurrence(v@, p@, c);
                lemma_first_occurrence_unique(v@, p@, i as int, c);
            }
            let a = slice_chars(v, 0, i);
            let b = slice_chars(v, i + p.len(), v.len());
            Some((a, b))
        },
        None => {
            assert(!exists|i: int| first_occurrence(v@, p@, i)) by {
                if exists|i: int| first_occurrence(v@, p@, i) {
                    let i = choose|i: int| first_occurrence(v@, p@, i);
                    assert(occurs_at(v@, p@, i));
                }
            }
            None
        },
    }
}

/// The value of a decimal digit character.
pub open spec fn digit_value(c: char) -> nat {
    (c as u32 - '0' as u32) as nat
}

pub open spec fn is_digit(c: char) -> bool {
    '0' <= c && c <= '9'
}

/// The number that a string of decimal digits spells.
pub open spec fn digits_value(s: Seq<char>) -> nat
    decreases s.len(),
{
    if s.len() == 0 {
        0
    } else {
        digits_value(s.drop_last()) * 10 + digit_value(s.last())
    }
}

/// The digits of an unsigned number: the text after an optional `+`.
pub open spec fn unsigned_digits(s: Seq<char>) -> Seq<char> {
    if s.len() > 0 && s[0] == '+' {
        s.drop_first()
    } else {
        s
    }
}

/// `u64::from_str`: an optional `+`, then one or more decimal digits whose
/// value fits in `u64`.
pub open spec fn parse_u64_spec(s: Seq<char>) -> Option<u64> {
    let d = unsigned_digits(s);
    if d.len() > 0 && (forall|i: int| 0 <= i < d.len() ==> is_digit(#[trigger] d[i]))
        && digits_value(d) <= u64::MAX {
        Some(digits_value(d) as u64)
    } else {
        None
    }
}

proof fn lemma_digits_value_prefix(s: Seq<char>, n: int)
    requires
        0 <= n <= s.len(),
    ensures
        digits_value(s.take(n)) <= digits_value(s),
    decreases s.len(),
{
    if n < s.len() {
        assert(s.drop_last().take(n) =~= s.take(n));
        lemma_digits_value_prefix(s.drop_last(), n);
    } else {
        assert(s.take(n) =~= s);
    }
}

/// Parses an unsigned decimal number the way `u64::from_str` does.
pub fn parse_u64(s: &str) -> (r: Option<u64>)
    ensures
        r == parse_u64_spec(s@),
{
    let v = chars_of(s);
    let start: usize = if v.len() > 0 && v[0] == '+' {
        1
    } else {
        0
    };
    let ghost d = unsigned_digits(s@);
    assert(d =~= v@.subrange(start as int, v@.len() as int));
    if start >= v.len() {
        return None;
    }
    let mut acc: u64 = 0;
    let mut i: usize = start;
    while i < v.len()
        invariant
            start <= i <= v@.len(),
            v@ == s@,
            d == unsigned_digits(s@),
            d =~= v@.subrange(start as int, v@.len() as int),
            forall|j: int| 0 <= j < i - start ==> is_digit(#[trigger] d[j]),
            acc as nat == digits_value(d.take(i - start)),
        decreases v.len() - i,
    {
        let c = v[i];
        let ghost j = i - start;
        assert(d[j] == c);
        if !('0' <= c && c <= '9') {
            assert(!is_digit(d[j]));
            return None;
        }
        let dig: u64 = (c as u32 - '0' as u32) as u64;
        assert(d.take(j + 1).drop_last() =~= d.take(j));
        assert(d.take(j + 1).last() == c);
        assert(digits_value(d.take(j + 1)) == digits_value(d.take(j)) * 10 + dig);
        if acc > (u64::MAX - dig) / 10 {
            proof {
                assert(acc * 10 + dig > u64::MAX) by (nonlinear_arith)
                    requires
                        acc > (u64::MAX - dig) / 10,
                        dig <= 9,
                ;
                lemma_digits_value_prefix(d, j + 1);
            }
            return None;
        }
        assert(acc * 10 + dig <= u64::MAX) by (nonlinear_arith)
            requires
                acc <= (u64::MAX - dig) / 10,
                dig <= 9,
        ;
        acc = acc * 10 + dig;
        i += 1;
    }
    assert(d.take(d.len() as int) =~= d);
    Some(acc)
}

/// Trimming the start leaves a suffix.
pub proof fn lemma_trim_start_suffix(s: Seq<char>, cls: CharClass)
    ensures
        trim_start_class(s, cls).len() <= s.len(),
        trim_start_class(s, cls) == s.subrange(s.len() - trim_start_class(s, cls).len(), s.len() as int),
        trim_start_class(s, cls).len() > 0 ==> !in_class(cls, trim_start_class(s, cls)[0]),
        forall|j: int| 0 <= j < s.len() - trim_start_class(s, cls).len() ==> in_class(cls, #[trigger] s[j]),
    decreases s.len(),
{
    if s.len() > 0 && in_class(cls, s[0]) {
        lemma_trim_start_suffix(s.drop_first(), cls);
        let r = trim_start_class(s.drop_first(), cls);
        assert(s.drop_first().subrange(s.len() - 1 - r.len(), s.len() - 1) =~= s.subrange(s.len() - r.len(), s.len() as int));
        assert forall|j: int| 0 <= j < s.len() - r.len() implies in_class(cls, #[trigger] s[j]) by {
            if j > 0 {
                assert(s[j] == s.drop_first()[j - 1]);
            }
        }
    } else {
        assert(s.subrange(0, s.len() as int) =~= s);
    }
}

/// Trimming the end leaves a prefix.
pub proof fn lemma_trim_end_prefix(s: Seq<char>, cls: CharClass)
    ensures
        trim_end_class(s, cls).len() <= s.len(),
        trim_end_class(s, cls) == s.subrange(0, trim_end_class(s, cls).len() as int),
        trim_end_class(s, cls).len() > 0 ==> !in_class(cls, trim_end_class(s, cls).last()),
        forall|j: int| trim_end_class(s, cls).len() <= j < s.len() ==> in_class(cls, #[trigger] s[j]),
    decreases s.len(),
{
    if s.len() > 0 && in_class(cls, s.last()) {
        lemma_trim_end_prefix(s.drop_last(), cls);
        let r = trim_end_class(s.drop_last(), cls);
        assert(s.drop_last().subrange(0, r.len() as int) =~= s.subrange(0, r.len() as int));
        assert forall|j: int| r.len() <= j < s.len() implies in_class(cls, #[trigger] s[j]) by {
            if j < s.len() - 1 {
                assert(s[j] == s.drop_last()[j]);
            }
        }
    } else {
        assert(s.subrange(0, s.len() as int) =~= s);
    }
}

proof fn lemma_trim_start_noop(s: Seq<char>, cls: CharClass)
    requires
        s.len() > 0 ==> !in_class(cls, s[0]),
    ensures
        trim_start_class(s, cls) == s,
{
}

proof fn lemma_trim_end_noop(s: Seq<char>, cls: CharClass)
    requires
        s.len() > 0 ==> !in_class(cls, s.last()),
    ensures
        trim_end_class(s, cls) == s,
{
}

/// Trimming twice trims nothing more.
pub proof fn lemma_trim_idempotent(s: Seq<char>, cls: CharClass)
    ensures
        trim_class(trim_class(s, cls), cls) == trim_class(s, cls),
{
    let a = trim_start_class(s, cls);
    lemma_trim_start_suffix(s, cls);
    let b = trim_end_class(a, cls);
    lemma_trim_end_prefix(a, cls);
    if b.len() > 0 {
        assert(b[0] == a[0]);
    }
    lemma_trim_start_noop(b, cls);
    lemma_trim_end_noop(b, cls);
}

/// A text with a character outside the class is not trimmed away.
pub proof fn lemma_trim_keeps(s: Seq<char>, cls: CharClass, i: int)
    requires
        0 <= i < s.len(),
        !in_class(cls, s[i]),
    ensures
        trim_class(s, cls).len() > 0,
{
    let a = trim_start_class(s, cls);
    lemma_trim_start_suffix(s, cls);
    let k = s.len() - a.len();
    assert(i >= k);
    assert(a[i - k] == s[i]);
    lemma_trim_end_prefix(a, cls);
    let b = trim_end_class(a, cls);
    assert(b.len() > i - k);
}

/// The pieces of the rest of a text between occurrences of `c`, `cur`
/// being the piece already read.
pub open spec fn split_from(s: Seq<char>, c: char, cur: Seq<char>) -> Seq<Seq<char>>
    decreases s.len(),
{
    if s.len() == 0 {
        seq![cur]
    } else if s[0] == c {
        seq![cur] + split_from(s.drop_first(), c, Seq::empty())
    } else {
        split_from(s.drop_first(), c, cur.push(s[0]))
    }
}

/// `str::split` on a character: the pieces between its occurrences,
/// empty ones included.
pub open spec fn split_spec(s: Seq<char>, c: char) -> Seq<Seq<char>> {
    split_from(s, c, Seq::empty())
}

/// Splits a text at every occurrence of `c`.
pub fn split_chars(s: &[char], c: char) -> (r: Vec<Vec<char>>)
    ensures
        r@.map_values(|p: Vec<char>| p@) == split_spec(s@, c),
{
    let mut out: Vec<Vec<char>> = Vec::new();
    let mut cur: Vec<char> = Vec::new();
    let mut i: usize = 0;
    assert(s@.subrange(0, s@.len() as int) =~= s@);
    assert(out@.map_values(|p: Vec<char>| p@) =~= Seq::<Seq<char>>::empty());
    while i < s.len()
        invariant
            0 <= i <= s@.len(),
            out@.map_values(|p: Vec<char>| p@) + split_from(s@.subrange(i as int, s@.len() as int), c, cur@)
                == split_spec(s@, c),
        decreases s.len() - i,
    {
        let ghost rest = s@.subrange(i as int, s@.len() as int);
        assert(rest.drop_first() =~= s@.subrange(i + 1, s@.len() as int));
        assert(rest[0] == s@[i as int]);
        if s[i] == c {
            let ghost before = out@.map_values(|p: Vec<char>| p@);
            let ghost cur_v = cur@;
            let piece = cur;
            out.push(piece);
            cur = Vec::new();
            assert(out@.map_values(|p: Vec<char>| p@) =~= before.push(cur_v));
            assert(before + split_from(rest, c, cur_v) =~= out@.map_values(|p: Vec<char>| p@)
                + split_from(rest.drop_first(), c, Seq::empty()));
        } else {
            cur.push(s[i]);
        }
        i += 1;
    }
    assert(s@.subrange(i as int, s@.len() as int).len() == 0);
    let ghost before = out@.map_values(|p: Vec<char>| p@);
    let ghost cur_v = cur@;
    out.push(cur);
    assert(out@.map_values(|p: Vec<char>| p@) =~= before + seq![cur_v]);
    out
}

} // verus!
