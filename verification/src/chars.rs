use vstd::prelude::*;

verus! {

/// Whitespace for this format: the ASCII blank characters. Tokenization is
/// whitespace-delimited and not otherwise Unicode-aware.
pub open spec fn is_whitespace(c: char) -> bool {
    c == ' ' || c == '\t' || c == '\n' || c == '\r'
}

/// A character that may appear in a key or value of a `key:value` tag:
/// anything but whitespace and the separating colon.
pub open spec fn is_key_char(c: char) -> bool {
    !is_whitespace(c) && c != ':'
}

/// A decimal digit.
pub open spec fn is_digit(c: char) -> bool {
    '0' <= c && c <= '9'
}

/// The numeric value of a decimal digit.
pub open spec fn digit_value(c: char) -> int {
    c as u32 - '0' as u32
}

/// Length of the run of non-whitespace characters of `s` that starts at `i`.
pub open spec fn nonspace_run(s: Seq<char>, i: int) -> int
    decreases s.len() - i,
{
    if i < 0 || i >= s.len() || is_whitespace(s[i]) {
        0
    } else {
        1 + nonspace_run(s, i + 1)
    }
}

/// Length of the run of key characters of `s` that starts at `i`.
pub open spec fn key_run(s: Seq<char>, i: int) -> int
    decreases s.len() - i,
{
    if i < 0 || i >= s.len() || !is_key_char(s[i]) {
        0
    } else {
        1 + key_run(s, i + 1)
    }
}

/// The non-whitespace run starting at `i` stays inside `s`, consists of
/// non-whitespace characters, and is maximal.
pub proof fn lemma_nonspace_run(s: Seq<char>, i: int)
    requires
        0 <= i <= s.len(),
    ensures
        0 <= nonspace_run(s, i),
        i + nonspace_run(s, i) <= s.len(),
        forall|j: int| i <= j < i + nonspace_run(s, i) ==> !is_whitespace(s[j]),
        i + nonspace_run(s, i) == s.len() || is_whitespace(s[i + nonspace_run(s, i)]),
    decreases s.len() - i,
{
    if i < s.len() && !is_whitespace(s[i]) {
        lemma_nonspace_run(s, i + 1);
    }
}

/// The key-character run starting at `i` stays inside `s`, consists of key
/// characters, and is maximal.
pub proof fn lemma_key_run(s: Seq<char>, i: int)
    requires
        0 <= i <= s.len(),
    ensures
        0 <= key_run(s, i),
        i + key_run(s, i) <= s.len(),
        forall|j: int| i <= j < i + key_run(s, i) ==> is_key_char(s[j]),
        i + key_run(s, i) == s.len() || !is_key_char(s[i + key_run(s, i)]),
    decreases s.len() - i,
{
    if i < s.len() && is_key_char(s[i]) {
        lemma_key_run(s, i + 1);
    }
}

/// Relies on `String::push`, which std documents as appending the given
/// character to the end of the string.
pub assume_specification[ String::push ](s: &mut String, c: char)
    ensures
        final(s)@ == old(s)@.push(c),
;

/// Decides `is_whitespace`.
pub fn whitespace(c: char) -> (r: bool)
    ensures
        r == is_whitespace(c),
{
    c == ' ' || c == '\t' || c == '\n' || c == '\r'
}

/// Decides `is_key_char`.
pub fn key_char(c: char) -> (r: bool)
    ensures
        r == is_key_char(c),
{
    !whitespace(c) && c != ':'
}

/// Decides `is_digit`.
pub fn digit(c: char) -> (r: bool)
    ensures
        r == is_digit(c),
{
    '0' <= c && c <= '9'
}

/// The digit's numeric value.
pub fn digit_u32(c: char) -> (r: u32)
    requires
        is_digit(c),
    ensures
        r == digit_value(c),
{
    c as u32 - 48
}

/// Measures the non-whitespace run of `s` that starts at `i`.
pub fn scan_nonspace_run(s: &str, i: usize, n: usize) -> (r: usize)
    requires
        n == s@.len(),
        i <= n,
    ensures
        r == nonspace_run(s@, i as int),
        i + r <= n,
{
    let mut j: usize = i;
    while j < n && !whitespace(s.get_char(j))
        invariant
            n == s@.len(),
            i <= j <= n,
            nonspace_run(s@, i as int) == j - i + nonspace_run(s@, j as int),
        decreases n - j,
    {
        j = j + 1;
    }
    j - i
}

/// Measures the key-character run of `s` that starts at `i`.
pub fn scan_key_run(s: &str, i: usize, n: usize) -> (r: usize)
    requires
        n == s@.len(),
        i <= n,
    ensures
        r == key_run(s@, i as int),
        i + r <= n,
{
    let mut j: usize = i;
    while j < n && key_char(s.get_char(j))
        invariant
            n == s@.len(),
            i <= j <= n,
            key_run(s@, i as int) == j - i + key_run(s@, j as int),
        decreases n - j,
    {
        j = j + 1;
    }
    j - i
}

} // verus!
