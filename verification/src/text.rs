use vstd::prelude::*;

verus! {

/// Appends `c` to `s` with `String::push`. Claimed: the characters of `s`
/// gain `c` at the end.
#[verifier::external_body]
pub(crate) fn push_char(s: &mut String, c: char)
    ensures
        final(s)@ == old(s)@.push(c),
{
    s.push(c);
}

/// The character of a decimal digit.
pub open spec fn digit_char(d: int) -> char {
    (48 + d) as char
}

/// The decimal representation of `n`, without sign or leading zeros.
pub open spec fn decimal_digits(n: nat) -> Seq<char>
    decreases n,
{
    if n < 10 {
        seq![digit_char(n as int)]
    } else {
        decimal_digits(n / 10).push(digit_char((n % 10) as int))
    }
}

/// Appends the decimal representation of `n` to `s`.
pub fn push_decimal(s: &mut String, n: u64)
    ensures
        final(s)@ == old(s)@ + decimal_digits(n as nat),
    decreases n,
{
    if n >= 10 {
        push_decimal(s, n / 10);
    }
    let d = (n % 10) as u8;
    push_char(s, (48 + d) as char);
    proof {
        if n >= 10 {
            assert(old(s)@ + decimal_digits(n as nat) =~= old(s)@ + decimal_digits((n / 10) as nat)
                + seq![digit_char((n % 10) as int)]);
        } else {
            assert(old(s)@ + decimal_digits(n as nat) =~= old(s)@ + seq![digit_char(n as int)]);
        }
    }
}

/// Appends the characters of `t` to `s`.
pub fn push_str(s: &mut String, t: &str)
    ensures
        final(s)@ == old(s)@ + t@,
{
    s.append(t);
}

/// A string holding `a` followed by `b`.
pub fn concat2(a: &str, b: &str) -> (s: String)
    ensures
        s@ == a@ + b@,
{
    let mut s = String::from_str(a);
    s.append(b);
    s
}

/// The ASCII lower-case form of a character; other characters are unchanged.
pub open spec fn ascii_lower(c: char) -> char {
    if 'A' <= c && c <= 'Z' {
        ((c as u32) + 32) as char
    } else {
        c
    }
}

/// The ASCII lower-case form of every character of `s`.
pub open spec fn ascii_lower_seq(s: Seq<char>) -> Seq<char> {
    s.map_values(|c: char| ascii_lower(c))
}

/// The characters that `char::is_whitespace` accepts: the Unicode
/// `White_Space` property.
pub open spec fn is_unicode_whitespace(c: char) -> bool {
    ||| ('\u{9}' <= c && c <= '\u{d}')
    ||| c == ' '
    ||| c == '\u{85}'
    ||| c == '\u{a0}'
    ||| c == '\u{1680}'
    ||| ('\u{2000}' <= c && c <= '\u{200a}')
    ||| c == '\u{2028}'
    ||| c == '\u{2029}'
    ||| c == '\u{202f}'
    ||| c == '\u{205f}'
    ||| c == '\u{3000}'
}

/// Tells whether `c` has the Unicode `White_Space` property.
pub fn char_is_whitespace(c: char) -> (r: bool)
    ensures
        r == is_unicode_whitespace(c),
{
    ('\u{9}' <= c && c <= '\u{d}') || c == ' ' || c == '\u{85}' || c == '\u{a0}' || c
        == '\u{1680}' || ('\u{2000}' <= c && c <= '\u{200a}') || c == '\u{2028}' || c
        == '\u{2029}' || c == '\u{202f}' || c == '\u{205f}' || c == '\u{3000}'
}

/// Index of the first character of `s` that is not whitespace (`s.len()` when all are).
pub open spec fn trim_start_index(s: Seq<char>, k: int) -> int
    decreases s.len() - k,
{
    if 0 <= k < s.len() && is_unicode_whitespace(s[k]) {
        trim_start_index(s, k + 1)
    } else {
        k
    }
}

/// One past the last character of `s[..k]` that is not whitespace (0 when all are).
pub open spec fn trim_end_index(s: Seq<char>, k: int) -> int
    decreases k,
{
    if 0 < k <= s.len() && is_unicode_whitespace(s[k - 1]) {
        trim_end_index(s, k - 1)
    } else {
        k
    }
}

/// `s` without leading and trailing whitespace, as `str::trim` gives it.
pub open spec fn trimmed(s: Seq<char>) -> Seq<char> {
    let start = trim_start_index(s, 0);
    let end = trim_end_index(s, s.len() as int);
    if start >= end {
        seq![]
    } else {
        s.subrange(start, end)
    }
}

proof fn lemma_trim_bounds(s: Seq<char>, k: int)
    requires
        0 <= k <= s.len(),
    ensures
        k <= trim_start_index(s, k) <= s.len(),
        0 <= trim_end_index(s, k) <= k,
    decreases s.len() - k,
{
    if k < s.len() && is_unicode_whitespace(s[k]) {
        lemma_trim_bounds(s, k + 1);
    }
    lemma_trim_end_bounds(s, k);
}

proof fn lemma_trim_end_bounds(s: Seq<char>, k: int)
    requires
        0 <= k <= s.len(),
    ensures
        0 <= trim_end_index(s, k) <= k,
    decreases k,
{
    if 0 < k && is_unicode_whitespace(s[k - 1]) {
        lemma_trim_end_bounds(s, k - 1);
    }
}

/// Trimming keeps a part of the string, and keeps all of it exactly when the
/// lengths agree.
pub proof fn lemma_trimmed_len(s: Seq<char>)
    ensures
        trimmed(s).len() <= s.len(),
        trimmed(s).len() == s.len() ==> trimmed(s) == s,
{
    lemma_trim_bounds(s, 0);
    lemma_trim_end_bounds(s, s.len() as int);
    let start = trim_start_index(s, 0);
    let end = trim_end_index(s, s.len() as int);
    if start < end && end - start == s.len() {
        assert(s.subrange(start, end) =~= s);
    }
}

/// The string `s` with leading and trailing whitespace removed, as characters.
pub fn trim_chars(s: &str) -> (r: Vec<char>)
    ensures
        r@ == trimmed(s@),
{
    let n = s.unicode_len();
    let mut start: usize = 0;
    while start < n && char_is_whitespace(s.get_char(start))
        invariant
            n == s@.len(),
            start <= n,
            trim_start_index(s@, start as int) == trim_start_index(s@, 0),
        decreases n - start,
    {
        start += 1;
    }
    let mut end: usize = n;
    while end > 0 && char_is_whitespace(s.get_char(end - 1))
        invariant
            n == s@.len(),
            end <= n,
            trim_end_index(s@, end as int) == trim_end_index(s@, n as int),
        decreases end,
    {
        end -= 1;
    }
    let mut r: Vec<char> = Vec::new();
    if start < end {
        let mut i = start;
        while i < end
            invariant
                n == s@.len(),
                start <= i <= end <= n,
                r@ == s@.subrange(start as int, i as int),
            decreases end - i,
        {
            r.push(s.get_char(i));
            i += 1;
            assert(r@ =~= s@.subrange(start as int, i as int));
        }
    }
    r
}

/// `chars` equals the ASCII letters `word` once upper-case ASCII letters are
/// lowered.
pub fn ascii_lower_equals(chars: &[char], word: &str) -> (r: bool)
    ensures
        r == (ascii_lower_seq(chars@) == word@),
{
    let n = word.unicode_len();
    if chars.len() != n {
        assert(ascii_lower_seq(chars@).len() != word@.len());
        return false;
    }
    let mut i: usize = 0;
    while i < n
        invariant
            n == word@.len(),
            chars@.len() == n,
            i <= n,
            forall|j: int| 0 <= j < i ==> ascii_lower(#[trigger] chars@[j]) == word@[j],
        decreases n - i,
    {
        let c = chars[i];
        let lower = if 'A' <= c && c <= 'Z' {
            char_from_ascii_code(c as u32 + 32)
        } else {
            c
        };
        if lower != word.get_char(i) {
            assert(ascii_lower_seq(chars@)[i as int] != word@[i as int]);
            return false;
        }
        i += 1;
    }
    assert(ascii_lower_seq(chars@) =~= word@);
    true
}

/// The character with an ASCII code point.
fn char_from_ascii_code(code: u32) -> (c: char)
    requires
        code < 128,
    ensures
        c == code as char,
{
    (code as u8) as char
}

} // verus!
