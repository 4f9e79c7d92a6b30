//! Character-level helpers shared by the naming, format and catalog code:
//! ASCII case folding, decimal rendering and literal substring replacement,
//! each stated over the `Seq<char>` view of the strings involved.
use vstd::prelude::*;

verus! {

/// ASCII lower-casing of one character; every other character is unchanged.
pub open spec fn ascii_lower(c: char) -> char {
    if 'A' <= c && c <= 'Z' {
        ((c as u8) + 32) as char
    } else {
        c
    }
}

/// ASCII lower-casing of a whole string, character by character.
pub open spec fn ascii_lower_seq(s: Seq<char>) -> Seq<char> {
    s.map_values(|c: char| ascii_lower(c))
}

/// The decimal digit character for `d` (`d < 10`).
pub open spec fn digit_char(d: nat) -> char {
    ((d + 48) as u8) as char
}

/// The decimal rendering of `n`, without sign or leading zeros.
pub open spec fn decimal(n: nat) -> Seq<char>
    decreases n,
{
    if n < 10 {
        seq![digit_char(n)]
    } else {
        decimal(n / 10).push(digit_char(n % 10))
    }
}

/// Left-to-right, non-overlapping replacement of every occurrence of a
/// non-empty `pattern` in `s` by `replacement`.
pub open spec fn replace_all(s: Seq<char>, pattern: Seq<char>, replacement: Seq<char>) -> Seq<char>
    decreases s.len(),
{
    if pattern.len() == 0 || s.len() < pattern.len() {
        s
    } else if s.take(pattern.len() as int) == pattern {
        replacement + replace_all(s.skip(pattern.len() as int), pattern, replacement)
    } else {
        seq![s[0]] + replace_all(s.skip(1), pattern, replacement)
    }
}

/// Appends one character to a `String` (`String::push`).
#[verifier::external_body]
pub(crate) fn push_char(s: &mut String, c: char)
    ensures
        final(s)@ == old(s)@.push(c),
{
    s.push(c);
}

/// The characters of `s`, in order.
pub fn chars_of(s: &str) -> (out: Vec<char>)
    ensures
        out@ == s@,
{
    let mut out: Vec<char> = Vec::new();
    for c in it: s.chars()
        invariant
            it.seq() == s@,
            out@ == it.seq().take(it.index() as int),
    {
        out.push(c);
    }
    proof {
        assert(out@ =~= s@);
    }
    out
}

/// The characters of `s` with ASCII upper-case letters lowered.
pub fn ascii_lowercase_chars(s: &str) -> (out: Vec<char>)
    ensures
        out@ == ascii_lower_seq(s@),
{
    let mut out: Vec<char> = Vec::new();
    for c in it: s.chars()
        invariant
            it.seq() == s@,
            out@ == ascii_lower_seq(it.seq().take(it.index() as int)),
    {
        let lowered = if 'A' <= c && c <= 'Z' {
            ((c as u8) + 32) as char
        } else {
            c
        };
        proof {
            assert(ascii_lower_seq(it.seq().take(it.index() + 1)) =~= ascii_lower_seq(
                it.seq().take(it.index() as int),
            ).push(lowered));
        }
        out.push(lowered);
    }
    proof {
        assert(s@.take(s@.len() as int) =~= s@);
    }
    out
}

/// Builds a `String` whose characters are `chars`.
pub fn string_from_chars(chars: &[char]) -> (s: String)
    ensures
        s@ == chars@,
{
    let mut s = String::new();
    let mut i: usize = 0;
    while i < chars.len()
        invariant
            i <= chars@.len(),
            s@ == chars@.take(i as int),
        decreases chars@.len() - i,
    {
        push_char(&mut s, chars[i]);
        proof {
            assert(chars@.take(i + 1) =~= chars@.take(i as int).push(chars@[i as int]));
        }
        i = i + 1;
    }
    proof {
        assert(chars@.take(chars@.len() as int) =~= chars@);
    }
    s
}

/// Appends every character of `tail` to `s`.
pub fn push_chars(s: &mut String, tail: &[char])
    ensures
        final(s)@ == old(s)@ + tail@,
{
    let ghost start = s@;
    let mut i: usize = 0;
    while i < tail.len()
        invariant
            i <= tail@.len(),
            s@ == start + tail@.take(i as int),
        decreases tail@.len() - i,
    {
        push_char(s, tail[i]);
        proof {
            assert(tail@.take(i + 1) =~= tail@.take(i as int).push(tail@[i as int]));
            assert(start + tail@.take(i + 1) =~= (start + tail@.take(i as int)).push(
                tail@[i as int],
            ));
        }
        i = i + 1;
    }
    proof {
        assert(tail@.take(tail@.len() as int) =~= tail@);
    }
}

/// Whether two character sequences are equal.
pub fn chars_equal(a: &[char], b: &[char]) -> (same: bool)
    ensures
        same == (a@ == b@),
{
    if a.len() != b.len() {
        return false;
    }
    let mut i: usize = 0;
    while i < a.len()
        invariant
            a@.len() == b@.len(),
            i <= a@.len(),
            forall|j: int| 0 <= j < i ==> a@[j] == b@[j],
        decreases a@.len() - i,
    {
        if a[i] != b[i] {
            return false;
        }
        i = i + 1;
    }
    proof {
        assert(a@ =~= b@);
    }
    true
}

pub proof fn lemma_decimal_digits(n: nat)
    ensures
        decimal(n).len() >= 1,
        forall|i: int| 0 <= i < decimal(n).len() ==> '0' <= #[trigger] decimal(n)[i] <= '9',
    decreases n,
{
    if n >= 10 {
        lemma_decimal_digits(n / 10);
    }
}

/// Appends the decimal rendering of `n` (as `format!("{}", n)` writes it).
pub fn push_decimal(out: &mut Vec<char>, n: u32)
    ensures
        final(out)@ == old(out)@ + decimal(n as nat),
    decreases n,
{
    if n >= 10 {
        push_decimal(out, n / 10);
    }
    let d: u8 = (n % 10) as u8;
    let c: char = (d + 48) as char;
    out.push(c);
    proof {
        if n >= 10 {
            assert(decimal(n as nat) == decimal((n / 10) as nat).push(digit_char((n % 10) as nat)));
        }
    }
}

/// Whether `pattern` occurs in `s` starting at index `i`.
pub fn matches_at(s: &[char], i: usize, pattern: &[char]) -> (found: bool)
    requires
        i <= s@.len(),
    ensures
        found == (s@.len() - i >= pattern@.len() && s@.subrange(i as int, i + pattern@.len())
            == pattern@),
{
    if s.len() - i < pattern.len() {
        return false;
    }
    let mut k: usize = 0;
    while k < pattern.len()
        invariant
            i <= s@.len(),
            s@.len() == s.len(),
            s@.len() - i >= pattern@.len(),
            k <= pattern@.len(),
            forall|j: int| 0 <= j < k ==> s@[i + j] == pattern@[j],
        decreases pattern@.len() - k,
    {
        if s[i + k] != pattern[k] {
            proof {
                assert(s@.subrange(i as int, i + pattern@.len())[k as int] != pattern@[k as int]);
            }
            return false;
        }
        k = k + 1;
    }
    proof {
        assert(s@.subrange(i as int, i + pattern@.len()) =~= pattern@);
    }
    true
}

/// Replaces, left to right and without overlap, every occurrence of the
/// non-empty `pattern` in `s` by `replacement` (as `str::replace` does).
pub fn replace_all_chars(s: &[char], pattern: &[char], replacement: &[char]) -> (out: Vec<char>)
    requires
        pattern@.len() > 0,
    ensures
        out@ == replace_all(s@, pattern@, replacement@),
{
    let mut out: Vec<char> = Vec::new();
    let mut i: usize = 0;
    proof {
        assert(s@.skip(0) =~= s@);
    }
    while i < s.len()
        invariant
            pattern@.len() > 0,
            i <= s@.len(),
            replace_all(s@, pattern@, replacement@) == out@ + replace_all(
                s@.skip(i as int),
                pattern@,
                replacement@,
            ),
        decreases s@.len() - i,
    {
        let ghost rest = s@.skip(i as int);
        let matched = matches_at(s, i, pattern);
        if matched {
            proof {
                assert(rest.take(pattern@.len() as int) =~= s@.subrange(
                    i as int,
                    i + pattern@.len(),
                ));
                assert(rest.skip(pattern@.len() as int) =~= s@.skip(i + pattern@.len()));
            }
            let mut r: usize = 0;
            let ghost before = out@;
            while r < replacement.len()
                invariant
                    r <= replacement@.len(),
                    out@ == before + replacement@.take(r as int),
                decreases replacement@.len() - r,
            {
                out.push(replacement[r]);
                proof {
                    assert(replacement@.take(r + 1) =~= replacement@.take(r as int).push(
                        replacement@[r as int],
                    ));
                }
                r = r + 1;
            }
            proof {
                assert(replacement@.take(replacement@.len() as int) =~= replacement@);
                assert(before + (replacement@ + replace_all(
                    s@.skip(i + pattern@.len()),
                    pattern@,
                    replacement@,
                )) =~= out@ + replace_all(s@.skip(i + pattern@.len()), pattern@, replacement@));
            }
            i = i + pattern.len();
        } else {
            proof {
                if rest.len() >= pattern@.len() {
                    assert(rest.take(pattern@.len() as int) =~= s@.subrange(
                        i as int,
                        i + pattern@.len(),
                    ));
                }
                assert(rest.skip(1) =~= s@.skip(i + 1));
                assert(out@ + (seq![s@[i as int]] + replace_all(
                    s@.skip(i + 1),
                    pattern@,
                    replacement@,
                )) =~= out@.push(s@[i as int]) + replace_all(
                    s@.skip(i + 1),
                    pattern@,
                    replacement@,
                ));
            }
            out.push(s[i]);
            i = i + 1;
        }
    }
    proof {
        assert(s@.skip(i as int).len() == 0);
        assert(out@ + s@.skip(i as int) =~= out@);
    }
    out
}

} // verus!
