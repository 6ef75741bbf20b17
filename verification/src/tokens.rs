//! The mathematical model of whitespace tokenization: what counts as a
//! separator, and which tokens a buffer holds from a given position on.

use vstd::prelude::*;

verus! {

/// A separator: a character with the Unicode `White_Space` property, the
/// set `char::is_whitespace` recognizes.
pub open spec fn is_space(c: char) -> bool {
    ||| c == ' '
    ||| c == '\t'
    ||| c == '\n'
    ||| c == '\u{b}'
    ||| c == '\u{c}'
    ||| c == '\r'
    ||| c == '\u{85}'
    ||| c == '\u{a0}'
    ||| c == '\u{1680}'
    ||| ('\u{2000}' <= c && c <= '\u{200a}')
    ||| c == '\u{2028}'
    ||| c == '\u{2029}'
    ||| c == '\u{202f}'
    ||| c == '\u{205f}'
    ||| c == '\u{3000}'
}

/// Runtime test for `is_space`.
pub fn is_space_char(c: char) -> (r: bool)
    ensures
        r == is_space(c),
{
    c == ' ' || c == '\t' || c == '\n' || c == '\u{b}' || c == '\u{c}' || c == '\r'
        || c == '\u{85}' || c == '\u{a0}' || c == '\u{1680}'
        || ('\u{2000}' <= c && c <= '\u{200a}') || c == '\u{2028}' || c == '\u{2029}'
        || c == '\u{202f}' || c == '\u{205f}' || c == '\u{3000}'
}

/// The first position at or after `i` holding a non-separator, or `s.len()`.
pub open spec fn skip_ws(s: Seq<char>, i: int) -> int
    decreases s.len() - i when 0 <= i <= s.len()
{
    if i >= s.len() {
        i
    } else if is_space(s[i]) {
        skip_ws(s, i + 1)
    } else {
        i
    }
}

/// The first position at or after `i` holding a separator, or `s.len()`.
pub open spec fn token_end(s: Seq<char>, i: int) -> int
    decreases s.len() - i when 0 <= i <= s.len()
{
    if i >= s.len() {
        i
    } else if !is_space(s[i]) {
        token_end(s, i + 1)
    } else {
        i
    }
}

pub proof fn lemma_skip_ws(s: Seq<char>, i: int)
    requires
        0 <= i <= s.len(),
    ensures
        i <= skip_ws(s, i) <= s.len(),
        skip_ws(s, i) < s.len() ==> !is_space(s[skip_ws(s, i)]),
        forall|j: int| i <= j < skip_ws(s, i) ==> is_space(s[j]),
    decreases s.len() - i,
{
    if i < s.len() && is_space(s[i]) {
        lemma_skip_ws(s, i + 1);
    }
}

pub proof fn lemma_token_end(s: Seq<char>, i: int)
    requires
        0 <= i <= s.len(),
    ensures
        i <= token_end(s, i) <= s.len(),
        token_end(s, i) < s.len() ==> is_space(s[token_end(s, i)]),
        forall|j: int| i <= j < token_end(s, i) ==> !is_space(s[j]),
        i < s.len() && !is_space(s[i]) ==> token_end(s, i) > i,
    decreases s.len() - i,
{
    if i < s.len() && !is_space(s[i]) {
        lemma_token_end(s, i + 1);
    }
}

/// The whitespace-delimited tokens of `s` from position `i` on: each a
/// maximal run of non-separator characters, in order of appearance.
pub open spec fn tokens_from(s: Seq<char>, i: int) -> Seq<Seq<char>>
    decreases s.len() - i when 0 <= i <= s.len() via tokens_from_decreases
{
    let start = skip_ws(s, i);
    if start >= s.len() {
        Seq::empty()
    } else {
        seq![s.subrange(start, token_end(s, start))] + tokens_from(s, token_end(s, start))
    }
}

#[via_fn]
proof fn tokens_from_decreases(s: Seq<char>, i: int) {
    lemma_skip_ws(s, i);
    lemma_token_end(s, skip_ws(s, i));
}

/// Runtime search for `skip_ws`: the start of the next token, if any.
pub fn find_token_start(s: &str, from: usize) -> (r: usize)
    requires
        from <= s@.len(),
    ensures
        r == skip_ws(s@, from as int),
        from <= r <= s@.len(),
{
    let n = s.unicode_len();
    let mut i = from;
    loop
        invariant
            from <= i <= n,
            n == s@.len(),
            skip_ws(s@, from as int) == skip_ws(s@, i as int),
        decreases n - i,
    {
        if i >= n {
            return i;
        }
        let c = s.get_char(i);
        if !is_space_char(c) {
            return i;
        }
        i = i + 1;
    }
}

/// Runtime search for `token_end`: the end of the token starting at `from`.
pub fn find_token_end(s: &str, from: usize) -> (r: usize)
    requires
        from <= s@.len(),
    ensures
        r == token_end(s@, from as int),
        from <= r <= s@.len(),
{
    let n = s.unicode_len();
    let mut i = from;
    loop
        invariant
            from <= i <= n,
            n == s@.len(),
            token_end(s@, from as int) == token_end(s@, i as int),
        decreases n - i,
    {
        if i >= n {
            return i;
        }
        let c = s.get_char(i);
        if is_space_char(c) {
            return i;
        }
        i = i + 1;
    }
}

} // verus!
