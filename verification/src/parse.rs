//! The self-parsing capability: a type that can convert one token's text
//! into a value of itself, or signal failure, together with implementations
//! for the common scalar and text types.

use vstd::prelude::*;

verus! {

/// A type that can parse itself from a token's text. `spec_parse` is the
/// mathematical statement of what a token parses to; `parse_token` is the
/// runtime parser, pinned to it exactly.
pub trait FromToken: View + Sized {
    /// What the given text parses to, if anything.
    spec fn spec_parse(s: Seq<char>) -> Option<Self::V>;

    /// Parse one token's text; `None` exactly when `spec_parse` is `None`.
    fn parse_token(s: &str) -> (r: Option<Self>)
        ensures
            r is Some <==> Self::spec_parse(s@) is Some,
            r matches Some(v) ==> Self::spec_parse(s@) == Some(v@),
    ;
}

/// A decimal digit.
pub open spec fn is_digit(c: char) -> bool {
    48 <= c as u32 && c as u32 <= 57
}

/// The numeric value of a decimal digit.
pub open spec fn digit_value(c: char) -> int {
    c as u32 - 48
}

pub open spec fn all_digits(s: Seq<char>) -> bool {
    forall|i: int| 0 <= i < s.len() ==> is_digit(#[trigger] s[i])
}

/// The number a run of decimal digits denotes, most significant first.
pub open spec fn digits_value(s: Seq<char>) -> int
    decreases s.len(),
{
    if s.len() == 0 {
        0
    } else {
        digits_value(s.drop_last()) * 10 + digit_value(s.last())
    }
}

pub proof fn lemma_digits_value_nonneg(s: Seq<char>)
    requires
        all_digits(s),
    ensures
        digits_value(s) >= 0,
    decreases s.len(),
{
    if s.len() > 0 {
        assert(all_digits(s.drop_last()));
        lemma_digits_value_nonneg(s.drop_last());
    }
}

/// A digit string is worth at least any of its prefixes.
pub proof fn lemma_digits_value_prefix(s: Seq<char>, i: int)
    requires
        all_digits(s),
        0 <= i <= s.len(),
    ensures
        digits_value(s.subrange(0, i)) <= digits_value(s),
    decreases s.len() - i,
{
    if i < s.len() {
        assert(s.subrange(0, i + 1).drop_last() =~= s.subrange(0, i));
        assert(s.subrange(0, i + 1).last() == s[i]);
        assert(all_digits(s.subrange(0, i)));
        lemma_digits_value_nonneg(s.subrange(0, i));
        lemma_digits_value_prefix(s, i + 1);
    } else {
        assert(s.subrange(0, i) =~= s);
    }
}

/// Parse the characters of `s` from `from` on as a run of decimal digits.
/// `None` when no character is left, when one is not a digit, or when the
/// value does not fit in a `u64`.
fn parse_digits(s: &str, from: usize) -> (r: Option<u64>)
    requires
        from <= s@.len(),
    ensures
        ({
            let d = s@.skip(from as int);
            match r {
                Some(v) => d.len() > 0 && all_digits(d) && digits_value(d) == v,
                None => d.len() == 0 || !all_digits(d) || digits_value(d) > u64::MAX,
            }
        }),
{
    let ghost d = s@.skip(from as int);
    let n = s.unicode_len();
    if from >= n {
        return None;
    }
    let mut acc: u64 = 0;
    let mut i = from;
    while i < n
        invariant
            from <= i <= n,
            from < n,
            n == s@.len(),
            d == s@.skip(from as int),
            all_digits(d.take(i - from)),
            acc == digits_value(d.take(i - from)),
        decreases n - i,
    {
        let c = s.get_char(i);
        let u: u32 = c as u32;
        proof {
            assert(d[i - from] == s@[i as int]);
        }
        if u < 48 || u > 57 {
            proof {
                assert(!is_digit(d[i - from]));
                assert(!all_digits(d));
            }
            return None;
        }
        let dv: u64 = (u - 48) as u64;
        proof {
            assert(d.take(i - from + 1).drop_last() =~= d.take(i - from));
            assert(d.take(i - from + 1).last() == d[i - from]);
            assert(digits_value(d.take(i - from + 1)) == acc * 10 + dv);
        }
        if acc > u64::MAX / 10 || (acc == u64::MAX / 10 && dv > u64::MAX % 10) {
            proof {
                assert(digits_value(d.take(i - from + 1)) > u64::MAX);
                if all_digits(d) {
                    lemma_digits_value_prefix(d, i - from + 1);
                }
            }
            return None;
        }
        acc = acc * 10 + dv;
        i = i + 1;
    }
    proof {
        assert(d.take(i - from) =~= d);
    }
    Some(acc)
}

/// The digits of an unsigned decimal token, past an optional leading `+`.
pub open spec fn unsigned_digits(s: Seq<char>) -> Seq<char> {
    if s.len() > 0 && s[0] == '+' {
        s.drop_first()
    } else {
        s
    }
}

/// The number an unsigned decimal token denotes: an optional `+`, then at
/// least one digit and nothing else.
pub open spec fn unsigned_value(s: Seq<char>) -> Option<int> {
    let d = unsigned_digits(s);
    if d.len() > 0 && all_digits(d) {
        Some(digits_value(d))
    } else {
        None
    }
}

/// The number a signed decimal token denotes: an optional `+` or `-`, then
/// at least one digit and nothing else.
pub open spec fn signed_value(s: Seq<char>) -> Option<int> {
    if s.len() > 0 && s[0] == '-' {
        let d = s.drop_first();
        if d.len() > 0 && all_digits(d) {
            Some(-digits_value(d))
        } else {
            None
        }
    } else {
        unsigned_value(s)
    }
}

/// Parse a whole token as an unsigned decimal number no greater than `max`.
fn parse_unsigned(s: &str, max: u64) -> (r: Option<u64>)
    ensures
        match r {
            Some(v) => unsigned_value(s@) == Some(v as int) && v <= max,
            None => unsigned_value(s@) is None || unsigned_value(s@).unwrap() > max,
        },
{
    let n = s.unicode_len();
    if n == 0 {
        return None;
    }
    let c = s.get_char(0);
    let start: usize = if c == '+' {
        1
    } else {
        0
    };
    proof {
        assert(s@.skip(start as int) =~= unsigned_digits(s@));
    }
    match parse_digits(s, start) {
        None => None,
        Some(v) => if v <= max {
            Some(v)
        } else {
            None
        },
    }
}

/// Parse a whole token as a signed decimal number that fits in an `i64`.
fn parse_i64_token(s: &str) -> (r: Option<i64>)
    ensures
        match r {
            Some(v) => signed_value(s@) == Some(v as int),
            None => signed_value(s@) is None || signed_value(s@).unwrap() > i64::MAX
                || signed_value(s@).unwrap() < i64::MIN,
        },
{
    let n = s.unicode_len();
    if n == 0 {
        return None;
    }
    let c = s.get_char(0);
    if c == '-' {
        proof {
            assert(s@.skip(1) =~= s@.drop_first());
        }
        match parse_digits(s, 1) {
            None => None,
            Some(m) => if m <= i64::MAX as u64 {
                Some(-(m as i64))
            } else if m == 9223372036854775808u64 {
                Some(i64::MIN)
            } else {
                None
            },
        }
    } else {
        match parse_unsigned(s, i64::MAX as u64) {
            None => None,
            Some(v) => Some(v as i64),
        }
    }
}

impl FromToken for u64 {
    open spec fn spec_parse(s: Seq<char>) -> Option<u64> {
        match unsigned_value(s) {
            Some(v) => if v <= u64::MAX {
                Some(v as u64)
            } else {
                None
            },
            None => None,
        }
    }

    fn parse_token(s: &str) -> (r: Option<u64>) {
        parse_unsigned(s, u64::MAX)
    }
}

impl FromToken for u32 {
    open spec fn spec_parse(s: Seq<char>) -> Option<u32> {
        match unsigned_value(s) {
            Some(v) => if v <= u32::MAX {
                Some(v as u32)
            } else {
                None
            },
            None => None,
        }
    }

    fn parse_token(s: &str) -> (r: Option<u32>) {
        match parse_unsigned(s, u32::MAX as u64) {
            None => None,
            Some(v) => Some(v as u32),
        }
    }
}

impl FromToken for u8 {
    open spec fn spec_parse(s: Seq<char>) -> Option<u8> {
        match unsigned_value(s) {
            Some(v) => if v <= u8::MAX {
                Some(v as u8)
            } else {
                None
            },
            None => None,
        }
    }

    fn parse_token(s: &str) -> (r: Option<u8>) {
        match parse_unsigned(s, u8::MAX as u64) {
            None => None,
            Some(v) => Some(v as u8),
        }
    }
}

impl FromToken for u16 {
    open spec fn spec_parse(s: Seq<char>) -> Option<u16> {
        match unsigned_value(s) {
            Some(v) => if v <= u16::MAX {
                Some(v as u16)
            } else {
                None
            },
            None => None,
        }
    }

    fn parse_token(s: &str) -> (r: Option<u16>) {
        match parse_unsigned(s, u16::MAX as u64) {
            None => None,
            Some(v) => Some(v as u16),
        }
    }
}

impl FromToken for usize {
    open spec fn spec_parse(s: Seq<char>) -> Option<usize> {
        match unsigned_value(s) {
            Some(v) => if v <= usize::MAX {
                Some(v as usize)
            } else {
                None
            },
            None => None,
        }
    }

    fn parse_token(s: &str) -> (r: Option<usize>) {
        match parse_unsigned(s, usize::MAX as u64) {
            None => None,
            Some(v) => Some(v as usize),
        }
    }
}

impl FromToken for i64 {
    open spec fn spec_parse(s: Seq<char>) -> Option<i64> {
        match signed_value(s) {
            Some(v) => if i64::MIN <= v && v <= i64::MAX {
                Some(v as i64)
            } else {
                None
            },
            None => None,
        }
    }

    fn parse_token(s: &str) -> (r: Option<i64>) {
        parse_i64_token(s)
    }
}

impl FromToken for i32 {
    open spec fn spec_parse(s: Seq<char>) -> Option<i32> {
        match signed_value(s) {
            Some(v) => if i32::MIN <= v && v <= i32::MAX {
                Some(v as i32)
            } else {
                None
            },
            None => None,
        }
    }

    fn parse_token(s: &str) -> (r: Option<i32>) {
        match parse_i64_token(s) {
            None => None,
            Some(v) => if i32::MIN as i64 <= v && v <= i32::MAX as i64 {
                Some(v as i32)
            } else {
                None
            },
        }
    }
}

impl FromToken for i16 {
    open spec fn spec_parse(s: Seq<char>) -> Option<i16> {
        match signed_value(s) {
            Some(v) => if i16::MIN <= v && v <= i16::MAX {
                Some(v as i16)
            } else {
                None
            },
            None => None,
        }
    }

    fn parse_token(s: &str) -> (r: Option<i16>) {
        match parse_i64_token(s) {
            None => None,
            Some(v) => if i16::MIN as i64 <= v && v <= i16::MAX as i64 {
                Some(v as i16)
            } else {
                None
            },
        }
    }
}

impl FromToken for i8 {
    open spec fn spec_parse(s: Seq<char>) -> Option<i8> {
        match signed_value(s) {
            Some(v) => if i8::MIN <= v && v <= i8::MAX {
                Some(v as i8)
            } else {
                None
            },
            None => None,
        }
    }

    fn parse_token(s: &str) -> (r: Option<i8>) {
        match parse_i64_token(s) {
            None => None,
            Some(v) => if i8::MIN as i64 <= v && v <= i8::MAX as i64 {
                Some(v as i8)
            } else {
                None
            },
        }
    }
}

impl FromToken for isize {
    open spec fn spec_parse(s: Seq<char>) -> Option<isize> {
        match signed_value(s) {
            Some(v) => if isize::MIN <= v && v <= isize::MAX {
                Some(v as isize)
            } else {
                None
            },
            None => None,
        }
    }

    fn parse_token(s: &str) -> (r: Option<isize>) {
        match parse_i64_token(s) {
            None => None,
            Some(v) => if isize::MIN as i64 <= v && v <= isize::MAX as i64 {
                Some(v as isize)
            } else {
                None
            },
        }
    }
}

impl FromToken for char {
    open spec fn spec_parse(s: Seq<char>) -> Option<char> {
        if s.len() == 1 {
            Some(s[0])
        } else {
            None
        }
    }

    fn parse_token(s: &str) -> (r: Option<char>) {
        let n = s.unicode_len();
        if n == 1 {
            Some(s.get_char(0))
        } else {
            None
        }
    }
}

impl FromToken for bool {
    open spec fn spec_parse(s: Seq<char>) -> Option<bool> {
        if s == seq!['t', 'r', 'u', 'e'] {
            Some(true)
        } else if s == seq!['f', 'a', 'l', 's', 'e'] {
            Some(false)
        } else {
            None
        }
    }

    fn parse_token(s: &str) -> (r: Option<bool>) {
        let n = s.unicode_len();
        if n == 4 && s.get_char(0) == 't' && s.get_char(1) == 'r' && s.get_char(2) == 'u'
            && s.get_char(3) == 'e' {
            proof {
                assert(s@ =~= seq!['t', 'r', 'u', 'e']);
            }
            Some(true)
        } else if n == 5 && s.get_char(0) == 'f' && s.get_char(1) == 'a' && s.get_char(2) == 'l'
            && s.get_char(3) == 's' && s.get_char(4) == 'e' {
            proof {
                assert(s@ =~= seq!['f', 'a', 'l', 's', 'e']);
            }
            Some(false)
        } else {
            proof {
                assert(s@ != seq!['t', 'r', 'u', 'e']);
                assert(s@ != seq!['f', 'a', 'l', 's', 'e']);
            }
            None
        }
    }
}

impl FromToken for String {
    open spec fn spec_parse(s: Seq<char>) -> Option<Seq<char>> {
        Some(s)
    }

    fn parse_token(s: &str) -> (r: Option<String>) {
        Some(s.to_owned())
    }
}

/// Any token parses as plain text. So a text read asks no more of the
/// reader than that a token be left, and each read consumes exactly one: a
/// buffer of `k` tokens supports exactly `k` text reads before exhaustion.
pub proof fn lemma_text_always_parses(s: Seq<char>)
    ensures
        <String as FromToken>::spec_parse(s) is Some,
{
}

/// Round trip: the results the contracts of a plain read and of an optional
/// read of one token allow. Whenever the token parses, the optional read
/// returns exactly the value the plain read returns; since the optional
/// read's result is absent exactly when the token does not parse, it never
/// fails where a plain read could not.
pub proof fn lemma_read_option_round_trip<T: FromToken>(
    t: Seq<char>,
    plain: T::V,
    optional: Option<T::V>,
)
    requires
        Some(plain) == T::spec_parse(t),
        optional is Some <==> T::spec_parse(t) is Some,
        optional matches Some(v) ==> T::spec_parse(t) == Some(v),
    ensures
        optional == Some(plain),
{
}

} // verus!
