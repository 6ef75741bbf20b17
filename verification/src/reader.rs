//! The cursor-based scanner and the typed extraction built on it.

use vstd::prelude::*;

use crate::parse::FromToken;
use crate::tokens::find_token_end;
use crate::tokens::find_token_start;
use crate::tokens::lemma_skip_ws;
use crate::tokens::lemma_token_end;
use crate::tokens::tokens_from;

verus! {

/// `result` holds, in order, the parses of the first `n` tokens of `pre`,
/// and `post` is what is left of `pre` past them. Reading a fixed-size
/// sequence and reading a variable-length one promise exactly this, the
/// same thing.
pub open spec fn reads_prefix<T: FromToken>(
    pre: Seq<Seq<char>>,
    n: int,
    result: Seq<T>,
    post: Seq<Seq<char>>,
) -> bool {
    &&& result.len() == n
    &&& post == pre.skip(n)
    &&& forall|i: int| 0 <= i < n ==> Some((#[trigger] result[i])@) == T::spec_parse(pre[i])
}

/// Reading zero tokens yields an empty sequence and consumes nothing: what
/// `read_vec` promises for `n == 0` leaves the reader exactly as it was.
pub proof fn lemma_reads_prefix_zero<T: FromToken>(
    pre: Seq<Seq<char>>,
    result: Seq<T>,
    post: Seq<Seq<char>>,
)
    requires
        reads_prefix::<T>(pre, 0, result, post),
    ensures
        result == Seq::<T>::empty(),
        post == pre,
{
    assert(result =~= Seq::<T>::empty());
    assert(post =~= pre);
}

/// Relies on the std conversion `TryFrom<Vec<T>> for [T; N]`: it succeeds
/// exactly when the vector's length is `N`, keeping the elements in order.
#[verifier::external_body]
fn into_array<T, const N: usize>(v: Vec<T>) -> (r: [T; N])
    requires
        v@.len() == N,
    ensures
        r@ == v@,
{
    v.try_into().ok().unwrap()
}

/// A reader over a borrowed text buffer. It owns only a cursor: tokens are
/// handed out as zero-copy slices of the buffer. The buffer is never
/// mutated, and the cursor never moves backwards.
pub struct InputReader<'a> {
    input: &'a str,
    counter: usize,
}

impl<'a> InputReader<'a> {
    /// The buffer being scanned.
    pub closed spec fn buffer(self) -> Seq<char> {
        self.input@
    }

    /// The cursor: the position of the next unscanned character.
    pub closed spec fn cursor(self) -> int {
        self.counter as int
    }

    /// The cursor never runs past the end of the buffer.
    pub open spec fn wf(self) -> bool {
        self.cursor() <= self.buffer().len()
    }

    /// The tokens not yet consumed, in the order they stand in the buffer.
    pub open spec fn remaining(self) -> Seq<Seq<char>> {
        tokens_from(self.buffer(), self.cursor())
    }

    /// A reader over `input`, with the cursor at the start.
    pub fn new(input: &'a str) -> (r: Self)
        ensures
            r.wf(),
            r.buffer() == input@,
            r.cursor() == 0,
            r.remaining() == tokens_from(input@, 0),
    {
        InputReader { input, counter: 0 }
    }

    /// Return the next token as a slice of the buffer and advance the cursor
    /// past it. Asking for a token of an exhausted reader is a caller error,
    /// ruled out by the precondition.
    pub fn advance_slice(&mut self) -> (r: &'a str)
        requires
            old(self).wf(),
            old(self).remaining().len() > 0,
        ensures
            final(self).wf(),
            final(self).buffer() == old(self).buffer(),
            final(self).cursor() >= old(self).cursor(),
            r@ == old(self).remaining()[0],
            final(self).remaining() == old(self).remaining().drop_first(),
    {
        let input: &'a str = self.input;
        let start = find_token_start(input, self.counter);
        proof {
            lemma_skip_ws(input@, old(self).cursor());
        }
        if start >= input.unicode_len() {
            // asked to read, but the input has run out
            return vstd::pervasive::unreached();
        }
        let end = find_token_end(input, start);
        proof {
            lemma_token_end(input@, start as int);
        }
        let piece = input.substring_char(start, end);
        self.counter = end;
        proof {
            assert(self.remaining() =~= old(self).remaining().drop_first());
        }
        piece
    }

    /// Read the next token as a `T`. A token that does not parse as `T` is
    /// a caller error, ruled out by the precondition, as is exhaustion.
    pub fn read<T: FromToken>(&mut self) -> (r: T)
        requires
            old(self).wf(),
            old(self).remaining().len() > 0,
            T::spec_parse(old(self).remaining()[0]) is Some,
        ensures
            final(self).wf(),
            final(self).buffer() == old(self).buffer(),
            final(self).remaining() == old(self).remaining().drop_first(),
            Some(r@) == T::spec_parse(old(self).remaining()[0]),
    {
        let piece = self.advance_slice();
        T::parse_token(piece).unwrap()
    }

    /// Read the next token as a `T`, `None` instead of a failure when it
    /// does not parse; the token is consumed either way. Exhaustion is still
    /// a caller error.
    pub fn read_option<T: FromToken>(&mut self) -> (r: Option<T>)
        requires
            old(self).wf(),
            old(self).remaining().len() > 0,
        ensures
            final(self).wf(),
            final(self).buffer() == old(self).buffer(),
            final(self).remaining() == old(self).remaining().drop_first(),
            r is Some <==> T::spec_parse(old(self).remaining()[0]) is Some,
            r matches Some(v) ==> T::spec_parse(old(self).remaining()[0]) == Some(v@),
    {
        let piece = self.advance_slice();
        T::parse_token(piece)
    }

    /// Read `n` tokens as `T`, in buffer order.
    pub fn read_vec<T: FromToken>(&mut self, n: usize) -> (r: Vec<T>)
        requires
            old(self).wf(),
            old(self).remaining().len() >= n,
            forall|i: int|
                0 <= i < n ==> (#[trigger] T::spec_parse(old(self).remaining()[i])) is Some,
        ensures
            final(self).wf(),
            final(self).buffer() == old(self).buffer(),
            reads_prefix::<T>(old(self).remaining(), n as int, r@, final(self).remaining()),
    {
        let mut result: Vec<T> = Vec::new();
        let mut k: usize = 0;
        while k < n
            invariant
                old(self).wf(),
                self.wf(),
                self.buffer() == old(self).buffer(),
                k <= n,
                old(self).remaining().len() >= n,
                forall|i: int|
                    0 <= i < n ==> (#[trigger] T::spec_parse(old(self).remaining()[i])) is Some,
                self.remaining() == old(self).remaining().skip(k as int),
                result.len() == k,
                forall|i: int|
                    0 <= i < k ==> Some((#[trigger] result[i])@) == T::spec_parse(
                        old(self).remaining()[i],
                    ),
            decreases n - k,
        {
            proof {
                assert(self.remaining()[0] == old(self).remaining()[k as int]);
            }
            let v: T = self.read();
            result.push(v);
            k = k + 1;
            proof {
                assert(self.remaining() =~= old(self).remaining().skip(k as int));
            }
        }
        result
    }

    /// Read `N` tokens as `T`, in buffer order, as a fixed-size array.
    pub fn read_n<T: FromToken, const N: usize>(&mut self) -> (r: [T; N])
        requires
            old(self).wf(),
            old(self).remaining().len() >= N,
            forall|i: int|
                0 <= i < N ==> (#[trigger] T::spec_parse(old(self).remaining()[i])) is Some,
        ensures
            final(self).wf(),
            final(self).buffer() == old(self).buffer(),
            reads_prefix::<T>(old(self).remaining(), N as int, r@, final(self).remaining()),
    {
        let v: Vec<T> = self.read_vec(N);
        into_array(v)
    }

    /// Whether any token is left to read.
    pub fn has_next(&self) -> (r: bool)
        requires
            self.wf(),
        ensures
            r == (self.remaining().len() > 0),
    {
        let start = find_token_start(self.input, self.counter);
        start < self.input.unicode_len()
    }
}

} // verus!
