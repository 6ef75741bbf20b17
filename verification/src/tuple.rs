//! Bounded-arity tuple extraction: a tuple of up to seven fields is parsed
//! one token per field, left to right, short-circuiting at the first field
//! whose token fails to parse. Each arity is defined by parsing one head
//! field and delegating the rest to the next smaller arity; the head and
//! the parsed tail are then joined with `tupleops::concat_tuples`, as one
//! would join any two tuples.

use vstd::prelude::*;

use crate::parse::FromToken;
use crate::reader::InputReader;

verus! {

/// The tuple-extraction capability: a fixed, heterogeneous sequence of
/// fields, each parsed from one token.
pub trait TupleFromStr: Sized {
    /// How many of the leading tokens of `ts` a parse of `Self` consumes:
    /// one per field, up to and including the first field whose token fails
    /// to parse.
    spec fn spec_consumed(ts: Seq<Seq<char>>) -> int;

    /// Whether every field of `Self` parses from its token in `ts`.
    spec fn spec_ok(ts: Seq<Seq<char>>) -> bool;

    /// Whether `v` holds, field by field, the parses of the leading tokens
    /// of `ts`.
    spec fn spec_fields(ts: Seq<Seq<char>>, v: Self) -> bool;

    /// The number of fields.
    spec fn spec_arity() -> int;

    /// A parse consumes at least the first token and at most one token per
    /// field, and exactly one per field when it succeeds.
    proof fn consumed_bounds(ts: Seq<Seq<char>>)
        ensures
            1 <= Self::spec_consumed(ts) <= Self::spec_arity(),
            Self::spec_ok(ts) ==> Self::spec_consumed(ts) == Self::spec_arity(),
    ;

    /// Parse one field per token, left to right, stopping at the first
    /// failure; the tokens read up to that point stay consumed, later ones
    /// are not touched. Exhaustion while fields are still owed is a caller
    /// error, ruled out by the precondition.
    fn tuple_parse(reader: &mut InputReader) -> (r: Option<Self>)
        requires
            old(reader).wf(),
            Self::spec_consumed(old(reader).remaining()) <= old(reader).remaining().len(),
        ensures
            final(reader).wf(),
            final(reader).buffer() == old(reader).buffer(),
            final(reader).remaining() == old(reader).remaining().skip(
                Self::spec_consumed(old(reader).remaining()),
            ),
            r is Some <==> Self::spec_ok(old(reader).remaining()),
            r matches Some(v) ==> Self::spec_fields(old(reader).remaining(), v),
    ;
}

impl<'a> InputReader<'a> {
    /// Extract a whole tuple of up to seven typed fields as one operation:
    /// present only when every field's token parses; on a field's failure,
    /// tokens up to and including that field's are consumed, later ones are
    /// not.
    pub fn read_tuple<T: TupleFromStr>(&mut self) -> (r: Option<T>)
        requires
            old(self).wf(),
            T::spec_consumed(old(self).remaining()) <= old(self).remaining().len(),
        ensures
            final(self).wf(),
            final(self).buffer() == old(self).buffer(),
            final(self).remaining() == old(self).remaining().skip(
                T::spec_consumed(old(self).remaining()),
            ),
            r is Some <==> T::spec_ok(old(self).remaining()),
            r matches Some(v) ==> T::spec_fields(old(self).remaining(), v),
            r is Some ==> T::spec_consumed(old(self).remaining()) == T::spec_arity(),
    {
        proof {
            T::consumed_bounds(old(self).remaining());
        }
        T::tuple_parse(self)
    }
}

/// Relies on `tupleops::concat_tuples`: concatenating a 1-tuple with a
/// 1-tuple yields the pair of both elements, in order.
#[verifier::external_body]
fn concat_1_1<A, B>(front: (A,), back: (B,)) -> (r: (A, B))
    ensures
        r.0 == front.0,
        r.1 == back.0,
{
    tupleops::concat_tuples(front, back)
}

impl<A: FromToken> TupleFromStr for (A,) {
    open spec fn spec_consumed(ts: Seq<Seq<char>>) -> int {
        1
    }

    open spec fn spec_ok(ts: Seq<Seq<char>>) -> bool {
        A::spec_parse(ts[0]) is Some
    }

    open spec fn spec_fields(ts: Seq<Seq<char>>, v: Self) -> bool {
        A::spec_parse(ts[0]) == Some(v.0@)
    }

    open spec fn spec_arity() -> int {
        1
    }

    proof fn consumed_bounds(ts: Seq<Seq<char>>) {
    }

    fn tuple_parse(reader: &mut InputReader) -> (r: Option<Self>) {
        let piece = reader.advance_slice();
        proof {
            assert(final(reader).remaining() =~= old(reader).remaining().skip(1));
        }
        match A::parse_token(piece) {
            Some(a) => Some((a,)),
            None => None,
        }
    }
}

impl<A: FromToken, B: FromToken> TupleFromStr for (A, B) {
    open spec fn spec_consumed(ts: Seq<Seq<char>>) -> int {
        if A::spec_parse(ts[0]) is None {
            1
        } else {
            1 + <(B,) as TupleFromStr>::spec_consumed(ts.skip(1))
        }
    }

    open spec fn spec_ok(ts: Seq<Seq<char>>) -> bool {
        A::spec_parse(ts[0]) is Some && <(B,) as TupleFromStr>::spec_ok(ts.skip(1))
    }

    open spec fn spec_fields(ts: Seq<Seq<char>>, v: Self) -> bool {
        A::spec_parse(ts[0]) == Some(v.0@) && <(B,) as TupleFromStr>::spec_fields(
            ts.skip(1),
            (v.1,),
        )
    }

    open spec fn spec_arity() -> int {
        2
    }

    proof fn consumed_bounds(ts: Seq<Seq<char>>) {
        <(B,) as TupleFromStr>::consumed_bounds(ts.skip(1));
    }

    fn tuple_parse(reader: &mut InputReader) -> (r: Option<Self>) {
        let ghost ts = old(reader).remaining();
        proof {
            <(B,) as TupleFromStr>::consumed_bounds(ts.skip(1));
        }
        let piece = reader.advance_slice();
        proof {
            assert(reader.remaining() =~= ts.skip(1));
        }
        match A::parse_token(piece) {
            None => None,
            Some(head) => {
                match <(B,) as TupleFromStr>::tuple_parse(reader) {
                    None => {
                        proof {
                            assert(reader.remaining() =~= ts.skip(
                                1 + <(B,) as TupleFromStr>::spec_consumed(ts.skip(1)),
                            ));
                        }
                        None
                    },
                    Some(tail) => {
                        proof {
                            assert(reader.remaining() =~= ts.skip(
                                1 + <(B,) as TupleFromStr>::spec_consumed(ts.skip(1)),
                            ));
                        }
                        Some(concat_1_1((head,), tail))
                    },
                }
            },
        }
    }
}

/// Relies on `tupleops::concat_tuples`: concatenating a 1-tuple with a
/// 2-tuple yields the 3-tuple of all elements, in order.
#[verifier::external_body]
fn concat_1_2<A, B, C>(front: (A,), back: (B, C)) -> (r: (A, B, C))
    ensures
        r.0 == front.0,
        r.1 == back.0,
        r.2 == back.1,
{
    tupleops::concat_tuples(front, back)
}

/// Relies on `tupleops::concat_tuples`: concatenating a 1-tuple with a
/// 3-tuple yields the 4-tuple of all elements, in order.
#[verifier::external_body]
fn concat_1_3<A, B, C, D>(front: (A,), back: (B, C, D)) -> (r: (A, B, C, D))
    ensures
        r.0 == front.0,
        r.1 == back.0,
        r.2 == back.1,
        r.3 == back.2,
{
    tupleops::concat_tuples(front, back)
}

/// Relies on `tupleops::concat_tuples`: concatenating a 1-tuple with a
/// 4-tuple yields the 5-tuple of all elements, in order.
#[verifier::external_body]
fn concat_1_4<A, B, C, D, E>(front: (A,), back: (B, C, D, E)) -> (r: (A, B, C, D, E))
    ensures
        r.0 == front.0,
        r.1 == back.0,
        r.2 == back.1,
        r.3 == back.2,
        r.4 == back.3,
{
    tupleops::concat_tuples(front, back)
}

/// Relies on `tupleops::concat_tuples`: concatenating a 1-tuple with a
/// 5-tuple yields the 6-tuple of all elements, in order.
#[verifier::external_body]
fn concat_1_5<A, B, C, D, E, F>(front: (A,), back: (B, C, D, E, F)) -> (r: (A, B, C, D, E, F))
    ensures
        r.0 == front.0,
        r.1 == back.0,
        r.2 == back.1,
        r.3 == back.2,
        r.4 == back.3,
        r.5 == back.4,
{
    tupleops::concat_tuples(front, back)
}

/// Relies on `tupleops::concat_tuples`: concatenating a 1-tuple with a
/// 6-tuple yields the 7-tuple of all elements, in order.
#[verifier::external_body]
fn concat_1_6<A, B, C, D, E, F, G>(front: (A,), back: (B, C, D, E, F, G)) -> (r: (A, B, C, D, E, F, G))
    ensures
        r.0 == front.0,
        r.1 == back.0,
        r.2 == back.1,
        r.3 == back.2,
        r.4 == back.3,
        r.5 == back.4,
        r.6 == back.5,
{
    tupleops::concat_tuples(front, back)
}

impl<A: FromToken, B: FromToken, C: FromToken> TupleFromStr for (A, B, C) {
    open spec fn spec_consumed(ts: Seq<Seq<char>>) -> int {
        if A::spec_parse(ts[0]) is None {
            1
        } else {
            1 + <(B, C) as TupleFromStr>::spec_consumed(ts.skip(1))
        }
    }

    open spec fn spec_ok(ts: Seq<Seq<char>>) -> bool {
        A::spec_parse(ts[0]) is Some && <(B, C) as TupleFromStr>::spec_ok(ts.skip(1))
    }

    open spec fn spec_fields(ts: Seq<Seq<char>>, v: Self) -> bool {
        A::spec_parse(ts[0]) == Some(v.0@) && <(B, C) as TupleFromStr>::spec_fields(
            ts.skip(1),
            (v.1, v.2),
        )
    }

    open spec fn spec_arity() -> int {
        3
    }

    proof fn consumed_bounds(ts: Seq<Seq<char>>) {
        <(B, C) as TupleFromStr>::consumed_bounds(ts.skip(1));
    }

    fn tuple_parse(reader: &mut InputReader) -> (r: Option<Self>) {
        let ghost ts = old(reader).remaining();
        proof {
            <(B, C) as TupleFromStr>::consumed_bounds(ts.skip(1));
        }
        let piece = reader.advance_slice();
        proof {
            assert(reader.remaining() =~= ts.skip(1));
        }
        match A::parse_token(piece) {
            None => None,
            Some(head) => {
                match <(B, C) as TupleFromStr>::tuple_parse(reader) {
                    None => {
                        proof {
                            assert(reader.remaining() =~= ts.skip(
                                1 + <(B, C) as TupleFromStr>::spec_consumed(ts.skip(1)),
                            ));
                        }
                        None
                    },
                    Some(tail) => {
                        proof {
                            assert(reader.remaining() =~= ts.skip(
                                1 + <(B, C) as TupleFromStr>::spec_consumed(ts.skip(1)),
                            ));
                        }
                        Some(concat_1_2((head,), tail))
                    },
                }
            },
        }
    }
}

impl<A: FromToken, B: FromToken, C: FromToken, D: FromToken> TupleFromStr for (A, B, C, D) {
    open spec fn spec_consumed(ts: Seq<Seq<char>>) -> int {
        if A::spec_parse(ts[0]) is None {
            1
        } else {
            1 + <(B, C, D) as TupleFromStr>::spec_consumed(ts.skip(1))
        }
    }

    open spec fn spec_ok(ts: Seq<Seq<char>>) -> bool {
        A::spec_parse(ts[0]) is Some && <(B, C, D) as TupleFromStr>::spec_ok(ts.skip(1))
    }

    open spec fn spec_fields(ts: Seq<Seq<char>>, v: Self) -> bool {
        A::spec_parse(ts[0]) == Some(v.0@) && <(B, C, D) as TupleFromStr>::spec_fields(
            ts.skip(1),
            (v.1, v.2, v.3),
        )
    }

    open spec fn spec_arity() -> int {
        4
    }

    proof fn consumed_bounds(ts: Seq<Seq<char>>) {
        <(B, C, D) as TupleFromStr>::consumed_bounds(ts.skip(1));
    }

    fn tuple_parse(reader: &mut InputReader) -> (r: Option<Self>) {
        let ghost ts = old(reader).remaining();
        proof {
            <(B, C, D) as TupleFromStr>::consumed_bounds(ts.skip(1));
        }
        let piece = reader.advance_slice();
        proof {
            assert(reader.remaining() =~= ts.skip(1));
        }
        match A::parse_token(piece) {
            None => None,
            Some(head) => {
                match <(B, C, D) as TupleFromStr>::tuple_parse(reader) {
                    None => {
                        proof {
                            assert(reader.remaining() =~= ts.skip(
                                1 + <(B, C, D) as TupleFromStr>::spec_consumed(ts.skip(1)),
                            ));
                        }
                        None
                    },
                    Some(tail) => {
                        proof {
                            assert(reader.remaining() =~= ts.skip(
                                1 + <(B, C, D) as TupleFromStr>::spec_consumed(ts.skip(1)),
                            ));
                        }
                        Some(concat_1_3((head,), tail))
                    },
                }
            },
        }
    }
}

impl<A: FromToken, B: FromToken, C: FromToken, D: FromToken, E: FromToken> TupleFromStr for (A, B, C, D, E) {
    open spec fn spec_consumed(ts: Seq<Seq<char>>) -> int {
        if A::spec_parse(ts[0]) is None {
            1
        } else {
            1 + <(B, C, D, E) as TupleFromStr>::spec_consumed(ts.skip(1))
        }
    }

    open spec fn spec_ok(ts: Seq<Seq<char>>) -> bool {
        A::spec_parse(ts[0]) is Some && <(B, C, D, E) as TupleFromStr>::spec_ok(ts.skip(1))
    }

    open spec fn spec_fields(ts: Seq<Seq<char>>, v: Self) -> bool {
        A::spec_parse(ts[0]) == Some(v.0@) && <(B, C, D, E) as TupleFromStr>::spec_fields(
            ts.skip(1),
            (v.1, v.2, v.3, v.4),
        )
    }

    open spec fn spec_arity() -> int {
        5
    }

    proof fn consumed_bounds(ts: Seq<Seq<char>>) {
        <(B, C, D, E) as TupleFromStr>::consumed_bounds(ts.skip(1));
    }

    fn tuple_parse(reader: &mut InputReader) -> (r: Option<Self>) {
        let ghost ts = old(reader).remaining();
        proof {
            <(B, C, D, E) as TupleFromStr>::consumed_bounds(ts.skip(1));
        }
        let piece = reader.advance_slice();
        proof {
            assert(reader.remaining() =~= ts.skip(1));
        }
        match A::parse_token(piece) {
            None => None,
            Some(head) => {
                match <(B, C, D, E) as TupleFromStr>::tuple_parse(reader) {
                    None => {
                        proof {
                            assert(reader.remaining() =~= ts.skip(
                                1 + <(B, C, D, E) as TupleFromStr>::spec_consumed(ts.skip(1)),
                            ));
                        }
                        None
                    },
                    Some(tail) => {
                        proof {
                            assert(reader.remaining() =~= ts.skip(
                                1 + <(B, C, D, E) as TupleFromStr>::spec_consumed(ts.skip(1)),
                            ));
                        }
                        Some(concat_1_4((head,), tail))
                    },
                }
            },
        }
    }
}

impl<A: FromToken, B: FromToken, C: FromToken, D: FromToken, E: FromToken, F: FromToken> TupleFromStr for (A, B, C, D, E, F) {
    open spec fn spec_consumed(ts: Seq<Seq<char>>) -> int {
        if A::spec_parse(ts[0]) is None {
            1
        } else {
            1 + <(B, C, D, E, F) as TupleFromStr>::spec_consumed(ts.skip(1))
        }
    }

    open spec fn spec_ok(ts: Seq<Seq<char>>) -> bool {
        A::spec_parse(ts[0]) is Some && <(B, C, D, E, F) as TupleFromStr>::spec_ok(ts.skip(1))
    }

    open spec fn spec_fields(ts: Seq<Seq<char>>, v: Self) -> bool {
        A::spec_parse(ts[0]) == Some(v.0@) && <(B, C, D, E, F) as TupleFromStr>::spec_fields(
            ts.skip(1),
            (v.1, v.2, v.3, v.4, v.5),
        )
    }

    open spec fn spec_arity() -> int {
        6
    }

    proof fn consumed_bounds(ts: Seq<Seq<char>>) {
        <(B, C, D, E, F) as TupleFromStr>::consumed_bounds(ts.skip(1));
    }

    fn tuple_parse(reader: &mut InputReader) -> (r: Option<Self>) {
        let ghost ts = old(reader).remaining();
        proof {
            <(B, C, D, E, F) as TupleFromStr>::consumed_bounds(ts.skip(1));
        }
        let piece = reader.advance_slice();
        proof {
            assert(reader.remaining() =~= ts.skip(1));
        }
        match A::parse_token(piece) {
            None => None,
            Some(head) => {
                match <(B, C, D, E, F) as TupleFromStr>::tuple_parse(reader) {
                    None => {
                        proof {
                            assert(reader.remaining() =~= ts.skip(
                                1 + <(B, C, D, E, F) as TupleFromStr>::spec_consumed(ts.skip(1)),
                            ));
                        }
                        None
                    },
                    Some(tail) => {
                        proof {
                            assert(reader.remaining() =~= ts.skip(
                                1 + <(B, C, D, E, F) as TupleFromStr>::spec_consumed(ts.skip(1)),
                            ));
                        }
                        Some(concat_1_5((head,), tail))
                    },
                }
            },
        }
    }
}

impl<A: FromToken, B: FromToken, C: FromToken, D: FromToken, E: FromToken, F: FromToken, G: FromToken> TupleFromStr for (A, B, C, D, E, F, G) {
    open spec fn spec_consumed(ts: Seq<Seq<char>>) -> int {
        if A::spec_parse(ts[0]) is None {
            1
        } else {
            1 + <(B, C, D, E, F, G) as TupleFromStr>::spec_consumed(ts.skip(1))
        }
    }

    open spec fn spec_ok(ts: Seq<Seq<char>>) -> bool {
        A::spec_parse(ts[0]) is Some && <(B, C, D, E, F, G) as TupleFromStr>::spec_ok(ts.skip(1))
    }

    open spec fn spec_fields(ts: Seq<Seq<char>>, v: Self) -> bool {
        A::spec_parse(ts[0]) == Some(v.0@) && <(B, C, D, E, F, G) as TupleFromStr>::spec_fields(
            ts.skip(1),
            (v.1, v.2, v.3, v.4, v.5, v.6),
        )
    }

    open spec fn spec_arity() -> int {
        7
    }

    proof fn consumed_bounds(ts: Seq<Seq<char>>) {
        <(B, C, D, E, F, G) as TupleFromStr>::consumed_bounds(ts.skip(1));
    }

    fn tuple_parse(reader: &mut InputReader) -> (r: Option<Self>) {
        let ghost ts = old(reader).remaining();
        proof {
            <(B, C, D, E, F, G) as TupleFromStr>::consumed_bounds(ts.skip(1));
        }
        let piece = reader.advance_slice();
        proof {
            assert(reader.remaining() =~= ts.skip(1));
        }
        match A::parse_token(piece) {
            None => None,
            Some(head) => {
                match <(B, C, D, E, F, G) as TupleFromStr>::tuple_parse(reader) {
                    None => {
                        proof {
                            assert(reader.remaining() =~= ts.skip(
                                1 + <(B, C, D, E, F, G) as TupleFromStr>::spec_consumed(ts.skip(1)),
                            ));
                        }
                        None
                    },
                    Some(tail) => {
                        proof {
                            assert(reader.remaining() =~= ts.skip(
                                1 + <(B, C, D, E, F, G) as TupleFromStr>::spec_consumed(ts.skip(1)),
                            ));
                        }
                        Some(concat_1_6((head,), tail))
                    },
                }
            },
        }
    }
}

} // verus!
