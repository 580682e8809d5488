//! The algebraic laws of the combinators, each proved once and for all
//! parsers and inputs. The laws are stated over `spec_parse`, the
//! specification every executable `parse` is bound to return exactly.

use vstd::prelude::*;
use crate::combinator::{
    Condition, Either, Identity, Mapped, OneOrMore, ParseResult, Parser, Predicate, ZeroOrMore,
};

verus! {

/// Identity law: mapping the identity transformation over a parser changes
/// nothing. `map(parser, Identity)` parses every input exactly as `parser`
/// does.
pub proof fn lemma_map_identity<P: Parser>(parser: P, input: Seq<char>)
    ensures
        (Mapped { parser, mapper: Identity }).spec_parse(input) == parser.spec_parse(input),
{
}

/// No-side-effect alternation: when the first parser succeeds on an input,
/// ordered choice returns exactly the first parser's outcome, regardless
/// of what the second parser would do.
pub proof fn lemma_either_first_wins<P1: Parser, P2: Parser<Output = P1::Output>>(
    parser1: P1,
    parser2: P2,
    input: Seq<char>,
)
    requires
        parser1.spec_parse(input) is Success,
    ensures
        (Either { parser1, parser2 }).spec_parse(input) == parser1.spec_parse(input),
{
}

/// Ordered choice: when the first parser fails on an input and the second
/// succeeds there, the choice returns exactly the second parser's outcome,
/// obtained on the original, unmodified input.
pub proof fn lemma_either_second_wins<P1: Parser, P2: Parser<Output = P1::Output>>(
    parser1: P1,
    parser2: P2,
    input: Seq<char>,
)
    requires
        parser1.spec_parse(input) is Failure,
        parser2.spec_parse(input) is Success,
    ensures
        (Either { parser1, parser2 }).spec_parse(input) == parser2.spec_parse(input),
{
}

/// Zero-or-more totality: a `zero_or_more` parser never fails, whatever
/// the inner parser and the input.
pub proof fn lemma_zero_or_more_total<P: Parser>(parser: P, input: Seq<char>)
    ensures
        (ZeroOrMore { parser }).spec_parse(input) is Success,
{
}

/// One-or-more delegation: `one_or_more` fails on an input exactly when
/// `zero_or_more` of the same parser collects nothing there.
pub proof fn lemma_one_or_more_delegates<P: Parser>(parser: P, input: Seq<char>)
    ensures
        (OneOrMore { parser }).spec_parse(input) is Failure <==> ((ZeroOrMore {
            parser,
        }).spec_parse(input) matches ParseResult::Success(_, values) && values.len() == 0),
{
}

/// Predicate non-leak: when the inner parser succeeds with a value the
/// test rejects, the predicate parser fails reporting exactly the input it
/// was given — not the inner parser's consumed remainder.
pub proof fn lemma_predicate_rejects_whole_input<P: Parser, F: Condition<P::Output>>(
    parser: P,
    pred: F,
    input: Seq<char>,
)
    requires
        parser.spec_parse(input) matches ParseResult::Success(_, value) && !pred.spec_check(
            value,
        ),
    ensures
        (Predicate { parser, pred }).spec_parse(input) == ParseResult::<
            <P::Output as DeepView>::V,
        >::Failure(input),
{
}

} // verus!
