//! The combinator algebra: the `Parser` abstraction and the operators that
//! build new parsers out of existing ones.
//!
//! A parser is an immutable value that maps an input to either
//! `Success(remaining, value)` — the parser consumed a prefix of the input
//! and `remaining` is the untouched suffix — or `Failure(at)`, where `at`
//! is the input as seen at the point of failure. Composition is static:
//! a combinator owns the sub-parsers it was built from and never mutates
//! them, so the same composed parser may be applied to any number of
//! inputs, always with the same outcome. The composition graph is acyclic
//! by construction: a self-referential grammar rule would need a deferred
//! parser indirection, which this algebra leaves as an open extension
//! point.

use vstd::prelude::*;

verus! {

/// The outcome of one parser application, at the specification level.
///
/// `Success(remaining, value)` carries the unconsumed suffix of the input
/// and the produced value (the deep view of the executable value).
/// `Failure(at)` carries the input exactly as the failing parser received
/// it: failure never reports a partially consumed remainder.
pub enum ParseResult<V> {
    Success(Seq<char>, V),
    Failure(Seq<char>),
}

/// `rest` is a suffix of `whole`: what a parser may leave unconsumed, and
/// where a failure may point.
pub open spec fn suffix_of(rest: Seq<char>, whole: Seq<char>) -> bool {
    &&& rest.len() <= whole.len()
    &&& rest == whole.subrange(whole.len() - rest.len(), whole.len() as int)
}

/// Every input mentioned by the outcome — the remaining input on success,
/// the failure position on failure — lies within the input that was given.
pub open spec fn result_within<V>(r: ParseResult<V>, input: Seq<char>) -> bool {
    match r {
        ParseResult::Success(remaining, _) => suffix_of(remaining, input),
        ParseResult::Failure(at) => suffix_of(at, input),
    }
}

pub proof fn lemma_suffix_refl(s: Seq<char>)
    ensures
        suffix_of(s, s),
{
    assert(s.subrange(0, s.len() as int) =~= s);
}

pub proof fn lemma_suffix_trans(a: Seq<char>, b: Seq<char>, c: Seq<char>)
    requires
        suffix_of(a, b),
        suffix_of(b, c),
    ensures
        suffix_of(a, c),
{
    assert forall|i: int| 0 <= i < a.len() implies c.subrange(
        c.len() - a.len(),
        c.len() as int,
    )[i] == a[i] by {
        assert(a[i] == b[b.len() - a.len() + i]);
        assert(b[b.len() - a.len() + i] == c[c.len() - b.len() + (b.len() - a.len() + i)]);
    }
    assert(c.subrange(c.len() - a.len(), c.len() as int) =~= a);
}

/// The single capability every parser provides. `spec_parse` is the
/// mathematical meaning of the parser; `parse` is the executable parser
/// and is bound to return exactly what `spec_parse` says, so two
/// applications to equal inputs always agree (referential transparency).
pub trait Parser: Sized {
    /// The type of value a successful parse produces.
    type Output: DeepView;

    /// What this parser returns for each input.
    spec fn spec_parse(&self, input: Seq<char>) -> ParseResult<<Self::Output as DeepView>::V>;

    /// Consumption is monotonic and non-negative: on success the remaining
    /// input is a suffix of the given input, and a failure points into the
    /// given input.
    proof fn lemma_parse_within(&self, input: Seq<char>)
        ensures
            result_within(self.spec_parse(input), input),
    ;

    /// Apply the parser to an input. Returns `Ok((remaining, value))` or
    /// `Err(at)` exactly as `spec_parse` dictates.
    fn parse<'a>(&self, input: &'a str) -> (r: Result<(&'a str, Self::Output), &'a str>)
        ensures
            (match r {
                Ok((remaining, value)) => self.spec_parse(input@) == ParseResult::Success(
                    remaining@,
                    value.deep_view(),
                ),
                Err(at) => self.spec_parse(input@) == ParseResult::<
                    <Self::Output as DeepView>::V,
                >::Failure(at@),
            }),
    ;
}

/// A pure transformation of parsed values, as `map` takes it: an
/// executable function together with its specification-level meaning.
pub trait Transform<A: DeepView> {
    /// The type the transformation produces.
    type Output: DeepView;

    /// The mathematical function the transformation computes.
    spec fn spec_apply(&self, a: <A as DeepView>::V) -> <Self::Output as DeepView>::V;

    /// Apply the transformation; the result is exactly `spec_apply` of the
    /// argument.
    fn apply(&self, a: A) -> (r: Self::Output)
        ensures
            r.deep_view() == self.spec_apply(a.deep_view()),
    ;
}

/// The transformation that hands its argument back unchanged.
/// `map(parser, Identity)` is indistinguishable from `parser`.
pub struct Identity;

impl<A: DeepView> Transform<A> for Identity {
    type Output = A;

    open spec fn spec_apply(&self, a: <A as DeepView>::V) -> <A as DeepView>::V {
        a
    }

    fn apply(&self, a: A) -> (r: A) {
        a
    }
}

/// The parser built by [`map`]: runs the inner parser and transforms the
/// value of a success, leaving consumed input untouched. Never turns a
/// success into a failure or the other way round.
pub struct Mapped<P, F> {
    pub parser: P,
    pub mapper: F,
}

impl<P: Parser, F: Transform<P::Output>> Parser for Mapped<P, F> {
    type Output = F::Output;

    open spec fn spec_parse(&self, input: Seq<char>) -> ParseResult<
        <F::Output as DeepView>::V,
    > {
        match self.parser.spec_parse(input) {
            ParseResult::Success(remaining, value) => ParseResult::Success(
                remaining,
                self.mapper.spec_apply(value),
            ),
            ParseResult::Failure(at) => ParseResult::Failure(at),
        }
    }

    proof fn lemma_parse_within(&self, input: Seq<char>) {
        self.parser.lemma_parse_within(input);
    }

    fn parse<'a>(&self, input: &'a str) -> Result<(&'a str, F::Output), &'a str> {
        match self.parser.parse(input) {
            Ok((remaining, value)) => Ok((remaining, self.mapper.apply(value))),
            Err(at) => Err(at),
        }
    }
}

/// Transformation combinator: runs `parser`, and on success applies the
/// pure function `mapper` to the value. Consumed input and the
/// success/failure outcome are exactly those of `parser`.
pub fn map<P: Parser, F: Transform<P::Output>>(parser: P, mapper: F) -> (r: Mapped<P, F>)
    ensures
        r == (Mapped { parser, mapper }),
{
    Mapped { parser, mapper }
}

/// The parser built by [`bind`]: sequencing. Runs `parser1`; on success,
/// runs `parser2` on the remaining input and pairs the two values. A
/// failure of either step propagates with the failing step's reported
/// input unchanged.
pub struct Bind<P1, P2> {
    pub parser1: P1,
    pub parser2: P2,
}

impl<P1: Parser, P2: Parser> Parser for Bind<P1, P2> {
    type Output = (P1::Output, P2::Output);

    open spec fn spec_parse(&self, input: Seq<char>) -> ParseResult<
        (<P1::Output as DeepView>::V, <P2::Output as DeepView>::V),
    > {
        match self.parser1.spec_parse(input) {
            ParseResult::Success(next, value1) => match self.parser2.spec_parse(next) {
                ParseResult::Success(last, value2) => ParseResult::Success(
                    last,
                    (value1, value2),
                ),
                ParseResult::Failure(at) => ParseResult::Failure(at),
            },
            ParseResult::Failure(at) => ParseResult::Failure(at),
        }
    }

    proof fn lemma_parse_within(&self, input: Seq<char>) {
        self.parser1.lemma_parse_within(input);
        match self.parser1.spec_parse(input) {
            ParseResult::Success(next, _) => {
                self.parser2.lemma_parse_within(next);
                match self.parser2.spec_parse(next) {
                    ParseResult::Success(last, _) => lemma_suffix_trans(last, next, input),
                    ParseResult::Failure(at) => lemma_suffix_trans(at, next, input),
                }
            },
            ParseResult::Failure(_) => {},
        }
    }

    fn parse<'a>(&self, input: &'a str) -> Result<(&'a str, (P1::Output, P2::Output)), &'a str> {
        match self.parser1.parse(input) {
            Ok((next, value1)) => match self.parser2.parse(next) {
                Ok((last, value2)) => Ok((last, (value1, value2))),
                Err(at) => Err(at),
            },
            Err(at) => Err(at),
        }
    }
}

/// Sequencing combinator: runs `parser1`, then `parser2` on what is left,
/// and succeeds with the pair of their values.
pub fn bind<P1: Parser, P2: Parser>(parser1: P1, parser2: P2) -> (r: Bind<P1, P2>)
    ensures
        r == (Bind { parser1, parser2 }),
{
    Bind { parser1, parser2 }
}

/// The projection that keeps the first half of a pair.
pub struct TakeFirst;

impl<A: DeepView, B: DeepView> Transform<(A, B)> for TakeFirst {
    type Output = A;

    open spec fn spec_apply(&self, a: <(A, B) as DeepView>::V) -> <A as DeepView>::V {
        a.0
    }

    fn apply(&self, a: (A, B)) -> (r: A) {
        a.0
    }
}

/// The projection that keeps the second half of a pair.
pub struct TakeSecond;

impl<A: DeepView, B: DeepView> Transform<(A, B)> for TakeSecond {
    type Output = B;

    open spec fn spec_apply(&self, a: <(A, B) as DeepView>::V) -> <B as DeepView>::V {
        a.1
    }

    fn apply(&self, a: (A, B)) -> (r: B) {
        a.1
    }
}

/// Sequences the two parsers and keeps only the first value: used to keep
/// a substantive token while skipping a delimiter that follows it.
pub fn left<P1: Parser, P2: Parser>(parser1: P1, parser2: P2) -> (r: Mapped<
    Bind<P1, P2>,
    TakeFirst,
>)
    ensures
        r == (Mapped { parser: Bind { parser1, parser2 }, mapper: TakeFirst }),
{
    map(bind(parser1, parser2), TakeFirst)
}

/// Sequences the two parsers and keeps only the second value: used to skip
/// a delimiter and keep the substantive token that follows it.
pub fn right<P1: Parser, P2: Parser>(parser1: P1, parser2: P2) -> (r: Mapped<
    Bind<P1, P2>,
    TakeSecond,
>)
    ensures
        r == (Mapped { parser: Bind { parser1, parser2 }, mapper: TakeSecond }),
{
    map(bind(parser1, parser2), TakeSecond)
}

/// The parser built by [`either`]: ordered choice. Tries `parser1` first;
/// if and only if it fails, tries `parser2` on the original, unmodified
/// input and returns its outcome as-is. First match wins, so the order of
/// the two arguments is significant.
pub struct Either<P1, P2> {
    pub parser1: P1,
    pub parser2: P2,
}

impl<P1: Parser, P2: Parser<Output = P1::Output>> Parser for Either<P1, P2> {
    type Output = P1::Output;

    open spec fn spec_parse(&self, input: Seq<char>) -> ParseResult<
        <P1::Output as DeepView>::V,
    > {
        match self.parser1.spec_parse(input) {
            ParseResult::Success(remaining, value) => ParseResult::Success(remaining, value),
            ParseResult::Failure(_) => self.parser2.spec_parse(input),
        }
    }

    proof fn lemma_parse_within(&self, input: Seq<char>) {
        self.parser1.lemma_parse_within(input);
        self.parser2.lemma_parse_within(input);
    }

    fn parse<'a>(&self, input: &'a str) -> Result<(&'a str, P1::Output), &'a str> {
        match self.parser1.parse(input) {
            Ok(found) => Ok(found),
            Err(_) => self.parser2.parse(input),
        }
    }
}

/// Alternation combinator: ordered choice between two parsers of the same
/// value type.
pub fn either<P1: Parser, P2: Parser<Output = P1::Output>>(parser1: P1, parser2: P2) -> (r:
    Either<P1, P2>)
    ensures
        r == (Either { parser1, parser2 }),
{
    Either { parser1, parser2 }
}

/// A pure test on parsed values, as `predicate` takes it: an executable
/// predicate together with its specification-level meaning.
pub trait Condition<A: DeepView> {
    /// The mathematical predicate the test decides.
    spec fn spec_check(&self, a: <A as DeepView>::V) -> bool;

    /// Decide the predicate; the result is exactly `spec_check` of the
    /// argument.
    fn check(&self, a: &A) -> (r: bool)
        ensures
            r == self.spec_check(a.deep_view()),
    ;
}

/// The parser built by [`predicate`]: runs the inner parser and keeps its
/// success only when the test holds on the value. A rejection reports the
/// original input given to this parser, never the inner parser's consumed
/// remainder: rejection does not leak partial consumption.
pub struct Predicate<P, F> {
    pub parser: P,
    pub pred: F,
}

impl<P: Parser, F: Condition<P::Output>> Parser for Predicate<P, F> {
    type Output = P::Output;

    open spec fn spec_parse(&self, input: Seq<char>) -> ParseResult<
        <P::Output as DeepView>::V,
    > {
        match self.parser.spec_parse(input) {
            ParseResult::Success(remaining, value) => if self.pred.spec_check(value) {
                ParseResult::Success(remaining, value)
            } else {
                ParseResult::Failure(input)
            },
            ParseResult::Failure(_) => ParseResult::Failure(input),
        }
    }

    proof fn lemma_parse_within(&self, input: Seq<char>) {
        self.parser.lemma_parse_within(input);
        lemma_suffix_refl(input);
    }

    fn parse<'a>(&self, input: &'a str) -> Result<(&'a str, P::Output), &'a str> {
        match self.parser.parse(input) {
            Ok((remaining, value)) => if self.pred.check(&value) {
                Ok((remaining, value))
            } else {
                Err(input)
            },
            Err(_) => Err(input),
        }
    }
}

/// Filtering combinator: keeps a success of `parser` only when `pred`
/// holds on the value; otherwise fails, reporting the input this
/// combinator itself received.
pub fn predicate<P: Parser, F: Condition<P::Output>>(parser: P, pred: F) -> (r: Predicate<P, F>)
    ensures
        r == (Predicate { parser, pred }),
{
    Predicate { parser, pred }
}

/// A function from a parsed value to the parser to run next, as
/// `and_then` takes it: an executable constructor together with its
/// specification-level meaning.
pub trait Chain<A: DeepView> {
    /// The type of parser built from a value.
    type Target: Parser;

    /// The parser this function builds from a given value.
    spec fn spec_make(&self, a: <A as DeepView>::V) -> Self::Target;

    /// Build the next parser; the result is exactly `spec_make` of the
    /// argument.
    fn make(&self, a: A) -> (r: Self::Target)
        ensures
            r == self.spec_make(a.deep_view()),
    ;
}

/// The parser built by [`and_then`]: dependent chaining. Runs `parser`;
/// on success, builds a new parser from the value and runs it on the
/// remaining input. The shape of what comes next may thus depend on what
/// was just parsed.
pub struct AndThen<P, F> {
    pub parser: P,
    pub f: F,
}

impl<P: Parser, F: Chain<P::Output>> Parser for AndThen<P, F> {
    type Output = <F::Target as Parser>::Output;

    open spec fn spec_parse(&self, input: Seq<char>) -> ParseResult<
        <<F::Target as Parser>::Output as DeepView>::V,
    > {
        match self.parser.spec_parse(input) {
            ParseResult::Success(next, value) => self.f.spec_make(value).spec_parse(next),
            ParseResult::Failure(at) => ParseResult::Failure(at),
        }
    }

    proof fn lemma_parse_within(&self, input: Seq<char>) {
        self.parser.lemma_parse_within(input);
        match self.parser.spec_parse(input) {
            ParseResult::Success(next, value) => {
                let target = self.f.spec_make(value);
                target.lemma_parse_within(next);
                match target.spec_parse(next) {
                    ParseResult::Success(last, _) => lemma_suffix_trans(last, next, input),
                    ParseResult::Failure(at) => lemma_suffix_trans(at, next, input),
                }
            },
            ParseResult::Failure(_) => {},
        }
    }

    fn parse<'a>(&self, input: &'a str) -> Result<
        (&'a str, <F::Target as Parser>::Output),
        &'a str,
    > {
        match self.parser.parse(input) {
            Ok((next, value)) => self.f.make(value).parse(next),
            Err(at) => Err(at),
        }
    }
}

/// Dependent chaining combinator: runs `parser`, and on success runs the
/// parser that `f` builds from the value.
pub fn and_then<P: Parser, F: Chain<P::Output>>(parser: P, f: F) -> (r: AndThen<P, F>)
    ensures
        r == (AndThen { parser, f }),
{
    AndThen { parser, f }
}

/// The values a greedy repetition of `parser` collects, starting from
/// `input`: apply the parser again and again, stop at its first failure —
/// or right after a step that consumed nothing, since such a step makes no
/// forward progress and repeating it could never terminate.
pub open spec fn repeat_values<P: Parser>(parser: P, input: Seq<char>) -> Seq<
    <P::Output as DeepView>::V,
>
    decreases input.len(),
{
    match parser.spec_parse(input) {
        ParseResult::Failure(_) => Seq::empty(),
        ParseResult::Success(remaining, value) => if remaining.len() < input.len() {
            seq![value] + repeat_values(parser, remaining)
        } else {
            seq![value]
        },
    }
}

/// The input a greedy repetition of `parser` leaves over: the position of
/// its last success (the whole of `input` when the first application
/// already fails).
pub open spec fn repeat_remaining<P: Parser>(parser: P, input: Seq<char>) -> Seq<char>
    decreases input.len(),
{
    match parser.spec_parse(input) {
        ParseResult::Failure(_) => input,
        ParseResult::Success(remaining, _) => if remaining.len() < input.len() {
            repeat_remaining(parser, remaining)
        } else {
            remaining
        },
    }
}

/// What a repetition leaves over is a suffix of what it started from.
pub proof fn lemma_repeat_within<P: Parser>(parser: P, input: Seq<char>)
    ensures
        suffix_of(repeat_remaining(parser, input), input),
    decreases input.len(),
{
    parser.lemma_parse_within(input);
    match parser.spec_parse(input) {
        ParseResult::Failure(_) => lemma_suffix_refl(input),
        ParseResult::Success(remaining, _) => {
            if remaining.len() < input.len() {
                lemma_repeat_within(parser, remaining);
                lemma_suffix_trans(repeat_remaining(parser, remaining), remaining, input);
            }
        },
    }
}

/// The shared loop behind `zero_or_more` and `one_or_more`: applies
/// `parser` repeatedly, collecting the values in order, and stops at the
/// first failure — or right after a step that made no forward progress,
/// which guards the loop against a sub-parser that succeeds while
/// consuming nothing.
fn parse_repeated<'a, P: Parser>(parser: &P, input: &'a str) -> (r: (&'a str, Vec<P::Output>))
    ensures
        r.0@ == repeat_remaining(*parser, input@),
        r.1.deep_view() == repeat_values(*parser, input@),
{
    let mut current: &'a str = input;
    let mut results: Vec<P::Output> = Vec::new();
    loop
        invariant_except_break
            repeat_remaining(*parser, input@) == repeat_remaining(*parser, current@),
            repeat_values(*parser, input@) == results.deep_view() + repeat_values(
                *parser,
                current@,
            ),
        ensures
            current@ == repeat_remaining(*parser, input@),
            results.deep_view() == repeat_values(*parser, input@),
        decreases current@.len(),
    {
        match parser.parse(current) {
            Ok((next, value)) => {
                let made_progress = next.unicode_len() < current.unicode_len();
                proof {
                    let collected = results.deep_view();
                    let tail = if made_progress {
                        repeat_values(*parser, next@)
                    } else {
                        Seq::empty()
                    };
                    assert(repeat_values(*parser, current@) == seq![value.deep_view()] + tail);
                    assert(collected + (seq![value.deep_view()] + tail) =~= collected.push(
                        value.deep_view(),
                    ) + tail);
                }
                let ghost previous = results.deep_view();
                results.push(value);
                proof {
                    assert(results.deep_view() =~= previous.push(value.deep_view()));
                    assert(results.deep_view() + Seq::<
                        <P::Output as DeepView>::V,
                    >::empty() =~= results.deep_view());
                }
                current = next;
                if !made_progress {
                    break;
                }
            },
            Err(_) => {
                proof {
                    assert(results.deep_view() + Seq::<
                        <P::Output as DeepView>::V,
                    >::empty() =~= results.deep_view());
                }
                break;
            },
        }
    }
    (current, results)
}

/// The parser built by [`zero_or_more`]: greedy repetition that always
/// succeeds, collecting the values of as many applications of the inner
/// parser as make forward progress — possibly none.
pub struct ZeroOrMore<P> {
    pub parser: P,
}

impl<P: Parser> Parser for ZeroOrMore<P> {
    type Output = Vec<P::Output>;

    open spec fn spec_parse(&self, input: Seq<char>) -> ParseResult<
        Seq<<P::Output as DeepView>::V>,
    > {
        ParseResult::Success(
            repeat_remaining(self.parser, input),
            repeat_values(self.parser, input),
        )
    }

    proof fn lemma_parse_within(&self, input: Seq<char>) {
        lemma_repeat_within(self.parser, input);
    }

    fn parse<'a>(&self, input: &'a str) -> Result<(&'a str, Vec<P::Output>), &'a str> {
        let (remaining, results) = parse_repeated(&self.parser, input);
        Ok((remaining, results))
    }
}

/// Repetition combinator: applies `parser` as often as it succeeds and
/// makes forward progress, and succeeds with the collected values, even
/// when there are none.
pub fn zero_or_more<P: Parser>(parser: P) -> (r: ZeroOrMore<P>)
    ensures
        r == (ZeroOrMore { parser }),
{
    ZeroOrMore { parser }
}

/// The parser built by [`one_or_more`]: like [`zero_or_more`], but fails,
/// reporting the original input, when the very first application of the
/// inner parser fails.
pub struct OneOrMore<P> {
    pub parser: P,
}

impl<P: Parser> Parser for OneOrMore<P> {
    type Output = Vec<P::Output>;

    open spec fn spec_parse(&self, input: Seq<char>) -> ParseResult<
        Seq<<P::Output as DeepView>::V>,
    > {
        match self.parser.spec_parse(input) {
            ParseResult::Failure(_) => ParseResult::Failure(input),
            ParseResult::Success(_, _) => ParseResult::Success(
                repeat_remaining(self.parser, input),
                repeat_values(self.parser, input),
            ),
        }
    }

    proof fn lemma_parse_within(&self, input: Seq<char>) {
        lemma_repeat_within(self.parser, input);
        lemma_suffix_refl(input);
    }

    fn parse<'a>(&self, input: &'a str) -> Result<(&'a str, Vec<P::Output>), &'a str> {
        match self.parser.parse(input) {
            Ok((first_next, first_value)) => {
                let made_progress = first_next.unicode_len() < input.unicode_len();
                let mut results: Vec<P::Output> = Vec::new();
                results.push(first_value);
                proof {
                    assert(results.deep_view() =~= seq![first_value.deep_view()]);
                }
                if made_progress {
                    let (remaining, mut rest) = parse_repeated(&self.parser, first_next);
                    let ghost first_collected = results.deep_view();
                    let ghost tail = rest.deep_view();
                    results.append(&mut rest);
                    proof {
                        assert(results.deep_view() =~= first_collected + tail);
                    }
                    Ok((remaining, results))
                } else {
                    Ok((first_next, results))
                }
            },
            Err(_) => Err(input),
        }
    }
}

/// Repetition combinator: like [`zero_or_more`], but the input must start
/// with at least one occurrence, else the whole combinator fails.
pub fn one_or_more<P: Parser>(parser: P) -> (r: OneOrMore<P>)
    ensures
        r == (OneOrMore { parser }),
{
    OneOrMore { parser }
}

} // verus!
