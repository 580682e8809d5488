//! An example client grammar of the combinator engine: character, keyword,
//! whitespace and identifier parsers, and the little expression language
//! their values belong to.

use vstd::prelude::*;
use vstd::string::StrSliceExecFns;
use vstd::string::StringExecFns;
use crate::combinator::{
    Chain, Condition, OneOrMore, ParseResult, Parser, Predicate, lemma_suffix_refl,
    one_or_more, predicate, repeat_remaining, repeat_values, zero_or_more,
};

verus! {

/// An arithmetic operator of the expression language.
#[derive(Clone, Debug, PartialEq, Eq)]
pub enum Operator {
    Add,
    Sub,
}

/// A named formula: either a plain name, or a name bound to an expression.
#[derive(Debug, PartialEq, Eq)]
pub enum Formula {
    Id(String),
    Mapping(String, Box<Expression>),
}

/// An expression of the little language.
#[derive(Debug, PartialEq, Eq)]
pub enum Expression {
    Num(String),
    Variable(String),
    Mapping(Box<Formula>),
    Binary(Box<Expression>, Operator, Box<Expression>),
    Assign(Box<Expression>, Box<Expression>),
}

/// A parsed program: a sequence of expressions.
pub struct Code {
    expressions: Vec<Expression>,
}

/// The mathematical shape of a [`Formula`], with text as char sequences.
pub enum FormulaView {
    Id(Seq<char>),
    Mapping(Seq<char>, Box<ExpressionView>),
}

/// The mathematical shape of an [`Expression`], with text as char
/// sequences.
pub enum ExpressionView {
    Num(Seq<char>),
    Variable(Seq<char>),
    Mapping(Box<FormulaView>),
    Binary(Box<ExpressionView>, Operator, Box<ExpressionView>),
    Assign(Box<ExpressionView>, Box<ExpressionView>),
}

pub open spec fn view_formula(f: Formula) -> FormulaView
    decreases f,
{
    match f {
        Formula::Id(name) => FormulaView::Id(name@),
        Formula::Mapping(name, body) => FormulaView::Mapping(name@, Box::new(view_expression(*body))),
    }
}

pub open spec fn view_expression(e: Expression) -> ExpressionView
    decreases e,
{
    match e {
        Expression::Num(text) => ExpressionView::Num(text@),
        Expression::Variable(name) => ExpressionView::Variable(name@),
        Expression::Mapping(formula) => ExpressionView::Mapping(Box::new(view_formula(*formula))),
        Expression::Binary(lhs, op, rhs) => ExpressionView::Binary(
            Box::new(view_expression(*lhs)),
            op,
            Box::new(view_expression(*rhs)),
        ),
        Expression::Assign(target, value) => ExpressionView::Assign(
            Box::new(view_expression(*target)),
            Box::new(view_expression(*value)),
        ),
    }
}

impl DeepView for Formula {
    type V = FormulaView;

    open spec fn deep_view(&self) -> FormulaView {
        view_formula(*self)
    }
}

impl DeepView for Expression {
    type V = ExpressionView;

    open spec fn deep_view(&self) -> ExpressionView {
        view_expression(*self)
    }
}

impl Formula {
    /// The printable text of a formula: a plain name prints as itself, a
    /// name bound to an expression prints as nothing.
    pub fn to_text(&self) -> (r: String)
        ensures
            (match self {
                Formula::Id(name) => r@ == name@,
                Formula::Mapping(_, _) => r@ == Seq::<char>::empty(),
            }),
    {
        match self {
            Formula::Id(name) => name.clone(),
            Formula::Mapping(_, _) => String::new(),
        }
    }
}

impl Expression {
    /// The printable text of an expression: a number or a variable prints
    /// its text after the `Number: ` tag, every other shape prints the
    /// bare tag.
    pub fn to_text(&self) -> (r: String)
        ensures
            (match self {
                Expression::Num(text) => r@ == "Number: "@ + text@,
                Expression::Variable(text) => r@ == "Number: "@ + text@,
                _ => r@ == "Number: "@,
            }),
    {
        let mut out = String::from_str("Number: ");
        match self {
            Expression::Num(text) => out.append(text.as_str()),
            Expression::Variable(text) => out.append(text.as_str()),
            _ => {},
        }
        out
    }
}

/// What `char::is_whitespace` returns: whether the character has the
/// Unicode whitespace property, a function of the character alone.
pub uninterp spec fn is_space_char(c: char) -> bool;

/// Relies on char::is_whitespace from std: decides the Unicode whitespace
/// property of the character.
#[verifier::external_body]
fn char_is_whitespace(c: char) -> (r: bool)
    ensures
        r == is_space_char(c),
{
    c.is_whitespace()
}

/// What `char::is_alphabetic` returns: whether the character has the
/// Unicode alphabetic property, a function of the character alone.
pub uninterp spec fn is_alpha_char(c: char) -> bool;

/// Relies on char::is_alphabetic from std: decides the Unicode alphabetic
/// property of the character.
#[verifier::external_body]
fn char_is_alphabetic(c: char) -> (r: bool)
    ensures
        r == is_alpha_char(c),
{
    c.is_alphabetic()
}

/// What `char::is_alphanumeric` returns: whether the character has the
/// Unicode alphabetic or numeric property, a function of the character
/// alone.
pub uninterp spec fn is_alnum_char(c: char) -> bool;

/// Relies on char::is_alphanumeric from std: decides the Unicode
/// alphanumeric property of the character.
#[verifier::external_body]
fn char_is_alphanumeric(c: char) -> (r: bool)
    ensures
        r == is_alnum_char(c),
{
    c.is_alphanumeric()
}

/// What `char::is_numeric` returns: whether the character has the Unicode
/// numeric property, a function of the character alone.
pub uninterp spec fn is_digit_char(c: char) -> bool;

/// Relies on char::is_numeric from std: decides the Unicode numeric
/// property of the character.
#[verifier::external_body]
fn char_is_numeric(c: char) -> (r: bool)
    ensures
        r == is_digit_char(c),
{
    c.is_numeric()
}

/// The test for numeric characters.
pub struct IsNumeric;

impl Condition<char> for IsNumeric {
    open spec fn spec_check(&self, c: char) -> bool {
        is_digit_char(c)
    }

    fn check(&self, c: &char) -> (r: bool) {
        char_is_numeric(*c)
    }
}

/// The test for one fixed character.
pub struct IsExactly {
    pub expected: char,
}

impl Condition<char> for IsExactly {
    open spec fn spec_check(&self, c: char) -> bool {
        c == self.expected
    }

    fn check(&self, c: &char) -> (r: bool) {
        *c == self.expected
    }
}

/// The continuation that, given one parsed character, expects that same
/// character next: `and_then(any_char(), SameAgain)` parses a doubled
/// character.
pub struct SameAgain;

impl Chain<char> for SameAgain {
    type Target = Predicate<AnyChar, IsExactly>;

    open spec fn spec_make(&self, c: char) -> Predicate<AnyChar, IsExactly> {
        Predicate { parser: AnyChar, pred: IsExactly { expected: c } }
    }

    fn make(&self, c: char) -> (r: Predicate<AnyChar, IsExactly>) {
        predicate(any_char(), IsExactly { expected: c })
    }
}

/// The test for whitespace characters.
pub struct IsWhitespace;

impl Condition<char> for IsWhitespace {
    open spec fn spec_check(&self, c: char) -> bool {
        is_space_char(c)
    }

    fn check(&self, c: &char) -> (r: bool) {
        char_is_whitespace(*c)
    }
}

/// The test for alphabetic characters.
pub struct IsAlphabetic;

impl Condition<char> for IsAlphabetic {
    open spec fn spec_check(&self, c: char) -> bool {
        is_alpha_char(c)
    }

    fn check(&self, c: &char) -> (r: bool) {
        char_is_alphabetic(*c)
    }
}

/// The test for alphanumeric characters.
pub struct IsAlphanumeric;

impl Condition<char> for IsAlphanumeric {
    open spec fn spec_check(&self, c: char) -> bool {
        is_alnum_char(c)
    }

    fn check(&self, c: &char) -> (r: bool) {
        char_is_alphanumeric(*c)
    }
}

/// The parser built by [`any_char`]: consumes exactly the first character
/// of a non-empty input and produces it; fails on an empty input.
pub struct AnyChar;

impl Parser for AnyChar {
    type Output = char;

    open spec fn spec_parse(&self, input: Seq<char>) -> ParseResult<char> {
        if input.len() == 0 {
            ParseResult::Failure(input)
        } else {
            ParseResult::Success(input.subrange(1, input.len() as int), input[0])
        }
    }

    proof fn lemma_parse_within(&self, input: Seq<char>) {
        lemma_suffix_refl(input);
    }

    fn parse<'a>(&self, input: &'a str) -> Result<(&'a str, char), &'a str> {
        let length = input.unicode_len();
        if length == 0 {
            Err(input)
        } else {
            let value = input.get_char(0);
            let remaining = input.substring_char(1, length);
            Ok((remaining, value))
        }
    }
}

/// The primitive parser that consumes one character, whichever it is.
pub fn any_char() -> (r: AnyChar)
    ensures
        r == (AnyChar),
{
    AnyChar
}

/// The parser built by [`literal`]: succeeds exactly when the input
/// starts with the given keyword, consuming it and producing it as a
/// variable expression; fails reporting the whole input otherwise.
pub struct Literal<'i> {
    pub id: &'i str,
}

impl<'i> Parser for Literal<'i> {
    type Output = Expression;

    open spec fn spec_parse(&self, input: Seq<char>) -> ParseResult<ExpressionView> {
        if self.id@.len() <= input.len() && input.subrange(0, self.id@.len() as int)
            == self.id@ {
            ParseResult::Success(
                input.subrange(self.id@.len() as int, input.len() as int),
                ExpressionView::Variable(self.id@),
            )
        } else {
            ParseResult::Failure(input)
        }
    }

    proof fn lemma_parse_within(&self, input: Seq<char>) {
        lemma_suffix_refl(input);
    }

    fn parse<'a>(&self, input: &'a str) -> Result<(&'a str, Expression), &'a str> {
        let id_len = self.id.unicode_len();
        let input_len = input.unicode_len();
        if input_len < id_len {
            return Err(input);
        }
        let mut i: usize = 0;
        while i < id_len
            invariant
                i <= id_len,
                id_len == self.id@.len(),
                input_len == input@.len(),
                id_len <= input_len,
                forall|j: int| 0 <= j < i ==> input@[j] == self.id@[j],
            decreases id_len - i,
        {
            let expected = self.id.get_char(i);
            let found = input.get_char(i);
            if expected != found {
                proof {
                    assert(input@.subrange(0, id_len as int)[i as int] == input@[i as int]);
                }
                return Err(input);
            }
            i += 1;
        }
        proof {
            assert(input@.subrange(0, id_len as int) =~= self.id@);
        }
        let remaining = input.substring_char(id_len, input_len);
        Ok((remaining, Expression::Variable(self.id.to_owned())))
    }
}

/// A keyword parser: matches the given text at the start of the input.
pub fn literal<'i>(id: &'i str) -> (r: Literal<'i>)
    ensures
        r == (Literal { id }),
{
    Literal { id }
}

/// The parser built by [`whitespaces`]: consumes one or more whitespace
/// characters and produces nothing; fails reporting the whole input when
/// the input does not start with whitespace.
pub struct Whitespaces;

impl Parser for Whitespaces {
    type Output = ();

    open spec fn spec_parse(&self, input: Seq<char>) -> ParseResult<()> {
        match (OneOrMore {
            parser: Predicate { parser: AnyChar, pred: IsWhitespace },
        }).spec_parse(input) {
            ParseResult::Success(remaining, _) => ParseResult::Success(remaining, ()),
            ParseResult::Failure(_) => ParseResult::Failure(input),
        }
    }

    proof fn lemma_parse_within(&self, input: Seq<char>) {
        (OneOrMore {
            parser: Predicate { parser: AnyChar, pred: IsWhitespace },
        }).lemma_parse_within(input);
        lemma_suffix_refl(input);
    }

    fn parse<'a>(&self, input: &'a str) -> Result<(&'a str, ()), &'a str> {
        let spaces = predicate(any_char(), IsWhitespace);
        let parser = one_or_more(spaces);
        match parser.parse(input) {
            Ok((next, _token)) => Ok((next, ())),
            Err(_) => Err(input),
        }
    }
}

/// A whitespace skipper: one or more whitespace characters.
pub fn whitespaces() -> (r: Whitespaces)
    ensures
        r == (Whitespaces),
{
    Whitespaces
}

/// The parser built by [`identifier`]: an alphabetic first character
/// followed by any run of alphanumeric characters, produced as a plain
/// named formula; fails reporting the whole input when the first
/// character is not alphabetic.
pub struct Identifier;

impl Parser for Identifier {
    type Output = Formula;

    open spec fn spec_parse(&self, input: Seq<char>) -> ParseResult<FormulaView> {
        match (Predicate { parser: AnyChar, pred: IsAlphabetic }).spec_parse(input) {
            ParseResult::Failure(_) => ParseResult::Failure(input),
            ParseResult::Success(next, first) => ParseResult::Success(
                repeat_remaining(Predicate { parser: AnyChar, pred: IsAlphanumeric }, next),
                FormulaView::Id(
                    seq![first] + repeat_values(
                        Predicate { parser: AnyChar, pred: IsAlphanumeric },
                        next,
                    ),
                ),
            ),
        }
    }

    proof fn lemma_parse_within(&self, input: Seq<char>) {
        let alpha = Predicate { parser: AnyChar, pred: IsAlphabetic };
        alpha.lemma_parse_within(input);
        lemma_suffix_refl(input);
        match alpha.spec_parse(input) {
            ParseResult::Success(next, _) => {
                crate::combinator::lemma_repeat_within(
                    Predicate { parser: AnyChar, pred: IsAlphanumeric },
                    next,
                );
                crate::combinator::lemma_suffix_trans(
                    repeat_remaining(Predicate { parser: AnyChar, pred: IsAlphanumeric }, next),
                    next,
                    input,
                );
            },
            ParseResult::Failure(_) => {},
        }
    }

    fn parse<'a>(&self, input: &'a str) -> Result<(&'a str, Formula), &'a str> {
        let alpha = predicate(any_char(), IsAlphabetic);
        let alphanumeric = zero_or_more(predicate(any_char(), IsAlphanumeric));
        match alpha.parse(input) {
            Ok((next, first)) => match alphanumeric.parse(next) {
                Ok((last, rest)) => {
                    let mut name = String::new();
                    name.push(first);
                    proof {
                        assert(name@ =~= seq![first] + rest@.subrange(0, 0));
                    }
                    let mut i: usize = 0;
                    while i < rest.len()
                        invariant
                            i <= rest.len(),
                            name@ == seq![first] + rest@.subrange(0, i as int),
                        decreases rest.len() - i,
                    {
                        name.push(rest[i]);
                        proof {
                            assert(seq![first] + rest@.subrange(0, i + 1) =~= (seq![first]
                                + rest@.subrange(0, i as int)).push(rest@[i as int]));
                        }
                        i += 1;
                    }
                    proof {
                        assert(rest@.subrange(0, rest@.len() as int) =~= rest@);
                        assert(rest.deep_view() =~= rest@);
                    }
                    Ok((last, Formula::Id(name)))
                },
                // a zero-or-more repetition always succeeds, so this
                // arm can never be taken
                Err(_) => {
                    proof {
                        assert(false);
                    }
                    Err(next)
                },
            },
            Err(_) => Err(input),
        }
    }
}

/// An identifier parser: an alphabetic character followed by
/// alphanumerics.
pub fn identifier() -> (r: Identifier)
    ensures
        r == (Identifier),
{
    Identifier
}

/// The length of the longest prefix of `input` whose characters all pass
/// the test `pred`.
pub open spec fn run_length<F: Condition<char>>(pred: F, input: Seq<char>) -> nat
    decreases input.len(),
{
    if input.len() == 0 || !pred.spec_check(input[0]) {
        0
    } else {
        1 + run_length(pred, input.subrange(1, input.len() as int))
    }
}

pub proof fn lemma_run_length_bound<F: Condition<char>>(pred: F, input: Seq<char>)
    ensures
        run_length(pred, input) <= input.len(),
    decreases input.len(),
{
    if input.len() != 0 && pred.spec_check(input[0]) {
        lemma_run_length_bound(pred, input.subrange(1, input.len() as int));
    }
}

/// A repetition of a one-character test consumes exactly the longest
/// prefix of characters that pass the test, and collects exactly those
/// characters, in order.
pub proof fn lemma_char_run<F: Condition<char>>(pred: F, input: Seq<char>)
    ensures
        repeat_values(Predicate { parser: AnyChar, pred }, input) == input.subrange(
            0,
            run_length(pred, input) as int,
        ),
        repeat_remaining(Predicate { parser: AnyChar, pred }, input) == input.subrange(
            run_length(pred, input) as int,
            input.len() as int,
        ),
    decreases input.len(),
{
    lemma_run_length_bound(pred, input);
    if input.len() == 0 || !pred.spec_check(input[0]) {
        assert(input.subrange(0, 0) =~= Seq::<char>::empty());
        assert(input.subrange(0, input.len() as int) =~= input);
    } else {
        let rest = input.subrange(1, input.len() as int);
        lemma_char_run(pred, rest);
        lemma_run_length_bound(pred, rest);
        let k = run_length(pred, rest) as int;
        assert(seq![input[0]] + rest.subrange(0, k) =~= input.subrange(0, k + 1));
        assert(rest.subrange(k, rest.len() as int) =~= input.subrange(k + 1, input.len() as int));
    }
}

/// What `whitespaces` does, in closed form: it consumes exactly the
/// longest whitespace prefix of the input, and succeeds exactly when that
/// prefix is non-empty.
pub proof fn lemma_whitespaces_exact(input: Seq<char>)
    ensures
        (Whitespaces).spec_parse(input) == (if run_length(IsWhitespace, input) == 0 {
            ParseResult::<()>::Failure(input)
        } else {
            ParseResult::<()>::Success(
                input.subrange(run_length(IsWhitespace, input) as int, input.len() as int),
                (),
            )
        }),
{
    lemma_char_run(IsWhitespace, input);
}

/// What `identifier` does, in closed form: it succeeds exactly when the
/// input starts with an alphabetic character, consumes that character and
/// the longest alphanumeric run after it, and the collected name is
/// exactly the consumed prefix.
pub proof fn lemma_identifier_exact(input: Seq<char>)
    ensures
        (Identifier).spec_parse(input) == (if input.len() == 0 || !is_alpha_char(input[0]) {
            ParseResult::<FormulaView>::Failure(input)
        } else {
            ParseResult::<FormulaView>::Success(
                input.subrange(
                    1 + run_length(
                        IsAlphanumeric,
                        input.subrange(1, input.len() as int),
                    ) as int,
                    input.len() as int,
                ),
                FormulaView::Id(
                    input.subrange(
                        0,
                        1 + run_length(
                            IsAlphanumeric,
                            input.subrange(1, input.len() as int),
                        ) as int,
                    ),
                ),
            )
        }),
{
    if input.len() != 0 && is_alpha_char(input[0]) {
        let rest = input.subrange(1, input.len() as int);
        lemma_char_run(IsAlphanumeric, rest);
        lemma_run_length_bound(IsAlphanumeric, rest);
        let k = run_length(IsAlphanumeric, rest) as int;
        assert(seq![input[0]] + rest.subrange(0, k) =~= input.subrange(0, k + 1));
        assert(rest.subrange(k, rest.len() as int) =~= input.subrange(k + 1, input.len() as int));
    }
}

/// Relies on String::push from std: appends exactly the one character at
/// the end of the string.
pub assume_specification[ String::push ](s: &mut String, ch: char)
    ensures
        final(s)@ == old(s)@.push(ch),
;

} // verus!
