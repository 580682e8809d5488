use lang::combinator::{
    and_then, bind, either, left, one_or_more, predicate, right, zero_or_more, Identity, Parser,
};
use lang::math::{
    any_char, identifier, literal, whitespaces, Expression, Formula, IsNumeric, IsWhitespace,
    SameAgain,
};

#[test]
fn keyword_on_match() {
    assert_eq!(
        literal("let").parse("let x"),
        Ok((" x", Expression::Variable("let".to_string())))
    );
}

#[test]
fn keyword_on_mismatch() {
    assert_eq!(literal("let").parse("var x"), Err("var x"));
}

#[test]
fn identifier_stops_at_symbol() {
    assert_eq!(
        identifier().parse("name1 = 2"),
        Ok((" = 2", Formula::Id("name1".to_string())))
    );
}

#[test]
fn identifier_needs_alphabetic_start() {
    assert_eq!(identifier().parse("2name"), Err("2name"));
}

#[test]
fn whitespace_consumes_all_spaces() {
    assert_eq!(whitespaces().parse("   abc"), Ok(("abc", ())));
}

#[test]
fn no_digits_collects_nothing() {
    let digits = zero_or_more(predicate(any_char(), IsNumeric));
    assert_eq!(digits.parse("abc"), Ok(("abc", Vec::new())));
}

#[test]
fn map_identity_changes_nothing() {
    assert_eq!(
        lang::combinator::map(identifier(), Identity).parse("name1 = 2"),
        identifier().parse("name1 = 2")
    );
    assert_eq!(
        lang::combinator::map(identifier(), Identity).parse("2name"),
        identifier().parse("2name")
    );
}

#[test]
fn either_keeps_first_success() {
    assert_eq!(
        either(literal("let"), literal("le")).parse("let x"),
        literal("let").parse("let x")
    );
}

#[test]
fn either_falls_back_on_original_input() {
    assert_eq!(
        either(literal("var"), literal("let")).parse("let x"),
        Ok((" x", Expression::Variable("let".to_string())))
    );
}

#[test]
fn zero_or_more_never_fails() {
    let spaces = zero_or_more(predicate(any_char(), IsWhitespace));
    assert!(spaces.parse("abc").is_ok());
    assert!(spaces.parse("").is_ok());
    assert!(spaces.parse("  x").is_ok());
}

#[test]
fn one_or_more_fails_exactly_when_nothing_collects() {
    let some_digits = one_or_more(predicate(any_char(), IsNumeric));
    let any_digits = zero_or_more(predicate(any_char(), IsNumeric));
    assert_eq!(some_digits.parse("abc"), Err("abc"));
    assert_eq!(any_digits.parse("abc"), Ok(("abc", Vec::new())));
    assert_eq!(some_digits.parse("12a"), Ok(("a", vec!['1', '2'])));
    assert_eq!(any_digits.parse("12a"), Ok(("a", vec!['1', '2'])));
}

#[test]
fn rejection_reports_whole_input() {
    let space = predicate(any_char(), IsWhitespace);
    assert_eq!(space.parse("xyz"), Err("xyz"));
}

#[test]
fn bind_pairs_the_two_values() {
    assert_eq!(
        bind(identifier(), whitespaces()).parse("ab cd"),
        Ok(("cd", (Formula::Id("ab".to_string()), ())))
    );
}

#[test]
fn bind_failure_reports_the_failing_step() {
    assert_eq!(bind(literal("a"), literal("b")).parse("ac"), Err("c"));
}

#[test]
fn left_keeps_the_first_value() {
    assert_eq!(
        left(identifier(), whitespaces()).parse("ab cd"),
        Ok(("cd", Formula::Id("ab".to_string())))
    );
}

#[test]
fn right_keeps_the_second_value() {
    assert_eq!(
        right(whitespaces(), identifier()).parse("  ab!"),
        Ok(("!", Formula::Id("ab".to_string())))
    );
}

#[test]
fn and_then_runs_the_built_parser() {
    let doubled = and_then(any_char(), SameAgain);
    assert_eq!(doubled.parse("aab"), Ok(("b", 'a')));
    assert_eq!(doubled.parse("abc"), Err("bc"));
}

#[test]
fn repetition_stops_without_forward_progress() {
    let empties = zero_or_more(literal(""));
    assert_eq!(
        empties.parse("abc"),
        Ok(("abc", vec![Expression::Variable(String::new())]))
    );
}

#[test]
fn one_or_more_collects_each_occurrence() {
    let spaces = one_or_more(predicate(any_char(), IsWhitespace));
    assert_eq!(spaces.parse("  a"), Ok(("a", vec![' ', ' '])));
}

#[test]
fn formula_prints_its_name() {
    assert_eq!(Formula::Id("name1".to_string()).to_text(), "name1");
}

#[test]
fn expression_prints_with_tag() {
    assert_eq!(Expression::Num("42".to_string()).to_text(), "Number: 42");
    assert_eq!(Expression::Variable("x".to_string()).to_text(), "Number: x");
    assert_eq!(
        Expression::Assign(
            Box::new(Expression::Variable("x".to_string())),
            Box::new(Expression::Num("2".to_string()))
        )
        .to_text(),
        "Number: "
    );
}
