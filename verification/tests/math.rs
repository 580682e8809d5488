use lang::combinator::{bind, Parser};
use lang::math::{identifier, literal, whitespaces, Formula};

#[test]
fn whitespace_test() {
    let input = "   abc";
    match whitespaces().parse(input) {
        Ok((next, _)) => assert_eq!(next, "abc"),
        Err(_) => panic!("the whitespace parser failed"),
    }
}

#[test]
fn literal_test() {
    let let_parser = literal("let");
    let text = "let x = 2;";
    match let_parser.parse(text) {
        Ok((next, result)) => {
            assert_eq!(result.to_text(), "Number: let");
            assert_eq!(next, " x = 2;");
        }
        Err(_) => panic!("the literal parser failed"),
    }
}

#[test]
fn valid_identifier_test() {
    let text = "name1 = 2";
    match bind(identifier(), whitespaces()).parse(text) {
        Ok((last, (result, _spaces))) => {
            assert_eq!(result, Formula::Id("name1".to_string()));
            assert_eq!(last, "= 2");
        }
        Err(_) => panic!("the identifier parser failed"),
    }
}

#[test]
fn invalid_identifier_test() {
    let text = "2name = 2";
    match identifier().parse(text) {
        Err(error) => assert_eq!(error, "2name = 2"),
        Ok(_) => panic!("the identifier parser accepted a leading digit"),
    }
}
