use incarnation::tokenizer::{TokenizeError, Tokenizer};
use incarnation::token::tokens_fit;
use incarnation::{Index, Token};

fn at(start: usize, end: usize) -> Index {
    Index { start, end }
}

fn texts(input: &str) -> Vec<(String, String)> {
    Tokenizer::tokenize(input)
        .unwrap()
        .iter()
        .map(|t| {
            let kind = format!("{:?}", t);
            (kind[..kind.find('(').unwrap()].to_string(), t.as_str(input).to_string())
        })
        .collect()
}

fn pairs(expected: &[(&str, &str)]) -> Vec<(String, String)> {
    expected.iter().map(|(k, t)| (k.to_string(), t.to_string())).collect()
}

#[test]
fn tokenize_brackets() {
    assert_eq!(
        Tokenizer::tokenize("(){}[]<>"),
        Ok(vec![
            Token::LParen(at(0, 1)),
            Token::RParen(at(1, 2)),
            Token::LBrace(at(2, 3)),
            Token::RBrace(at(3, 4)),
            Token::LSBracket(at(4, 5)),
            Token::RSBracket(at(5, 6)),
            Token::LABracket(at(6, 7)),
            Token::RABracket(at(7, 8)),
        ])
    );
}

#[test]
fn tokenize_instruction() {
    let input = "(mov rax (u8 231))";
    assert_eq!(
        Tokenizer::tokenize(input),
        Ok(vec![
            Token::LParen(at(0, 1)),
            Token::Symbol(at(1, 4)),
            Token::Symbol(at(5, 8)),
            Token::LParen(at(9, 10)),
            Token::Symbol(at(10, 12)),
            Token::Integer(at(13, 16)),
            Token::RParen(at(16, 17)),
            Token::RParen(at(17, 18)),
        ])
    );
    assert_eq!(
        texts(input),
        pairs(&[
            ("LParen", "("), ("Symbol", "mov"), ("Symbol", "rax"), ("LParen", "("),
            ("Symbol", "u8"), ("Integer", "231"), ("RParen", ")"), ("RParen", ")"),
        ])
    );
}

#[test]
fn tokenize_numbers_and_names() {
    assert_eq!(
        texts("1 -2 +3 4.5 .5 1e5 -1.5e-3 1/2 + - ... 1x 12ab e1 i 5i"),
        pairs(&[
            ("Integer", "1"), ("Integer", "-2"), ("Integer", "+3"), ("Float", "4.5"),
            ("Float", ".5"), ("Float", "1e5"), ("Float", "-1.5e-3"), ("Symbol", "1/2"),
            ("Symbol", "+"), ("Symbol", "-"), ("Symbol", "..."), ("Symbol", "1x"),
            ("Symbol", "12ab"), ("Symbol", "e1"), ("Symbol", "i"), ("Symbol", "5i"),
        ])
    );
}

#[test]
fn tokenize_number_before_a_bracket() {
    assert_eq!(
        texts("(add 1)"),
        pairs(&[("LParen", "("), ("Symbol", "add"), ("Integer", "1"), ("RParen", ")")])
    );
    assert_eq!(texts("12(3"), pairs(&[("Integer", "12"), ("LParen", "("), ("Integer", "3")]));
}

#[test]
fn tokenize_strings_and_comments() {
    let input = "\"a b\\\"c\" ; line\n#| block |# x #";
    assert_eq!(
        texts(input),
        pairs(&[
            ("String", "\"a b\\\"c\""),
            ("Comment", "; line\n"),
            ("BlockComment", "#| block |#"),
            ("Symbol", "x"),
            ("Pound", "#"),
        ])
    );
    assert_eq!(texts("; to the end"), pairs(&[("Comment", "; to the end")]));
    assert_eq!(texts("a;b"), pairs(&[("Symbol", "a"), ("Comment", ";b")]));
    assert_eq!(texts("a\"b\""), pairs(&[("Symbol", "a"), ("String", "\"b\"")]));
    assert_eq!(
        texts("#| a #| nested |# b |# c"),
        pairs(&[("BlockComment", "#| a #| nested |# b |#"), ("Symbol", "c")])
    );
}

#[test]
fn tokenize_names_with_bars_and_escapes() {
    assert_eq!(texts("|a b| c"), pairs(&[("Symbol", "|a b|"), ("Symbol", "c")]));
    assert_eq!(texts("a|b c|d e"), pairs(&[("Symbol", "a|b c|d"), ("Symbol", "e")]));
    assert_eq!(texts("a\\ b c"), pairs(&[("Symbol", "a\\ b"), ("Symbol", "c")]));
    assert_eq!(texts("\\(x"), pairs(&[("Symbol", "\\(x")]));
    assert_eq!(texts("1\\ 2 3"), pairs(&[("Symbol", "1\\ 2"), ("Integer", "3")]));
    assert_eq!(texts("1|a b| c"), pairs(&[("Symbol", "1|a b|"), ("Symbol", "c")]));
    assert_eq!(texts("label: x"), pairs(&[("Symbol", "label:"), ("Symbol", "x")]));
}

#[test]
fn tokenize_counts_characters() {
    let input = "é (ü) \u{2003}x";
    let tokens = Tokenizer::tokenize(input).unwrap();
    assert_eq!(
        tokens,
        vec![
            Token::Symbol(at(0, 1)),
            Token::LParen(at(2, 3)),
            Token::Symbol(at(3, 4)),
            Token::RParen(at(4, 5)),
            Token::Symbol(at(7, 8)),
        ]
    );
    assert!(tokens_fit(&tokens, input));
    assert_eq!(tokens[2].as_str(input), "ü");
    assert!(!tokens_fit(&tokens, "short"));
}

#[test]
fn tokenize_nothing() {
    assert_eq!(Tokenizer::tokenize(""), Ok(vec![]));
    assert_eq!(Tokenizer::tokenize(" \n\t "), Ok(vec![]));
}

#[test]
fn tokenize_unexpected_end() {
    assert_eq!(Tokenizer::tokenize("\"open"), Err(TokenizeError::EOF));
    assert_eq!(Tokenizer::tokenize("\"a\\"), Err(TokenizeError::EOF));
    assert_eq!(Tokenizer::tokenize("#| open"), Err(TokenizeError::EOF));
    assert_eq!(Tokenizer::tokenize("#| a |"), Err(TokenizeError::EOF));
    assert_eq!(Tokenizer::tokenize("a\\"), Err(TokenizeError::EOF));
    assert_eq!(Tokenizer::tokenize("\\"), Err(TokenizeError::EOF));
    assert_eq!(Tokenizer::tokenize("1\\"), Err(TokenizeError::EOF));
    assert_eq!(Tokenizer::tokenize("(x) \"y"), Err(TokenizeError::EOF));
    assert_eq!(TokenizeError::EOF.to_string(), "Unexpected end of input");
}

#[test]
fn token_kinds() {
    let tokens = Tokenizer::tokenize("( ) x 1 1.5 \"s\" ; c").unwrap();
    assert!(tokens[0].openerp() && !tokens[0].closerp());
    assert!(tokens[1].closerp() && !tokens[1].openerp());
    assert!(tokens[0].opener_match(tokens[1]));
    assert!(!tokens[1].opener_match(tokens[0]));
    assert!(tokens[2].is_symbol());
    assert!(tokens[3].is_integer());
    assert!(tokens[4].is_float());
    assert!(tokens[5].is_string());
    assert!(tokens[6].commentp());
    assert!(!tokens[2].commentp() && !tokens[2].is_char());
    assert_eq!(tokens[5].index(), at(12, 15));
    assert_eq!(Index::new(3, 7), at(2, 7));
}

#[test]
fn tokenize_character_literals() {
    assert_eq!(
        texts("#'a' #'\\n' #''' #'\\'' (#'x')"),
        pairs(&[
            ("Char", "#'a'"), ("Char", "#'\\n'"), ("Char", "#'''"), ("Char", "#'\\''"),
            ("LParen", "("), ("Char", "#'x'"), ("RParen", ")"),
        ])
    );
    assert_eq!(texts("#'ab'"), pairs(&[("Pound", "#"), ("Symbol", "'ab'")]));
    assert_eq!(texts("#'a"), pairs(&[("Pound", "#"), ("Symbol", "'a")]));
    assert_eq!(texts("#'"), pairs(&[("Pound", "#"), ("Symbol", "'")]));
    assert_eq!(texts("#t"), pairs(&[("Pound", "#"), ("Symbol", "t")]));
    assert_eq!(texts("#'é'x"), pairs(&[("Char", "#'é'"), ("Symbol", "x")]));
}
