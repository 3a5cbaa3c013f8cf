use quickfall::commons::Position;
use quickfall::lexer::lexer::{
    lexer_parse_text, parse_keyword, parse_math_operator, parse_number_token, parse_string_token,
};
use quickfall::lexer::token::{LexerToken, LexerTokenType};
use quickfall::lexer::toks::comp::ComparingOperator;
use quickfall::lexer::toks::math::MathOperator;
use quickfall::lexer::LexerParsingError;
use quickfall::utils::hash::WithHash;

/// The hash that the library gives to a name.
fn utils_get_hash(name: &str) -> u64 {
    WithHash::new(name.to_string()).hash
}

fn kinds(text: &str) -> Vec<LexerTokenType> {
    lexer_parse_text(text, "t.qf").unwrap().into_iter().map(|t| t.tok_type).collect()
}

fn at(col: usize) -> Position {
    Position::new("t.qf".to_string(), 1, col)
}

#[test]
fn reserved_words_are_told_by_their_hash() {
    assert_eq!(
        kinds("func ret var struct layout lay true false if else while for"),
        vec![
            LexerTokenType::Function,
            LexerTokenType::Return,
            LexerTokenType::Var,
            LexerTokenType::Struct,
            LexerTokenType::Layout,
            LexerTokenType::Lay,
            LexerTokenType::True,
            LexerTokenType::False,
            LexerTokenType::If,
            LexerTokenType::Else,
            LexerTokenType::While,
            LexerTokenType::For,
            LexerTokenType::EndOfFile,
        ]
    );
}

#[test]
fn other_words_carry_their_text_and_hash() {
    assert_eq!(
        kinds("my_var i32"),
        vec![
            LexerTokenType::KEYWORD("my_var".to_string(), utils_get_hash("my_var")),
            LexerTokenType::KEYWORD("i32".to_string(), utils_get_hash("i32")),
            LexerTokenType::EndOfFile,
        ]
    );
}

#[test]
fn punctuation_and_comparisons() {
    assert_eq!(
        kinds("{ } ( ) [ ] , . & = ! == != < <= > >="),
        vec![
            LexerTokenType::BracketOpen,
            LexerTokenType::BracketClose,
            LexerTokenType::ParenOpen,
            LexerTokenType::ParenClose,
            LexerTokenType::ArrayOpen,
            LexerTokenType::ArrayClose,
            LexerTokenType::Comma,
            LexerTokenType::Dot,
            LexerTokenType::Ampersand,
            LexerTokenType::EqualSign,
            LexerTokenType::ExclamationMark,
            LexerTokenType::ComparingOperator(ComparingOperator::Equal),
            LexerTokenType::ComparingOperator(ComparingOperator::NotEqual),
            LexerTokenType::ComparingOperator(ComparingOperator::Lower),
            LexerTokenType::ComparingOperator(ComparingOperator::LowerEqual),
            LexerTokenType::ComparingOperator(ComparingOperator::Higher),
            LexerTokenType::ComparingOperator(ComparingOperator::HigherEqual),
            LexerTokenType::EndOfFile,
        ]
    );
}

#[test]
fn arithmetic_operators_and_their_assigning_forms() {
    assert_eq!(
        kinds("+ - * / += -= *= /="),
        vec![
            LexerTokenType::MathOperator(MathOperator::ADD, false),
            LexerTokenType::MathOperator(MathOperator::SUBSTRACT, false),
            LexerTokenType::MathOperator(MathOperator::MULTIPLY, false),
            LexerTokenType::MathOperator(MathOperator::DIVIDE, false),
            LexerTokenType::MathOperator(MathOperator::ADD, true),
            LexerTokenType::MathOperator(MathOperator::SUBSTRACT, true),
            LexerTokenType::MathOperator(MathOperator::MULTIPLY, true),
            LexerTokenType::MathOperator(MathOperator::DIVIDE, true),
            LexerTokenType::EndOfFile,
        ]
    );
}

#[test]
fn positions_count_lines_and_columns_from_one() {
    let tokens = lexer_parse_text("var x\n  = 12", "src/main.qf").unwrap();
    let spans: Vec<(usize, usize, usize)> =
        tokens.iter().map(|t| (t.pos.line, t.pos.col, t.end_pos.col)).collect();
    assert_eq!(spans, vec![(1, 1, 4), (1, 5, 6), (2, 3, 4), (2, 5, 7), (2, 7, 8)]);
    assert!(tokens.iter().all(|t| t.pos.file_path == "src/main.qf"));
    assert!(tokens.iter().all(|t| t.end_pos.line == t.pos.line));
    assert_eq!(tokens[3].tok_type, LexerTokenType::IntLit(12));
}

#[test]
fn empty_text_is_one_end_token() {
    let tokens = lexer_parse_text("", "e.qf").unwrap();
    assert_eq!(tokens.len(), 1);
    assert_eq!(tokens[0].tok_type, LexerTokenType::EndOfFile);
    assert_eq!((tokens[0].pos.line, tokens[0].pos.col), (1, 1));
}

#[test]
fn unknown_characters_are_passed_over() {
    assert_eq!(
        kinds("a ; # b"),
        vec![
            LexerTokenType::KEYWORD("a".to_string(), utils_get_hash("a")),
            LexerTokenType::KEYWORD("b".to_string(), utils_get_hash("b")),
            LexerTokenType::EndOfFile,
        ]
    );
}

#[test]
fn number_token_takes_the_run_of_digits() {
    let mut ind = 2;
    let token = parse_number_token("x=1234+5", &mut ind, at(3)).unwrap();
    assert_eq!(token.tok_type, LexerTokenType::IntLit(1234));
    assert_eq!(ind, 6);
    assert_eq!(token.pos, at(3));
    assert_eq!(token.end_pos, at(7));
}

#[test]
fn number_token_takes_the_largest_value_and_no_larger() {
    let mut ind = 0;
    let token = parse_number_token("9223372036854775807", &mut ind, at(1)).unwrap();
    assert_eq!(token.tok_type, LexerTokenType::IntLit(i64::MAX));
    assert_eq!(ind, 19);
    let mut ind = 1;
    let failed = parse_number_token(" 9223372036854775808 ", &mut ind, at(2)).unwrap_err();
    assert_eq!(failed, LexerParsingError::new("Couldn't parse int lit!".to_string(), 1));
    assert_eq!(ind, 1);
    let mut ind = 0;
    assert!(parse_number_token("99999999999999999999999999999999999999999", &mut ind, at(1)).is_err());
}

#[test]
fn number_token_refuses_what_starts_with_no_digit() {
    let mut ind = 0;
    let failed = parse_number_token("x1", &mut ind, at(1)).unwrap_err();
    assert_eq!(failed.position, 0);
    assert_eq!(ind, 0);
    // A numeric character that is no decimal digit starts a number that cannot
    // be read.
    let failed = lexer_parse_text("a \u{00B2}", "t.qf").unwrap_err();
    assert_eq!(failed, LexerParsingError::new("Couldn't parse int lit!".to_string(), 2));
}

#[test]
fn string_token_runs_to_the_closing_quote() {
    let mut ind = 2;
    let token = parse_string_token("a \"hi there\" b", &mut ind, at(3));
    assert_eq!(token.tok_type, LexerTokenType::StringLit("\"hi there\"".to_string()));
    assert_eq!(ind, 12);
    assert_eq!(token.end_pos, at(13));
    let mut ind = 0;
    let open = parse_string_token("\"never closed", &mut ind, at(1));
    assert_eq!(open.tok_type, LexerTokenType::StringLit("\"never closed".to_string()));
    assert_eq!(ind, 13);
}

#[test]
fn keyword_token_takes_letters_digits_underscores_and_dashes() {
    let mut ind = 1;
    let token = parse_keyword("(a_b-c9)", &mut ind, at(2));
    assert_eq!(token.tok_type, LexerTokenType::KEYWORD("a_b-c9".to_string(), utils_get_hash("a_b-c9")));
    assert_eq!(ind, 7);
    assert_eq!(token.end_pos, at(8));
    let mut ind = 0;
    let word = parse_keyword("\u{00E9}t\u{00E9} x", &mut ind, at(1));
    assert_eq!(word.tok_type, LexerTokenType::KEYWORD("\u{00E9}t\u{00E9}".to_string(), utils_get_hash("\u{00E9}t\u{00E9}")));
    assert_eq!(ind, 3);
}

#[test]
fn math_operator_token() {
    let mut ind = 1;
    let token = parse_math_operator("a-=b", &mut ind, at(2)).unwrap();
    assert_eq!(token.tok_type, LexerTokenType::MathOperator(MathOperator::SUBSTRACT, true));
    assert_eq!(ind, 3);
    assert_eq!(token.end_pos, at(4));
    let mut ind = 1;
    let token = parse_math_operator("a*", &mut ind, at(2)).unwrap();
    assert_eq!(token.tok_type, LexerTokenType::MathOperator(MathOperator::MULTIPLY, false));
    assert_eq!(ind, 2);
    let mut ind = 0;
    let failed = parse_math_operator("a*", &mut ind, at(1)).unwrap_err();
    assert_eq!(failed, LexerParsingError::new("Invalid operator sign!".to_string(), 0));
    assert_eq!(ind, 0);
}

#[test]
fn token_checks() {
    let word = LexerToken::new(at(1), at(4), LexerTokenType::KEYWORD("abc".to_string(), 7));
    assert!(word.is_keyword());
    assert!(word.is(LexerTokenType::KEYWORD("abc".to_string(), 7)));
    assert!(!word.is(LexerTokenType::KEYWORD("abc".to_string(), 8)));
    assert!(!word.is(LexerTokenType::Var));
    assert_eq!(word.expects_keyword().unwrap(), ("abc".to_string(), 7));
    assert_eq!(word.as_keyword().unwrap(), ("abc".to_string(), 7));
    assert_eq!(word.expects(LexerTokenType::KEYWORD("abc".to_string(), 7)).unwrap(), true);
    let refused = word.expects(LexerTokenType::Dot).unwrap_err();
    assert_eq!(refused.reason, "Expected a {} but got a {}");
    assert_eq!((refused.start.col, refused.end.col), (1, 4));
    assert_eq!(word.expects_int_lit().unwrap_err().reason, "Expected int litteral here!");
    assert_eq!(word.expects_string_lit().unwrap_err().reason, "Expected string litteral here!");
    assert_eq!(word.expects_comp_operator().unwrap_err().reason, "Expected comparing operator here!");
    assert_eq!(word.expects_math_operator().unwrap_err().reason, "Expected math operator here!");

    let number = LexerToken::make_single_sized(at(9), LexerTokenType::IntLit(-4));
    assert_eq!(number.end_pos, at(10));
    assert_eq!(number.expects_int_lit().unwrap(), -4);
    assert!(!number.is_keyword());
    assert_eq!(number.expects_keyword().unwrap_err().reason, "Expected keyword here!");
    assert_eq!(
        number.as_keyword().unwrap_err(),
        LexerParsingError::new("Token is not a keyword!".to_string(), 0)
    );
    let err = number.make_err("nope");
    assert_eq!(err.reason, "nope");
    assert_eq!((err.start.col, err.end.col), (9, 10));

    let text = LexerToken::new(at(1), at(3), LexerTokenType::StringLit("s".to_string()));
    assert_eq!(text.expects_string_lit().unwrap(), "s");
    let comp = LexerToken::new(at(1), at(2), LexerTokenType::ComparingOperator(ComparingOperator::Lower));
    assert_eq!(comp.expects_comp_operator().unwrap(), ComparingOperator::Lower);
    let math = LexerToken::new(at(1), at(2), LexerTokenType::MathOperator(MathOperator::DIVIDE, true));
    assert_eq!(math.expects_math_operator().unwrap(), (MathOperator::DIVIDE, true));
}
