//! The scanner: it cuts a source text into tokens, each with its span.
//!
//! Offsets, lines and columns count characters. Lines and columns start at
//! one.

use vstd::prelude::*;
use crate::commons::Position;
use crate::errors::errors::{INVALID_OPERATOR_SIGN, IO_ERROR_READ, PARSE_INT_LIT};
use crate::lexer::token::{LexerToken, LexerTokenType};
use crate::lexer::toks::comp::ComparingOperator;
use crate::lexer::toks::math::MathOperator;
use crate::lexer::{LexerParseResult, LexerParsingError};
use crate::utils::hash::{spec_name_hash, utils_get_hash};

verus! {

pub const FUNC_KEYWORD_HASH: u64 = 17439195341824537259;

pub const RET_KEYWORD_HASH: u64 = 9222097151127739705;

pub const VAR_KEYWORD_HASH: u64 = 10000921911505692860;

pub const STRUCT_KEYWORD_HASH: u64 = 9993791738993869954;

pub const LAYOUT_KEYWORD_HASH: u64 = 3186948275885044588;

pub const LAY_KEYWORD_HASH: u64 = 5285095872557529407;

pub const FALSE_KEYWORD_HASH: u64 = 8985926696363166359;

pub const TRUE_KEYWORD_HASH: u64 = 2326242343701258586;

pub const IF_KEYWORD_HASH: u64 = 14565880314940941169;

pub const ELSE_KEYWORD_HASH: u64 = 15870633062462684568;

pub const WHILE_KEYWORD_HASH: u64 = 10666076348663826897;

pub const FOR_KEYWORD_HASH: u64 = 8246706989536534387;

/// What `char::is_alphabetic` says of a character.
pub uninterp spec fn spec_is_alphabetic(c: char) -> bool;

/// What `char::is_numeric` says of a character.
pub uninterp spec fn spec_is_numeric(c: char) -> bool;

/// Calls `char::is_alphabetic`: whether the character has the Unicode property
/// `Alphabetic`.
#[verifier::external_body]
fn char_is_alphabetic(c: char) -> (r: bool)
    ensures
        r == spec_is_alphabetic(c),
{
    c.is_alphabetic()
}

/// Calls `char::is_numeric`: whether the character is in one of the Unicode
/// categories of numbers.
#[verifier::external_body]
fn char_is_numeric(c: char) -> (r: bool)
    ensures
        r == spec_is_numeric(c),
{
    c.is_numeric()
}

pub open spec fn spec_is_ascii_digit(c: char) -> bool {
    '0' <= c && c <= '9'
}

/// The value of a decimal digit.
pub open spec fn spec_digit(c: char) -> int {
    c as int - '0' as int
}

/// Whether a character may stand in a word: letters, numbers, `_` and `-`.
pub open spec fn spec_is_word_char(c: char) -> bool {
    spec_is_alphabetic(c) || spec_is_numeric(c) || c == '_' || c == '-'
}

/// The first offset at or after `from` at which no decimal digit stands.
pub open spec fn spec_digits_end(text: Seq<char>, from: int) -> int
    decreases text.len() - from,
{
    if from < 0 || from >= text.len() || !spec_is_ascii_digit(text[from]) {
        from
    } else {
        spec_digits_end(text, from + 1)
    }
}

/// The first offset at or after `from` at which no word character stands.
pub open spec fn spec_word_end(text: Seq<char>, from: int) -> int
    decreases text.len() - from,
{
    if from < 0 || from >= text.len() || !spec_is_word_char(text[from]) {
        from
    } else {
        spec_word_end(text, from + 1)
    }
}

/// The offset after the first `"` at or after `from`; the end of the text if
/// there is none.
pub open spec fn spec_string_end(text: Seq<char>, from: int) -> int
    decreases text.len() - from,
{
    if from < 0 || from >= text.len() {
        from
    } else if text[from] == '"' {
        from + 1
    } else {
        spec_string_end(text, from + 1)
    }
}

/// The number that a run of decimal digits stands for.
pub open spec fn spec_decimal(digits: Seq<char>) -> int
    decreases digits.len(),
{
    if digits.len() == 0 {
        0
    } else {
        spec_decimal(digits.drop_last()) * 10 + spec_digit(digits.last())
    }
}

/// The kind of token that a word is: a reserved word by the hash of its text,
/// any other word with its text and hash.
pub open spec fn spec_word_kind(kind: LexerTokenType, text: Seq<char>) -> bool {
    let hash = spec_name_hash(text);
    if hash == FUNC_KEYWORD_HASH {
        kind is Function
    } else if hash == RET_KEYWORD_HASH {
        kind is Return
    } else if hash == STRUCT_KEYWORD_HASH {
        kind is Struct
    } else if hash == LAYOUT_KEYWORD_HASH {
        kind is Layout
    } else if hash == LAY_KEYWORD_HASH {
        kind is Lay
    } else if hash == TRUE_KEYWORD_HASH {
        kind is True
    } else if hash == FALSE_KEYWORD_HASH {
        kind is False
    } else if hash == VAR_KEYWORD_HASH {
        kind is Var
    } else if hash == IF_KEYWORD_HASH {
        kind is If
    } else if hash == ELSE_KEYWORD_HASH {
        kind is Else
    } else if hash == WHILE_KEYWORD_HASH {
        kind is While
    } else if hash == FOR_KEYWORD_HASH {
        kind is For
    } else {
        kind matches LexerTokenType::KEYWORD(s, h) && s@ == text && h == hash
    }
}

/// Whether a token spans `width` columns from `start`.
pub open spec fn spec_spans(token: LexerToken, start: Position, width: int) -> bool {
    &&& token.pos == start
    &&& token.end_pos.line == start.line
    &&& token.end_pos.col == start.col + width
    &&& token.end_pos.file_path@ == start.file_path@
}

fn is_ascii_digit(c: char) -> (r: bool)
    ensures
        r == spec_is_ascii_digit(c),
{
    '0' <= c && c <= '9'
}

fn is_word_char(c: char) -> (r: bool)
    ensures
        r == spec_is_word_char(c),
{
    char_is_alphabetic(c) || char_is_numeric(c) || c == '_' || c == '-'
}

proof fn lemma_digits_end_bounds(text: Seq<char>, from: int)
    requires
        0 <= from <= text.len(),
    ensures
        from <= spec_digits_end(text, from) <= text.len(),
    decreases text.len() - from,
{
    if from < text.len() && spec_is_ascii_digit(text[from]) {
        lemma_digits_end_bounds(text, from + 1);
    }
}

proof fn lemma_word_end_bounds(text: Seq<char>, from: int)
    requires
        0 <= from <= text.len(),
    ensures
        from <= spec_word_end(text, from) <= text.len(),
    decreases text.len() - from,
{
    if from < text.len() && spec_is_word_char(text[from]) {
        lemma_word_end_bounds(text, from + 1);
    }
}

/// Scans an arithmetic operator at `*ind`: one of `+ - * /`, which assigns if
/// `=` follows it directly.
pub fn parse_math_operator(contents: &str, ind: &mut usize, start_pos: Position) -> (r:
    LexerParseResult<LexerToken>)
    requires
        *old(ind) < contents@.len(),
        start_pos.col + 2 <= usize::MAX,
    ensures
        match contents@[*old(ind) as int] {
            '+' | '-' | '*' | '/' => {
                let assigns = *old(ind) + 1 < contents@.len() && contents@[*old(ind) + 1] == '=';
                let operator = match contents@[*old(ind) as int] {
                    '+' => MathOperator::ADD,
                    '-' => MathOperator::SUBSTRACT,
                    '*' => MathOperator::MULTIPLY,
                    _ => MathOperator::DIVIDE,
                };
                &&& r is Ok
                &&& r->Ok_0.tok_type == LexerTokenType::MathOperator(operator, assigns)
                &&& spec_spans(
                    r->Ok_0,
                    start_pos,
                    if assigns {
                        2
                    } else {
                        1
                    },
                )
                &&& *final(ind) == *old(ind) + if assigns {
                    2int
                } else {
                    1int
                }
            },
            _ => r is Err && r->Err_0.reason@ == INVALID_OPERATOR_SIGN@ && r->Err_0.position
                == *old(ind) && *final(ind) == *old(ind),
        },
{
    let operator = match contents.get_char(*ind) {
        '+' => MathOperator::ADD,
        '-' => MathOperator::SUBSTRACT,
        '*' => MathOperator::MULTIPLY,
        '/' => MathOperator::DIVIDE,
        _ => {
            return Err(LexerParsingError::new(INVALID_OPERATOR_SIGN.to_string(), *ind));
        },
    };
    let len = contents.unicode_len();
    let assigns = *ind + 1 < len && contents.get_char(*ind + 1) == '=';
    let width: usize = if assigns {
        2
    } else {
        1
    };
    *ind = *ind + width;
    let end = start_pos.increment_by(width);
    Ok(LexerToken::new(start_pos, end, LexerTokenType::MathOperator(operator, assigns)))
}

/// Scans an integer literal at `*ind`: a run of decimal digits whose value fits
/// in 64 bits.
pub fn parse_number_token(str: &str, ind: &mut usize, start_pos: Position) -> (r: LexerParseResult<
    LexerToken,
>)
    requires
        *old(ind) < str@.len(),
        start_pos.col + str@.len() <= usize::MAX,
    ensures
        ({
            let end = spec_digits_end(str@, *old(ind) + 1);
            let value = spec_decimal(str@.subrange(*old(ind) as int, end));
            if spec_is_ascii_digit(str@[*old(ind) as int]) && value <= i64::MAX {
                &&& r is Ok
                &&& r->Ok_0.tok_type == LexerTokenType::IntLit(value as i64)
                &&& spec_spans(r->Ok_0, start_pos, end - *old(ind))
                &&& *final(ind) == end
            } else {
                r is Err && r->Err_0.reason@ == PARSE_INT_LIT@ && r->Err_0.position == *old(ind)
                    && *final(ind) == *old(ind)
            }
        }),
{
    let len = str.unicode_len();
    let start: usize = *ind;
    let first = str.get_char(start);
    if !is_ascii_digit(first) {
        return Err(LexerParsingError::new(PARSE_INT_LIT.to_string(), start));
    }
    let mut value: i128 = (first as u32 - '0' as u32) as i128;
    let mut overflow: bool = false;
    let mut end: usize = start + 1;
    proof {
        assert(str@.subrange(start as int, start + 1).drop_last() =~= Seq::<char>::empty());
        assert(spec_decimal(str@.subrange(start as int, start + 1).drop_last()) == 0);
    }
    while end < len && is_ascii_digit(str.get_char(end))
        invariant
            start < end <= len,
            len == str@.len(),
            spec_digits_end(str@, start + 1) == spec_digits_end(str@, end as int),
            !overflow ==> value == spec_decimal(str@.subrange(start as int, end as int)),
            !overflow ==> 0 <= value <= i64::MAX,
            overflow ==> spec_decimal(str@.subrange(start as int, end as int)) > i64::MAX,
            0 <= spec_decimal(str@.subrange(start as int, end as int)),
            forall|k: int| start <= k < end ==> spec_is_ascii_digit(#[trigger] str@[k]),
        decreases len - end,
    {
        let c = str.get_char(end);
        let digit: i128 = (c as u32 - '0' as u32) as i128;
        proof {
            let upto = str@.subrange(start as int, end + 1);
            assert(upto.drop_last() =~= str@.subrange(start as int, end as int));
            assert(upto.last() == c);
        }
        if !overflow {
            value = value * 10 + digit;
            if value > i64::MAX as i128 {
                overflow = true;
            }
        }
        end = end + 1;
    }
    proof {
        lemma_digits_end_bounds(str@, end as int);
    }
    if overflow {
        return Err(LexerParsingError::new(PARSE_INT_LIT.to_string(), start));
    }
    *ind = end;
    let endpos = start_pos.increment_by(end - start);
    Ok(LexerToken::new(start_pos, endpos, LexerTokenType::IntLit(value as i64)))
}

/// Scans a string literal at `*ind`, where a `"` stands: the text up to and
/// with the next `"`, or up to the end of the text if there is none. The
/// quotes belong to the text of the token.
pub fn parse_string_token(str: &str, ind: &mut usize, start_pos: Position) -> (r: LexerToken)
    requires
        *old(ind) < str@.len(),
        start_pos.col + str@.len() <= usize::MAX,
    ensures
        ({
            let end = spec_string_end(str@, *old(ind) + 1);
            &&& r.tok_type matches LexerTokenType::StringLit(s) && s@ == str@.subrange(
                *old(ind) as int,
                end,
            )
            &&& spec_spans(r, start_pos, end - *old(ind))
            &&& *final(ind) == end
            &&& *old(ind) < end <= str@.len()
        }),
{
    let len = str.unicode_len();
    let start: usize = *ind;
    let mut end: usize = start + 1;
    let mut closed: bool = false;
    while end < len && !closed
        invariant
            start < end <= len,
            len == str@.len(),
            !closed ==> spec_string_end(str@, start + 1) == spec_string_end(str@, end as int),
            closed ==> spec_string_end(str@, start + 1) == end,
        decreases len - end,
    {
        if str.get_char(end) == '"' {
            closed = true;
        }
        end = end + 1;
    }
    let slice = str.substring_char(start, end);
    *ind = end;
    let endpos = start_pos.increment_by(end - start);
    LexerToken::new(start_pos, endpos, LexerTokenType::StringLit(slice.to_string()))
}

/// Scans a word at `*ind`: a run of letters, numbers, `_` and `-`. The reserved
/// words are told from other words by the hash of their text.
pub fn parse_keyword(str: &str, ind: &mut usize, start_pos: Position) -> (r: LexerToken)
    requires
        *old(ind) <= str@.len(),
        start_pos.col + str@.len() <= usize::MAX,
    ensures
        ({
            let end = spec_word_end(str@, *old(ind) as int);
            &&& spec_word_kind(r.tok_type, str@.subrange(*old(ind) as int, end))
            &&& spec_spans(r, start_pos, end - *old(ind))
            &&& *final(ind) == end
            &&& *old(ind) <= end <= str@.len()
        }),
{
    let len = str.unicode_len();
    let start: usize = *ind;
    let mut end: usize = start;
    while end < len && is_word_char(str.get_char(end))
        invariant
            start <= end <= len,
            len == str@.len(),
            spec_word_end(str@, start as int) == spec_word_end(str@, end as int),
        decreases len - end,
    {
        end = end + 1;
    }
    let slice = str.substring_char(start, end);
    let hash: u64 = utils_get_hash(slice);
    *ind = end;
    let token_type = if hash == FUNC_KEYWORD_HASH {
        LexerTokenType::Function
    } else if hash == RET_KEYWORD_HASH {
        LexerTokenType::Return
    } else if hash == STRUCT_KEYWORD_HASH {
        LexerTokenType::Struct
    } else if hash == LAYOUT_KEYWORD_HASH {
        LexerTokenType::Layout
    } else if hash == LAY_KEYWORD_HASH {
        LexerTokenType::Lay
    } else if hash == TRUE_KEYWORD_HASH {
        LexerTokenType::True
    } else if hash == FALSE_KEYWORD_HASH {
        LexerTokenType::False
    } else if hash == VAR_KEYWORD_HASH {
        LexerTokenType::Var
    } else if hash == IF_KEYWORD_HASH {
        LexerTokenType::If
    } else if hash == ELSE_KEYWORD_HASH {
        LexerTokenType::Else
    } else if hash == WHILE_KEYWORD_HASH {
        LexerTokenType::While
    } else if hash == FOR_KEYWORD_HASH {
        LexerTokenType::For
    } else {
        LexerTokenType::KEYWORD(slice.to_string(), hash)
    };
    let endpos = start_pos.increment_by(end - start);
    LexerToken::new(start_pos, endpos, token_type)
}

/// The kind of the token that starts with a punctuation character, and how
/// many characters it takes: a comparing operator takes the `=` that follows
/// it.
pub open spec fn spec_punctuation(c: char, followed_by_equal: bool) -> Option<
    (LexerTokenType, int),
> {
    match c {
        '{' => Some((LexerTokenType::BracketOpen, 1)),
        '}' => Some((LexerTokenType::BracketClose, 1)),
        '(' => Some((LexerTokenType::ParenOpen, 1)),
        ')' => Some((LexerTokenType::ParenClose, 1)),
        '[' => Some((LexerTokenType::ArrayOpen, 1)),
        ']' => Some((LexerTokenType::ArrayClose, 1)),
        ',' => Some((LexerTokenType::Comma, 1)),
        '.' => Some((LexerTokenType::Dot, 1)),
        '&' => Some((LexerTokenType::Ampersand, 1)),
        '=' => if followed_by_equal {
            Some((LexerTokenType::ComparingOperator(ComparingOperator::Equal), 2))
        } else {
            Some((LexerTokenType::EqualSign, 1))
        },
        '!' => if followed_by_equal {
            Some((LexerTokenType::ComparingOperator(ComparingOperator::NotEqual), 2))
        } else {
            Some((LexerTokenType::ExclamationMark, 1))
        },
        '<' => if followed_by_equal {
            Some((LexerTokenType::ComparingOperator(ComparingOperator::LowerEqual), 2))
        } else {
            Some((LexerTokenType::ComparingOperator(ComparingOperator::Lower), 1))
        },
        '>' => if followed_by_equal {
            Some((LexerTokenType::ComparingOperator(ComparingOperator::HigherEqual), 2))
        } else {
            Some((LexerTokenType::ComparingOperator(ComparingOperator::Higher), 1))
        },
        _ => None,
    }
}

/// The kind and width of the punctuation token that starts with `c`, if one
/// does.
pub fn punctuation(c: char, followed_by_equal: bool) -> (r: Option<(LexerTokenType, usize)>)
    ensures
        match spec_punctuation(c, followed_by_equal) {
            Some((kind, width)) => r is Some && r->Some_0.0 == kind && r->Some_0.1 == width,
            None => r is None,
        },
{
    match c {
        '{' => Some((LexerTokenType::BracketOpen, 1)),
        '}' => Some((LexerTokenType::BracketClose, 1)),
        '(' => Some((LexerTokenType::ParenOpen, 1)),
        ')' => Some((LexerTokenType::ParenClose, 1)),
        '[' => Some((LexerTokenType::ArrayOpen, 1)),
        ']' => Some((LexerTokenType::ArrayClose, 1)),
        ',' => Some((LexerTokenType::Comma, 1)),
        '.' => Some((LexerTokenType::Dot, 1)),
        '&' => Some((LexerTokenType::Ampersand, 1)),
        '=' => if followed_by_equal {
            Some((LexerTokenType::ComparingOperator(ComparingOperator::Equal), 2))
        } else {
            Some((LexerTokenType::EqualSign, 1))
        },
        '!' => if followed_by_equal {
            Some((LexerTokenType::ComparingOperator(ComparingOperator::NotEqual), 2))
        } else {
            Some((LexerTokenType::ExclamationMark, 1))
        },
        '<' => if followed_by_equal {
            Some((LexerTokenType::ComparingOperator(ComparingOperator::LowerEqual), 2))
        } else {
            Some((LexerTokenType::ComparingOperator(ComparingOperator::Lower), 1))
        },
        '>' => if followed_by_equal {
            Some((LexerTokenType::ComparingOperator(ComparingOperator::HigherEqual), 2))
        } else {
            Some((LexerTokenType::ComparingOperator(ComparingOperator::Higher), 1))
        },
        _ => None,
    }
}

/// What stands at an offset of a text decides the token that starts there.
pub enum Start {
    /// A line break: no token, a new line.
    LineBreak,
    /// A decimal digit or another numeric character: an integer literal.
    Number,
    /// A `"`: a string literal.
    Text,
    /// A letter: a word.
    Word,
    /// One of `+ - * /`: an arithmetic operator.
    Operator,
    /// Another character that starts a token: the token's kind and width.
    Punctuation(LexerTokenType, usize),
    /// Anything else: no token.
    Skip,
}

/// What the character at `i` starts.
pub open spec fn spec_start(text: Seq<char>, i: int) -> Start {
    let c = text[i];
    let followed = i + 1 < text.len() && text[i + 1] == '=';
    if c == '\n' {
        Start::LineBreak
    } else if spec_is_numeric(c) {
        Start::Number
    } else if c == '"' {
        Start::Text
    } else if spec_is_alphabetic(c) {
        Start::Word
    } else if c == '+' || c == '-' || c == '*' || c == '/' {
        Start::Operator
    } else {
        match spec_punctuation(c, followed) {
            Some((kind, width)) => Start::Punctuation(kind, width as usize),
            None => Start::Skip,
        }
    }
}

/// Whether the tokens are what scanning `text` from offset `i` on yields, at
/// line `line`, whose first character stands at offset `line_start`. The last
/// token marks the end of the text.
pub open spec fn spec_scanned(
    text: Seq<char>,
    path: Seq<char>,
    i: int,
    line: int,
    line_start: int,
    tokens: Seq<LexerToken>,
) -> bool
    decreases text.len() - i,
{
    if i < 0 || i >= text.len() {
        &&& tokens.len() == 1
        &&& tokens[0].tok_type is EndOfFile
        &&& spec_placed(tokens[0], path, line, i - line_start + 1, 1)
    } else {
        let col = i - line_start + 1;
        let rest = tokens.subrange(1, tokens.len() as int);
        match spec_start(text, i) {
            Start::LineBreak => spec_scanned(text, path, i + 1, line + 1, i + 1, tokens),
            Start::Skip => spec_scanned(text, path, i + 1, line, line_start, tokens),
            Start::Number => {
                let end = spec_digits_end(text, i + 1);
                if tokens.len() > 0 && i < end <= text.len() {
                    &&& tokens[0].tok_type == LexerTokenType::IntLit(
                        spec_decimal(text.subrange(i, end)) as i64,
                    )
                    &&& spec_placed(tokens[0], path, line, col, end - i)
                    &&& spec_scanned(text, path, end, line, line_start, rest)
                } else {
                    false
                }
            },
            Start::Text => {
                let end = spec_string_end(text, i + 1);
                if tokens.len() > 0 && i < end <= text.len() {
                    &&& tokens[0].tok_type matches LexerTokenType::StringLit(s) && s@
                        == text.subrange(i, end)
                    &&& spec_placed(tokens[0], path, line, col, end - i)
                    &&& spec_scanned(text, path, end, line, line_start, rest)
                } else {
                    false
                }
            },
            Start::Word => {
                let end = spec_word_end(text, i);
                if tokens.len() > 0 && i < end <= text.len() {
                    &&& spec_word_kind(tokens[0].tok_type, text.subrange(i, end))
                    &&& spec_placed(tokens[0], path, line, col, end - i)
                    &&& spec_scanned(text, path, end, line, line_start, rest)
                } else {
                    false
                }
            },
            Start::Operator => {
                let assigns = i + 1 < text.len() && text[i + 1] == '=';
                let width = if assigns {
                    2int
                } else {
                    1int
                };
                if tokens.len() > 0 {
                    &&& tokens[0].tok_type == LexerTokenType::MathOperator(
                        match text[i] {
                            '+' => MathOperator::ADD,
                            '-' => MathOperator::SUBSTRACT,
                            '*' => MathOperator::MULTIPLY,
                            _ => MathOperator::DIVIDE,
                        },
                        assigns,
                    )
                    &&& spec_placed(tokens[0], path, line, col, width)
                    &&& spec_scanned(text, path, i + width, line, line_start, rest)
                } else {
                    false
                }
            },
            Start::Punctuation(kind, width) => {
                if tokens.len() > 0 && width >= 1 {
                    &&& tokens[0].tok_type == kind
                    &&& spec_placed(tokens[0], path, line, col, width as int)
                    &&& spec_scanned(text, path, i + width, line, line_start, rest)
                } else {
                    false
                }
            },
        }
    }
}

/// Whether a token stands in file `path` at `line`, from column `col` on, and
/// is `width` columns wide.
pub open spec fn spec_placed(token: LexerToken, path: Seq<char>, line: int, col: int, width: int) -> bool {
    &&& token.pos.line == line
    &&& token.pos.col == col
    &&& token.pos.file_path@ == path
    &&& token.end_pos.line == line
    &&& token.end_pos.col == col + width
    &&& token.end_pos.file_path@ == path
}


/// Whether a number starts at `at` that is no integer literal: its first
/// character is no decimal digit, or its value does not fit in 64 bits.
pub open spec fn spec_bad_number(text: Seq<char>, at: int) -> bool {
    &&& 0 <= at < text.len()
    &&& spec_is_numeric(text[at])
    &&& !(spec_is_ascii_digit(text[at]) && spec_decimal(
        text.subrange(at, spec_digits_end(text, at + 1)),
    ) <= i64::MAX)
}

/// The longest text that the scanner takes: columns and offsets must fit.
pub open spec fn spec_max_text() -> int {
    usize::MAX / 2 - 1
}

/// Cuts a source text into tokens. `file_path` is the file that the text came
/// from; it is only written into the positions.
///
/// A line break starts a new line; a numeric character starts an integer
/// literal, a `"` a string literal, a letter a word, one of `+ - * /` an
/// arithmetic operator, and the punctuation of the language a token of its
/// own. Every other character is passed over. The last token marks the end of
/// the text.
pub fn lexer_parse_text(contents: &str, file_path: &str) -> (r: LexerParseResult<Vec<LexerToken>>)
    ensures
        match r {
            Ok(tokens) => {
                &&& contents@.len() <= spec_max_text()
                &&& tokens@.len() >= 1
                &&& tokens@.last().tok_type is EndOfFile
                &&& spec_scanned(contents@, file_path@, 0, 1, 0, tokens@)
            },
            Err(e) => if contents@.len() > spec_max_text() {
                e.reason@ == IO_ERROR_READ@ && e.position == 0
            } else {
                e.reason@ == PARSE_INT_LIT@ && spec_bad_number(contents@, e.position as int)
            },
        },
{
    let len = contents.unicode_len();
    if len > usize::MAX / 2 - 1 {
        return Err(LexerParsingError::new(IO_ERROR_READ.to_string(), 0));
    }
    let mut tokens: Vec<LexerToken> = Vec::new();
    let mut i: usize = 0;
    let mut line: usize = 1;
    let mut last_line_break: usize = 0;
    let ghost text = contents@;
    let ghost path = file_path@;
    proof {
        assert forall|rest: Seq<LexerToken>| #[trigger]
            spec_scanned(text, path, 0, 1, 0, rest) implies spec_scanned(
            text,
            path,
            0,
            1,
            0,
            tokens@ + rest,
        ) by {
            assert(tokens@ + rest =~= rest);
        }
    }
    while i < len
        invariant
            text == contents@,
            path == file_path@,
            len == text.len(),
            len <= usize::MAX / 2 - 1,
            i <= len,
            last_line_break <= i,
            1 <= line <= i + 1,
            forall|rest: Seq<LexerToken>| #[trigger]
                spec_scanned(text, path, i as int, line as int, last_line_break as int, rest)
                    ==> spec_scanned(text, path, 0, 1, 0, tokens@ + rest),
        decreases len - i,
    {
        let c: char = contents.get_char(i);
        let ghost before = tokens@;
        let ghost at = i as int;
        let col: usize = i - last_line_break + 1;
        if c == '\n' {
            proof {
                assert forall|rest: Seq<LexerToken>| #[trigger]
                    spec_scanned(text, path, at + 1, line + 1, at + 1, rest) implies spec_scanned(
                    text,
                    path,
                    0,
                    1,
                    0,
                    tokens@ + rest,
                ) by {
                    assert(spec_scanned(text, path, at, line as int, last_line_break as int, rest));
                }
            }
            i = i + 1;
            last_line_break = i;
            line = line + 1;
            continue ;
        }
        let pos = Position::new(file_path.to_string(), line, col);
        let followed = i + 1 < len && contents.get_char(i + 1) == '=';
        let token = if char_is_numeric(c) {
            proof {
                lemma_digits_end_bounds(text, at + 1);
            }
            parse_number_token(contents, &mut i, pos)?
        } else if c == '"' {
            parse_string_token(contents, &mut i, pos)
        } else if char_is_alphabetic(c) {
            proof {
                lemma_word_end_bounds(text, at + 1);
            }
            parse_keyword(contents, &mut i, pos)
        } else if c == '+' || c == '-' || c == '*' || c == '/' {
            parse_math_operator(contents, &mut i, pos)?
        } else {
            match punctuation(c, followed) {
                Some((kind, width)) => {
                    let end = pos.increment_by(width);
                    i = i + width;
                    LexerToken::new(pos, end, kind)
                },
                None => {
                    proof {
                        assert forall|rest: Seq<LexerToken>| #[trigger]
                            spec_scanned(
                                text,
                                path,
                                at + 1,
                                line as int,
                                last_line_break as int,
                                rest,
                            ) implies spec_scanned(text, path, 0, 1, 0, tokens@ + rest) by {
                            assert(spec_scanned(
                                text,
                                path,
                                at,
                                line as int,
                                last_line_break as int,
                                rest,
                            ));
                        }
                    }
                    i = i + 1;
                    continue ;
                },
            }
        };
        tokens.push(token);
        proof {
            assert forall|rest: Seq<LexerToken>| #[trigger]
                spec_scanned(
                    text,
                    path,
                    i as int,
                    line as int,
                    last_line_break as int,
                    rest,
                ) implies spec_scanned(text, path, 0, 1, 0, tokens@ + rest) by {
                let whole = seq![token] + rest;
                assert(whole.subrange(1, whole.len() as int) =~= rest);
                assert(whole[0] == token);
                assert(spec_scanned(
                    text,
                    path,
                    at,
                    line as int,
                    last_line_break as int,
                    whole,
                ));
                assert(before + whole =~= tokens@ + rest);
            }
        }
    }
    let end_pos = Position::new(file_path.to_string(), line, i - last_line_break + 1);
    let last = LexerToken::make_single_sized(end_pos, LexerTokenType::EndOfFile);
    proof {
        let end = seq![last];
        assert(spec_scanned(text, path, i as int, line as int, last_line_break as int, end));
        assert(tokens@ + end =~= tokens@.push(last));
    }
    tokens.push(last);
    Ok(tokens)
}

} // verus!
