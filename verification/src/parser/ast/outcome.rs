//! Where each rule ends, by the tokens alone.
//!
//! The functions of this module say of a list of tokens and an index whether
//! the rule that is entered at the index succeeds, and if so, where it leaves
//! the index. They are defined by recursion on the tokens, one for each rule,
//! and the rules are held to them: a rule succeeds just where they give an
//! index, and leaves the index there.

use vstd::prelude::*;
use crate::commons::err::PositionedResult;
use crate::lexer::token::{LexerToken, LexerTokenType};
use crate::parser::ast::grammar::{spec_closes, spec_is_at, spec_kind_at, spec_next, spec_statement_end, spec_value_end, spec_word_at};
use crate::parser::ast::types::spec_fields_stop;

verus! {

/// Whether a rule came to what the tokens ask for: it succeeded and left the
/// index where they say, or it failed where they give no index.
pub open spec fn spec_lands<K>(r: PositionedResult<K>, after: usize, asked: Option<int>) -> bool {
    match asked {
        Some(j) => r is Ok && after == j,
        None => r is Err,
    }
}

/// Whether the token at `i` starts a statement that ends in a body: `if`,
/// `while` or `for`. The rule for it leaves the index on the closing bracket.
pub open spec fn spec_block_at(tokens: Seq<LexerToken>, i: int) -> bool {
    match spec_kind_at(tokens, i) {
        Some(LexerTokenType::If) => true,
        Some(LexerTokenType::While) => true,
        Some(LexerTokenType::For) => true,
        _ => false,
    }
}

/// A condition in parentheses, whose `(` stands at `i`: the index after `)`.
pub open spec fn spec_condition_end(tokens: Seq<LexerToken>, i: int) -> Option<int> {
    if !spec_is_at(tokens, i, LexerTokenType::ParenOpen) {
        None
    } else {
        match spec_value_end(tokens, i + 1) {
            Some((j, _)) => if spec_is_at(tokens, j, LexerTokenType::ParenClose) {
                Some(j + 1)
            } else {
                None
            },
            None => None,
        }
    }
}

/// A variable declaration, whose first token stands at `i` and is passed
/// over: the index after the name, or after the value where `=` follows.
pub open spec fn spec_var_decl_end(tokens: Seq<LexerToken>, i: int) -> Option<int> {
    if !(0 <= i < tokens.len()) || !spec_word_at(tokens, i + 1) || !spec_word_at(tokens, i + 2) {
        None
    } else if !spec_is_at(tokens, i + 3, LexerTokenType::EqualSign) {
        Some(i + 3)
    } else {
        match spec_value_end(tokens, i + 4) {
            Some((j, _)) => Some(j),
            None => None,
        }
    }
}

/// The declaration of a static variable, whose reserved word stands at `i`:
/// the index after the value.
pub open spec fn spec_static_end(tokens: Seq<LexerToken>, i: int) -> Option<int> {
    if !(0 <= i < tokens.len()) || !spec_word_at(tokens, i + 1) || !spec_word_at(tokens, i + 2)
        || !spec_is_at(tokens, i + 3, LexerTokenType::EqualSign) {
        None
    } else {
        match spec_value_end(tokens, i + 4) {
            Some((j, _)) => Some(j),
            None => None,
        }
    }
}

/// The parameters of a declaration from `i` on, after the `(`: the index of
/// the `)`. Each parameter is two words; commas stand between them.
pub open spec fn spec_parameters_end(tokens: Seq<LexerToken>, i: int) -> Option<int>
    decreases tokens.len() - i,
{
    if !spec_word_at(tokens, i) {
        if spec_is_at(tokens, i, LexerTokenType::ParenClose) {
            Some(i)
        } else {
            None
        }
    } else if !spec_word_at(tokens, i + 1) {
        None
    } else if spec_is_at(tokens, i + 2, LexerTokenType::Comma) {
        spec_parameters_end(tokens, i + 3)
    } else if spec_is_at(tokens, i + 2, LexerTokenType::ParenClose) {
        Some(i + 2)
    } else {
        None
    }
}

/// The head of a function declaration, whose name stands at `i`: the index
/// after the `)`, or after the return type where one is named.
pub open spec fn spec_head_end(tokens: Seq<LexerToken>, i: int) -> Option<int> {
    if !spec_word_at(tokens, i) || !spec_is_at(tokens, i + 1, LexerTokenType::ParenOpen) {
        None
    } else {
        match spec_parameters_end(tokens, i + 2) {
            Some(k) => Some(
                if spec_word_at(tokens, k + 1) {
                    k + 2
                } else {
                    k + 1
                },
            ),
            None => None,
        }
    }
}

/// A member of a body that starts at `i`: where its rule leaves the index.
pub open spec fn spec_member_end(tokens: Seq<LexerToken>, i: int) -> Option<int>
    decreases tokens.len() - i, 2nat,
{
    match spec_kind_at(tokens, i) {
        Some(LexerTokenType::Var) => spec_var_decl_end(tokens, i),
        Some(LexerTokenType::If) => spec_if_end(tokens, i),
        Some(LexerTokenType::While) => spec_guarded_end(tokens, i + 1),
        Some(LexerTokenType::For) => spec_for_end(tokens, i),
        Some(LexerTokenType::KEYWORD(_, _)) => match spec_statement_end(tokens, i) {
            Some((j, _)) => Some(j),
            None => None,
        },
        _ => None,
    }
}

/// The members of a body from `i` on: the index of the token that closes the
/// body, `}` or the end of the file. After a member that ends in a body its
/// closing bracket is passed.
pub open spec fn spec_members_end(tokens: Seq<LexerToken>, i: int) -> Option<int>
    decreases tokens.len() - i, 3nat,
{
    if !(0 <= i < tokens.len()) {
        None
    } else if spec_closes(tokens, i) {
        Some(i)
    } else {
        match spec_member_end(tokens, i) {
            Some(c) => {
                let next = if spec_block_at(tokens, i) {
                    spec_next(tokens, c)
                } else {
                    c
                };
                if i < next <= tokens.len() {
                    spec_members_end(tokens, next)
                } else {
                    None
                }
            },
            None => None,
        }
    }
}

/// A body, whose `{` stands at `i`: the index of its `}`.
pub open spec fn spec_body_end(tokens: Seq<LexerToken>, i: int) -> Option<int>
    decreases tokens.len() - i, 4nat,
{
    if !spec_is_at(tokens, i, LexerTokenType::BracketOpen) {
        None
    } else {
        spec_members_end(tokens, i + 1)
    }
}

/// A condition in parentheses, whose `(` stands at `i`, and the body that it
/// guards: the index of the `}` of the body.
pub open spec fn spec_guarded_end(tokens: Seq<LexerToken>, i: int) -> Option<int>
    decreases tokens.len() - i, 5nat,
{
    match spec_condition_end(tokens, i) {
        Some(k) => if i < k <= tokens.len() {
            spec_body_end(tokens, k)
        } else {
            None
        },
        None => None,
    }
}

/// What follows the body of an `if` or `else if` that the token at `c`
/// closes: an `else` with what belongs to it, after a `}`, or nothing. The
/// index of the last closing token.
pub open spec fn spec_tail_end(tokens: Seq<LexerToken>, c: int) -> Option<int>
    decreases tokens.len() - c, 0nat,
{
    if spec_is_at(tokens, c, LexerTokenType::BracketClose) && spec_is_at(
        tokens,
        c + 1,
        LexerTokenType::Else,
    ) {
        if 0 <= c {
            spec_else_end(tokens, c + 1)
        } else {
            None
        }
    } else {
        Some(c)
    }
}

/// An `else`, which stands at `i`: `else if` with its condition, its body and
/// what follows, or `else` with its body. The index of the last `}`.
pub open spec fn spec_else_end(tokens: Seq<LexerToken>, i: int) -> Option<int>
    decreases tokens.len() - i, 6nat,
{
    if !(0 <= i < tokens.len()) {
        None
    } else if spec_is_at(tokens, i + 1, LexerTokenType::If) {
        match spec_guarded_end(tokens, i + 2) {
            Some(c) => if i < c < tokens.len() {
                spec_tail_end(tokens, c)
            } else {
                None
            },
            None => None,
        }
    } else {
        spec_body_end(tokens, i + 1)
    }
}

/// An `if`, which stands at `i`, with its condition, its body and what
/// follows: the index of the last `}`.
pub open spec fn spec_if_end(tokens: Seq<LexerToken>, i: int) -> Option<int>
    decreases tokens.len() - i, 1nat,
{
    if !(0 <= i < tokens.len()) {
        None
    } else {
        match spec_guarded_end(tokens, i + 1) {
            Some(c) => if i < c < tokens.len() {
                spec_tail_end(tokens, c)
            } else {
                None
            },
            None => None,
        }
    }
}

/// A `for`, which stands at `i`: in parentheses the declaration of the loop
/// variable, the condition and the increment, with commas between them, and
/// the body. The increment is a member that does not end in a body. The index
/// of the `}` of the body.
pub open spec fn spec_for_end(tokens: Seq<LexerToken>, i: int) -> Option<int>
    decreases tokens.len() - i, 1nat,
{
    if !(0 <= i < tokens.len()) || !spec_is_at(tokens, i + 1, LexerTokenType::ParenOpen) {
        None
    } else {
        match spec_var_decl_end(tokens, i + 1) {
            Some(k1) => if !spec_is_at(tokens, k1, LexerTokenType::Comma) {
                None
            } else {
                match spec_value_end(tokens, k1 + 1) {
                    Some((k2, _)) => if !spec_is_at(tokens, k2, LexerTokenType::Comma)
                        || spec_block_at(tokens, k2 + 1) || !(i < k2 < tokens.len()) {
                        None
                    } else {
                        match spec_member_end(tokens, k2 + 1) {
                            Some(c3) => if !spec_is_at(tokens, c3, LexerTokenType::ParenClose)
                                || !(i < c3 < tokens.len()) {
                                None
                            } else {
                                spec_body_end(tokens, c3 + 1)
                            },
                            None => None,
                        }
                    },
                    None => None,
                }
            },
            None => None,
        }
    }
}

/// A function declaration, whose reserved word stands at `i`: the index of
/// the `}` of its body.
pub open spec fn spec_function_end(tokens: Seq<LexerToken>, i: int) -> Option<int> {
    if !(0 <= i < tokens.len()) {
        None
    } else {
        match spec_head_end(tokens, i + 1) {
            Some(k) => spec_body_end(tokens, k),
            None => None,
        }
    }
}

/// The declaration of a struct or a layout, whose reserved word stands at
/// `i`: the index of the `}` after its fields.
pub open spec fn spec_type_end(tokens: Seq<LexerToken>, i: int) -> Option<int> {
    if !(0 <= i < tokens.len()) || !spec_word_at(tokens, i + 1) || !spec_is_at(
        tokens,
        i + 2,
        LexerTokenType::BracketOpen,
    ) {
        None
    } else {
        let stop = spec_fields_stop(tokens, i + 3);
        if spec_is_at(tokens, stop, LexerTokenType::BracketClose) {
            Some(stop)
        } else {
            None
        }
    }
}

/// A declaration of the top level that starts at `i`: the index of its last
/// `}`.
pub open spec fn spec_declaration_end(tokens: Seq<LexerToken>, i: int) -> Option<int> {
    match spec_kind_at(tokens, i) {
        Some(LexerTokenType::Function) => spec_function_end(tokens, i),
        Some(LexerTokenType::Struct) => spec_type_end(tokens, i),
        Some(LexerTokenType::Layout) => spec_type_end(tokens, i),
        _ => None,
    }
}

/// Whether the tokens from `i` on, up to the token that marks the end of the
/// file, are declarations of the top level, one after the other.
pub open spec fn spec_file_parses(tokens: Seq<LexerToken>, i: int) -> bool
    decreases tokens.len() - i,
{
    if !(0 <= i < tokens.len()) || spec_is_at(tokens, i, LexerTokenType::EndOfFile) {
        true
    } else {
        match spec_declaration_end(tokens, i) {
            Some(c) => i < spec_next(tokens, c) <= tokens.len() && spec_file_parses(
                tokens,
                spec_next(tokens, c),
            ),
            None => false,
        }
    }
}

} // verus!
