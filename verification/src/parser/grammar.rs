//! The grammar, as functions from a token sequence and a position to the
//! tree that starts there and the position behind it, or to the error.
use vstd::prelude::*;
use crate::lexer::token::{
    Keyword, Symbols, TokenView, Types, keyword_name, symbol_name, token_text,
};
use crate::parser::ast::{ExprView, FunctionDeclView, LiteralView, StatementView};

verus! {

/// What parsing a piece of syntax gives: the piece and the position behind
/// it, or the message of the error.
pub type Parsed<T> = Result<(T, int), Seq<char>>;

pub open spec fn token_at(t: Seq<TokenView>, pos: int) -> Option<TokenView> {
    if 0 <= pos < t.len() {
        Some(t[pos])
    } else {
        None
    }
}

pub open spec fn symbol_at(t: Seq<TokenView>, pos: int, sym: Symbols) -> bool {
    token_at(t, pos) == Some(TokenView::Symbols(sym))
}

pub open spec fn keyword_at(t: Seq<TokenView>, pos: int, kw: Keyword) -> bool {
    token_at(t, pos) == Some(TokenView::Keyword(kw))
}

/// How a message shows what was found at a place: a token, or the end.
pub open spec fn found_text(found: Option<TokenView>) -> Seq<char> {
    match found {
        Some(tok) => token_text(tok),
        None => "end of input"@,
    }
}

pub open spec fn expected_symbol_message(sym: Symbols) -> Seq<char> {
    "Expected symbol "@ + symbol_name(sym)
}

pub open spec fn expected_keyword_message(kw: Keyword) -> Seq<char> {
    "Expected keyword "@ + keyword_name(kw)
}

pub open spec fn expected_identifier_message(found: Option<TokenView>) -> Seq<char> {
    "Expected identifier, got "@ + found_text(found)
}

pub open spec fn include_eof_message() -> Seq<char> {
    "Unexpected EOF in include"@
}

pub open spec fn include_token_message(tok: TokenView) -> Seq<char> {
    "Unexpected token in include: "@ + token_text(tok)
}

pub open spec fn parameter_type_message() -> Seq<char> {
    "Expected type after ':' in function parameter"@
}

pub open spec fn expression_eof_message() -> Seq<char> {
    "Unexpected EOF while parsing primary expression"@
}

pub open spec fn expression_token_message(tok: TokenView) -> Seq<char> {
    "Unexpected token in expression: "@ + token_text(tok)
}

pub open spec fn grouping_message(found: Option<TokenView>) -> Seq<char> {
    "Expected ')' to close grouping, found "@ + found_text(found)
}

pub open spec fn no_progress_message() -> Seq<char> {
    "Parser made no progress"@
}

/// A result is taken only where it ends behind `from` and within the `len`
/// tokens. Every piece of syntax holds at least one token and none ends
/// behind the last one, so this changes no result (see
/// `lemma_parsing_moves_forward`); it is what makes the grammar well founded.
pub open spec fn behind<T>(r: Parsed<T>, from: int, len: nat) -> Parsed<T> {
    match r {
        Ok((v, p)) => if from < p <= len {
            r
        } else {
            Err(no_progress_message())
        },
        Err(e) => Err(e),
    }
}

/// A result for the rest of a list, with the items before it put in front.
pub open spec fn after<T>(front: Seq<T>, rest: Parsed<Seq<T>>) -> Parsed<Seq<T>> {
    match rest {
        Ok((items, end)) => Ok((front + items, end)),
        Err(e) => Err(e),
    }
}

/// As `after`, for a result without a position.
pub open spec fn all_after<T>(front: Seq<T>, rest: Result<Seq<T>, Seq<char>>) -> Result<
    Seq<T>,
    Seq<char>,
> {
    match rest {
        Ok(items) => Ok(front + items),
        Err(e) => Err(e),
    }
}

/// Putting nothing in front changes nothing.
pub proof fn lemma_after_nothing<T>(rest: Parsed<Seq<T>>)
    ensures
        after(Seq::empty(), rest) == rest,
{
    match rest {
        Ok((items, end)) => {
            assert(Seq::<T>::empty() + items =~= items);
        },
        Err(e) => {},
    }
}

/// Putting one item in front, and then others in front of that, is putting
/// the others and then the item in front.
pub proof fn lemma_after_one_more<T>(front: Seq<T>, item: T, rest: Parsed<Seq<T>>)
    ensures
        after(front, after(seq![item], rest)) == after(front.push(item), rest),
{
    match rest {
        Ok((items, end)) => {
            assert(front + (seq![item] + items) =~= front.push(item) + items);
        },
        Err(e) => {},
    }
}

/// As `lemma_after_nothing`, for a result without a position.
pub proof fn lemma_all_after_nothing<T>(rest: Result<Seq<T>, Seq<char>>)
    ensures
        all_after(Seq::empty(), rest) == rest,
{
    match rest {
        Ok(items) => {
            assert(Seq::<T>::empty() + items =~= items);
        },
        Err(e) => {},
    }
}

/// As `lemma_after_one_more`, for a result without a position.
pub proof fn lemma_all_after_one_more<T>(front: Seq<T>, item: T, rest: Result<Seq<T>, Seq<char>>)
    ensures
        all_after(front, all_after(seq![item], rest)) == all_after(front.push(item), rest),
{
    match rest {
        Ok(items) => {
            assert(front + (seq![item] + items) =~= front.push(item) + items);
        },
        Err(e) => {},
    }
}

/// The position behind the comment symbols that start at `pos`.
pub open spec fn skip_comments(t: Seq<TokenView>, pos: int) -> int
    decreases t.len() - pos,
{
    if symbol_at(t, pos, Symbols::Comment) {
        skip_comments(t, pos + 1)
    } else {
        pos
    }
}

/// The rest of a dotted name whose first segments are `base`: each `.` must
/// be followed by an identifier, and the segments are joined by dots.
pub open spec fn dotted_name(t: Seq<TokenView>, pos: int, base: Seq<char>) -> Parsed<Seq<char>>
    decreases t.len() - pos,
{
    if symbol_at(t, pos, Symbols::Period) {
        match token_at(t, pos + 1) {
            Some(TokenView::Ident(member)) => dotted_name(t, pos + 2, base.push('.') + member),
            other => Err(expected_identifier_message(other)),
        }
    } else {
        Ok((base, pos))
    }
}

/// The path of an include: identifiers and periods up to the `;`, joined as
/// they come.
pub open spec fn include_path(t: Seq<TokenView>, pos: int, path: Seq<char>) -> Parsed<Seq<char>>
    decreases t.len() - pos,
{
    match token_at(t, pos) {
        None => Err(include_eof_message()),
        Some(TokenView::Ident(s)) => include_path(t, pos + 1, path + s),
        Some(TokenView::Symbols(Symbols::Period)) => include_path(t, pos + 1, path.push('.')),
        Some(TokenView::Symbols(Symbols::SemiColon)) => Ok((path, pos + 1)),
        Some(tok) => Err(include_token_message(tok)),
    }
}

/// The parameters of a function behind the `(`: `name : type`, each
/// optionally followed by a comma, up to the `)`.
pub open spec fn function_params(t: Seq<TokenView>, pos: int, params: Seq<Seq<char>>) -> Parsed<
    Seq<Seq<char>>,
>
    decreases t.len() - pos,
{
    if symbol_at(t, pos, Symbols::RParen) {
        Ok((params, pos + 1))
    } else {
        match token_at(t, pos) {
            Some(TokenView::Ident(name)) => {
                if !symbol_at(t, pos + 1, Symbols::Colon) {
                    Err(expected_symbol_message(Symbols::Colon))
                } else if !(token_at(t, pos + 2) matches Some(TokenView::Types(_))) {
                    Err(parameter_type_message())
                } else if symbol_at(t, pos + 3, Symbols::Comma) {
                    function_params(t, pos + 4, params.push(name))
                } else {
                    function_params(t, pos + 3, params.push(name))
                }
            },
            other => Err(expected_identifier_message(other)),
        }
    }
}

/// An expression: a number, a string, a parenthesised expression, or a dotted
/// name, which is a call where a `(` follows it and a variable otherwise.
pub open spec fn parse_expr_spec(t: Seq<TokenView>, pos: int) -> Parsed<ExprView>
    decreases t.len() - pos, 0int,
{
    match token_at(t, pos) {
        None => Err(expression_eof_message()),
        Some(TokenView::Number(n)) => Ok((ExprView::Literal(LiteralView::Number(n)), pos + 1)),
        Some(TokenView::Literal(s)) => Ok((ExprView::Literal(LiteralView::String(s)), pos + 1)),
        Some(TokenView::Ident(name)) => match behind(dotted_name(t, pos + 1, name), pos, t.len()) {
            Err(e) => Err(e),
            Ok((callee, p)) => {
                if !symbol_at(t, p, Symbols::LParen) {
                    Ok((ExprView::Variable { var_name: callee, var_type: None }, p))
                } else if symbol_at(t, p + 1, Symbols::RParen) {
                    Ok((ExprView::FCall { callee, args: Seq::empty() }, p + 2))
                } else {
                    match call_args(t, p + 1) {
                        Err(e) => Err(e),
                        Ok((args, q)) => Ok((ExprView::FCall { callee, args }, q)),
                    }
                }
            },
        },
        Some(TokenView::Symbols(Symbols::LParen)) => match parse_expr_spec(t, pos + 1) {
            Err(e) => Err(e),
            Ok((inner, p)) => {
                if symbol_at(t, p, Symbols::RParen) {
                    Ok((inner, p + 1))
                } else {
                    Err(grouping_message(token_at(t, p)))
                }
            },
        },
        Some(tok) => Err(expression_token_message(tok)),
    }
}

/// The arguments of a call behind the `(`, of which there is at least one:
/// expressions separated by commas, up to the `)`.
pub open spec fn call_args(t: Seq<TokenView>, pos: int) -> Parsed<Seq<ExprView>>
    decreases t.len() - pos, 1int,
{
    match behind(parse_expr_spec(t, pos), pos, t.len()) {
        Err(e) => Err(e),
        Ok((arg, p)) => {
            if symbol_at(t, p, Symbols::RParen) {
                Ok((seq![arg], p + 1))
            } else if !symbol_at(t, p, Symbols::Comma) {
                Err(expected_symbol_message(Symbols::Comma))
            } else {
                after(seq![arg], call_args(t, p + 1))
            }
        },
    }
}

/// An expression and the `;` that ends it.
pub open spec fn expr_then_semicolon(t: Seq<TokenView>, pos: int) -> Parsed<ExprView> {
    match parse_expr_spec(t, pos) {
        Err(e) => Err(e),
        Ok((e, p)) => {
            if symbol_at(t, p, Symbols::SemiColon) {
                Ok((e, p + 1))
            } else {
                Err(expected_symbol_message(Symbols::SemiColon))
            }
        },
    }
}

/// A declaration behind `local` or `global`: `name : type? (-> expr)? ;`.
pub open spec fn parse_var_decl_spec(t: Seq<TokenView>, pos: int) -> Parsed<StatementView> {
    match token_at(t, pos) {
        Some(TokenView::Ident(name)) => {
            if !symbol_at(t, pos + 1, Symbols::Colon) {
                Err(expected_symbol_message(Symbols::Colon))
            } else {
                let (var_type, p) = match token_at(t, pos + 2) {
                    Some(TokenView::Types(ty)) => (Some(ty), pos + 3),
                    _ => (None::<Types>, pos + 2),
                };
                if keyword_at(t, p, Keyword::Assign) {
                    match expr_then_semicolon(t, p + 1) {
                        Err(e) => Err(e),
                        Ok((init, q)) => Ok(
                            (StatementView::VarDecl { name, var_type, initializer: Some(init) }, q),
                        ),
                    }
                } else if symbol_at(t, p, Symbols::SemiColon) {
                    Ok((StatementView::VarDecl { name, var_type, initializer: None }, p + 1))
                } else {
                    Err(expected_symbol_message(Symbols::SemiColon))
                }
            }
        },
        other => Err(expected_identifier_message(other)),
    }
}

/// What follows `return`: a `;`, or an expression and a `;`.
pub open spec fn parse_return_spec(t: Seq<TokenView>, pos: int) -> Parsed<StatementView> {
    if symbol_at(t, pos, Symbols::SemiColon) {
        Ok((StatementView::Return { value: None }, pos + 1))
    } else {
        match expr_then_semicolon(t, pos) {
            Err(e) => Err(e),
            Ok((e, p)) => Ok((StatementView::Return { value: Some(e) }, p)),
        }
    }
}

/// A condition in parentheses.
pub open spec fn parse_condition_spec(t: Seq<TokenView>, pos: int) -> Parsed<ExprView> {
    if !symbol_at(t, pos, Symbols::LParen) {
        Err(expected_symbol_message(Symbols::LParen))
    } else {
        match parse_expr_spec(t, pos + 1) {
            Err(e) => Err(e),
            Ok((cond, p)) => {
                if symbol_at(t, p, Symbols::RParen) {
                    Ok((cond, p + 1))
                } else {
                    Err(expected_symbol_message(Symbols::RParen))
                }
            },
        }
    }
}

/// The name and the parameters of a function behind `program`:
/// `-> name`, then the parameters in parentheses where a `(` follows.
pub open spec fn parse_signature_spec(t: Seq<TokenView>, pos: int) -> Parsed<
    (Seq<char>, Seq<Seq<char>>),
> {
    if !keyword_at(t, pos, Keyword::Assign) {
        Err(expected_keyword_message(Keyword::Assign))
    } else {
        match token_at(t, pos + 1) {
            Some(TokenView::Ident(name)) => {
                if symbol_at(t, pos + 2, Symbols::LParen) {
                    match function_params(t, pos + 3, Seq::empty()) {
                        Err(e) => Err(e),
                        Ok((params, p)) => Ok(((name, params), p)),
                    }
                } else {
                    Ok(((name, Seq::empty()), pos + 2))
                }
            },
            other => Err(expected_identifier_message(other)),
        }
    }
}

/// A statement, by the token it starts with; comment symbols before it are
/// passed over.
pub open spec fn parse_statement_spec(t: Seq<TokenView>, start: int) -> Parsed<StatementView>
    decreases t.len() - start, 2int,
{
    let pos = skip_comments(t, start);
    if pos < start {
        Err(no_progress_message())
    } else if keyword_at(t, pos, Keyword::Include) {
        match include_path(t, pos + 1, Seq::empty()) {
            Err(e) => Err(e),
            Ok((path, p)) => Ok((StatementView::Include(path), p)),
        }
    } else if keyword_at(t, pos, Keyword::Local) || keyword_at(t, pos, Keyword::Global) {
        parse_var_decl_spec(t, pos + 1)
    } else if keyword_at(t, pos, Keyword::While) {
        match behind(parse_condition_spec(t, pos + 1), pos, t.len()) {
            Err(e) => Err(e),
            Ok((condition, p)) => match parse_block_spec(t, p) {
                Err(e) => Err(e),
                Ok((body, q)) => Ok(
                    (
                        StatementView::While {
                            condition,
                            body: Box::new(StatementView::Block(body)),
                        },
                        q,
                    ),
                ),
            },
        }
    } else if keyword_at(t, pos, Keyword::If) {
        match behind(parse_condition_spec(t, pos + 1), pos, t.len()) {
            Err(e) => Err(e),
            Ok((condition, p)) => match behind(parse_block_spec(t, p), p, t.len()) {
                Err(e) => Err(e),
                Ok((then_stmts, q)) => {
                    let then_branch = Box::new(StatementView::Block(then_stmts));
                    if keyword_at(t, q, Keyword::Else) {
                        match parse_block_spec(t, q + 1) {
                            Err(e) => Err(e),
                            Ok((else_stmts, r)) => Ok(
                                (
                                    StatementView::If {
                                        condition,
                                        then_branch,
                                        else_branch: Some(
                                            Box::new(StatementView::Block(else_stmts)),
                                        ),
                                    },
                                    r,
                                ),
                            ),
                        }
                    } else {
                        Ok((StatementView::If { condition, then_branch, else_branch: None }, q))
                    }
                },
            },
        }
    } else if keyword_at(t, pos, Keyword::Program) {
        match behind(parse_signature_spec(t, pos + 1), pos, t.len()) {
            Err(e) => Err(e),
            Ok(((name, params), p)) => match parse_block_spec(t, p) {
                Err(e) => Err(e),
                Ok((body, q)) => Ok(
                    (StatementView::Function(FunctionDeclView { name, params, body }), q),
                ),
            },
        }
    } else if keyword_at(t, pos, Keyword::Return) {
        parse_return_spec(t, pos + 1)
    } else if symbol_at(t, pos, Symbols::LCurlyBracket) {
        match parse_block_spec(t, pos) {
            Err(e) => Err(e),
            Ok((stmts, p)) => Ok((StatementView::Block(stmts), p)),
        }
    } else {
        match expr_then_semicolon(t, pos) {
            Err(e) => Err(e),
            Ok((e, p)) => Ok((StatementView::Expression(e), p)),
        }
    }
}

/// A block: `{`, statements, `}`.
pub open spec fn parse_block_spec(t: Seq<TokenView>, pos: int) -> Parsed<Seq<StatementView>>
    decreases t.len() - pos, 1int,
{
    if !symbol_at(t, pos, Symbols::LCurlyBracket) {
        Err(expected_symbol_message(Symbols::LCurlyBracket))
    } else {
        block_rest(t, pos + 1)
    }
}

/// The statements of a block up to its `}`.
pub open spec fn block_rest(t: Seq<TokenView>, pos: int) -> Parsed<Seq<StatementView>>
    decreases t.len() - pos, 3int,
{
    if symbol_at(t, pos, Symbols::RCurlyBracket) {
        Ok((Seq::empty(), pos + 1))
    } else {
        match behind(parse_statement_spec(t, pos), pos, t.len()) {
            Err(e) => Err(e),
            Ok((first, p)) => after(seq![first], block_rest(t, p)),
        }
    }
}

/// The statements from `pos` to the end of the tokens.
pub open spec fn parse_program_spec(t: Seq<TokenView>, pos: int) -> Result<
    Seq<StatementView>,
    Seq<char>,
>
    decreases t.len() - pos,
{
    if token_at(t, pos) is None {
        Ok(Seq::empty())
    } else {
        match behind(parse_statement_spec(t, pos), pos, t.len()) {
            Err(e) => Err(e),
            Ok((first, p)) => all_after(seq![first], parse_program_spec(t, p)),
        }
    }
}

/// Comment symbols are passed over forwards, and not beyond the tokens.
pub proof fn lemma_skip_comments_bounds(t: Seq<TokenView>, pos: int)
    ensures
        pos <= skip_comments(t, pos),
        pos <= t.len() ==> skip_comments(t, pos) <= t.len(),
    decreases t.len() - pos,
{
    if symbol_at(t, pos, Symbols::Comment) {
        lemma_skip_comments_bounds(t, pos + 1);
    }
}

/// A dotted name ends at or behind its start, and within the tokens.
pub proof fn lemma_dotted_name_bounds(t: Seq<TokenView>, pos: int, base: Seq<char>)
    requires
        0 <= pos <= t.len(),
    ensures
        dotted_name(t, pos, base) matches Ok((name, p)) ==> pos <= p <= t.len(),
    decreases t.len() - pos,
{
    if symbol_at(t, pos, Symbols::Period) {
        match token_at(t, pos + 1) {
            Some(TokenView::Ident(member)) => {
                lemma_dotted_name_bounds(t, pos + 2, base.push('.') + member);
            },
            _ => {},
        }
    }
}

/// The path of an include ends behind its `;`, and within the tokens.
pub proof fn lemma_include_path_bounds(t: Seq<TokenView>, pos: int, path: Seq<char>)
    ensures
        include_path(t, pos, path) matches Ok((p, end)) ==> pos < end <= t.len(),
    decreases t.len() - pos,
{
    match token_at(t, pos) {
        Some(TokenView::Ident(s)) => {
            lemma_include_path_bounds(t, pos + 1, path + s);
        },
        Some(TokenView::Symbols(Symbols::Period)) => {
            lemma_include_path_bounds(t, pos + 1, path.push('.'));
        },
        _ => {},
    }
}

/// The parameters of a function end behind their `)`, and within the tokens.
pub proof fn lemma_function_params_bounds(t: Seq<TokenView>, pos: int, params: Seq<Seq<char>>)
    ensures
        function_params(t, pos, params) matches Ok((names, end)) ==> pos < end <= t.len(),
    decreases t.len() - pos,
{
    if !symbol_at(t, pos, Symbols::RParen) {
        match token_at(t, pos) {
            Some(TokenView::Ident(name)) => {
                if symbol_at(t, pos + 1, Symbols::Colon) && (token_at(t, pos + 2) matches Some(
                    TokenView::Types(_),
                )) {
                    if symbol_at(t, pos + 3, Symbols::Comma) {
                        lemma_function_params_bounds(t, pos + 4, params.push(name));
                    } else {
                        lemma_function_params_bounds(t, pos + 3, params.push(name));
                    }
                }
            },
            _ => {},
        }
    }
}

/// An expression holds at least one token and ends within the tokens.
pub proof fn lemma_expr_moves_forward(t: Seq<TokenView>, pos: int)
    ensures
        parse_expr_spec(t, pos) matches Ok((e, p)) ==> pos < p <= t.len(),
    decreases t.len() - pos, 0int,
{
    match token_at(t, pos) {
        Some(TokenView::Ident(name)) => {
            lemma_dotted_name_bounds(t, pos + 1, name);
            match behind(dotted_name(t, pos + 1, name), pos, t.len()) {
                Ok((callee, p)) => {
                    if symbol_at(t, p, Symbols::LParen) && !symbol_at(t, p + 1, Symbols::RParen) {
                        lemma_call_args_moves_forward(t, p + 1);
                    }
                },
                Err(e) => {},
            }
        },
        Some(TokenView::Symbols(Symbols::LParen)) => {
            lemma_expr_moves_forward(t, pos + 1);
        },
        _ => {},
    }
}

/// The arguments of a call end behind their `)`, and within the tokens.
pub proof fn lemma_call_args_moves_forward(t: Seq<TokenView>, pos: int)
    ensures
        call_args(t, pos) matches Ok((args, p)) ==> pos < p <= t.len(),
    decreases t.len() - pos, 1int,
{
    lemma_expr_moves_forward(t, pos);
    match behind(parse_expr_spec(t, pos), pos, t.len()) {
        Ok((arg, p)) => {
            if !symbol_at(t, p, Symbols::RParen) && symbol_at(t, p, Symbols::Comma) {
                lemma_call_args_moves_forward(t, p + 1);
            }
        },
        Err(e) => {},
    }
}

/// A statement holds at least one token and ends within the tokens.
pub proof fn lemma_statement_moves_forward(t: Seq<TokenView>, start: int)
    ensures
        parse_statement_spec(t, start) matches Ok((s, p)) ==> start < p <= t.len(),
    decreases t.len() - start, 2int,
{
    let pos = skip_comments(t, start);
    lemma_skip_comments_bounds(t, start);
    if keyword_at(t, pos, Keyword::Include) {
        lemma_include_path_bounds(t, pos + 1, Seq::empty());
    } else if keyword_at(t, pos, Keyword::Local) || keyword_at(t, pos, Keyword::Global) {
        match token_at(t, pos + 3) {
            Some(TokenView::Types(ty)) => {
                lemma_expr_moves_forward(t, pos + 5);
            },
            _ => {
                lemma_expr_moves_forward(t, pos + 4);
            },
        }
    } else if keyword_at(t, pos, Keyword::While) {
        lemma_expr_moves_forward(t, pos + 2);
        match behind(parse_condition_spec(t, pos + 1), pos, t.len()) {
            Ok((condition, p)) => {
                lemma_block_moves_forward(t, p);
            },
            Err(e) => {},
        }
    } else if keyword_at(t, pos, Keyword::If) {
        lemma_expr_moves_forward(t, pos + 2);
        match behind(parse_condition_spec(t, pos + 1), pos, t.len()) {
            Ok((condition, p)) => {
                lemma_block_moves_forward(t, p);
                match behind(parse_block_spec(t, p), p, t.len()) {
                    Ok((then_stmts, q)) => {
                        if keyword_at(t, q, Keyword::Else) {
                            lemma_block_moves_forward(t, q + 1);
                        }
                    },
                    Err(e) => {},
                }
            },
            Err(e) => {},
        }
    } else if keyword_at(t, pos, Keyword::Program) {
        lemma_function_params_bounds(t, pos + 4, Seq::empty());
        match behind(parse_signature_spec(t, pos + 1), pos, t.len()) {
            Ok((signature, p)) => {
                lemma_block_moves_forward(t, p);
            },
            Err(e) => {},
        }
    } else if keyword_at(t, pos, Keyword::Return) {
        lemma_expr_moves_forward(t, pos + 1);
    } else if symbol_at(t, pos, Symbols::LCurlyBracket) {
        lemma_block_moves_forward(t, pos);
    } else {
        lemma_expr_moves_forward(t, pos);
    }
}

/// A block holds at least its braces and ends within the tokens.
pub proof fn lemma_block_moves_forward(t: Seq<TokenView>, pos: int)
    ensures
        parse_block_spec(t, pos) matches Ok((stmts, p)) ==> pos + 1 < p <= t.len(),
    decreases t.len() - pos, 1int,
{
    if symbol_at(t, pos, Symbols::LCurlyBracket) {
        lemma_block_rest_moves_forward(t, pos + 1);
    }
}

/// The rest of a block ends behind its `}`, and within the tokens.
pub proof fn lemma_block_rest_moves_forward(t: Seq<TokenView>, pos: int)
    ensures
        block_rest(t, pos) matches Ok((stmts, p)) ==> pos < p <= t.len(),
    decreases t.len() - pos, 3int,
{
    if !symbol_at(t, pos, Symbols::RCurlyBracket) {
        lemma_statement_moves_forward(t, pos);
        match behind(parse_statement_spec(t, pos), pos, t.len()) {
            Ok((first, p)) => {
                lemma_block_rest_moves_forward(t, p);
            },
            Err(e) => {},
        }
    }
}

/// Every piece of syntax holds at least one token and ends within the
/// tokens, so `behind` changes none of the results that the grammar
/// passes through it.
pub proof fn lemma_parsing_moves_forward(t: Seq<TokenView>, pos: int, name: Seq<char>)
    ensures
        behind(parse_expr_spec(t, pos), pos, t.len()) == parse_expr_spec(t, pos),
        behind(parse_statement_spec(t, pos), pos, t.len()) == parse_statement_spec(t, pos),
        behind(parse_block_spec(t, pos), pos, t.len()) == parse_block_spec(t, pos),
        token_at(t, pos) is Some ==> behind(dotted_name(t, pos + 1, name), pos, t.len())
            == dotted_name(t, pos + 1, name),
        behind(parse_condition_spec(t, pos + 1), pos, t.len()) == parse_condition_spec(t, pos + 1),
        behind(parse_signature_spec(t, pos + 1), pos, t.len()) == parse_signature_spec(t, pos + 1),
{
    lemma_expr_moves_forward(t, pos);
    lemma_statement_moves_forward(t, pos);
    lemma_block_moves_forward(t, pos);
    if token_at(t, pos) is Some {
        lemma_dotted_name_bounds(t, pos + 1, name);
    }
    lemma_expr_moves_forward(t, pos + 2);
    lemma_function_params_bounds(t, pos + 4, Seq::empty());
}

/// Whether no token from `from` up to `to` is an error token.
pub open spec fn clean(t: Seq<TokenView>, from: int, to: int) -> bool {
    forall|i: int| 0 <= i && from <= i < to ==> !((#[trigger] t[i]) is Error)
}

/// The comment symbols that are passed over hold no error token.
pub proof fn lemma_skip_comments_clean(t: Seq<TokenView>, pos: int)
    ensures
        clean(t, pos, skip_comments(t, pos)),
    decreases t.len() - pos,
{
    if symbol_at(t, pos, Symbols::Comment) {
        lemma_skip_comments_clean(t, pos + 1);
    }
}

/// A dotted name holds no error token.
pub proof fn lemma_dotted_name_clean(t: Seq<TokenView>, pos: int, base: Seq<char>)
    ensures
        dotted_name(t, pos, base) matches Ok((name, p)) ==> clean(t, pos, p),
    decreases t.len() - pos,
{
    if symbol_at(t, pos, Symbols::Period) {
        match token_at(t, pos + 1) {
            Some(TokenView::Ident(member)) => {
                lemma_dotted_name_clean(t, pos + 2, base.push('.') + member);
            },
            _ => {},
        }
    }
}

/// The path of an include holds no error token.
pub proof fn lemma_include_path_clean(t: Seq<TokenView>, pos: int, path: Seq<char>)
    ensures
        include_path(t, pos, path) matches Ok((p, end)) ==> clean(t, pos, end),
    decreases t.len() - pos,
{
    match token_at(t, pos) {
        Some(TokenView::Ident(s)) => {
            lemma_include_path_clean(t, pos + 1, path + s);
        },
        Some(TokenView::Symbols(Symbols::Period)) => {
            lemma_include_path_clean(t, pos + 1, path.push('.'));
        },
        _ => {},
    }
}

/// The parameters of a function hold no error token.
pub proof fn lemma_function_params_clean(t: Seq<TokenView>, pos: int, params: Seq<Seq<char>>)
    ensures
        function_params(t, pos, params) matches Ok((names, end)) ==> clean(t, pos, end),
    decreases t.len() - pos,
{
    if !symbol_at(t, pos, Symbols::RParen) {
        match token_at(t, pos) {
            Some(TokenView::Ident(name)) => {
                if symbol_at(t, pos + 1, Symbols::Colon) && (token_at(t, pos + 2) matches Some(
                    TokenView::Types(_),
                )) {
                    if symbol_at(t, pos + 3, Symbols::Comma) {
                        lemma_function_params_clean(t, pos + 4, params.push(name));
                    } else {
                        lemma_function_params_clean(t, pos + 3, params.push(name));
                    }
                }
            },
            _ => {},
        }
    }
}

/// An expression holds no error token.
pub proof fn lemma_expr_clean(t: Seq<TokenView>, pos: int)
    ensures
        parse_expr_spec(t, pos) matches Ok((e, p)) ==> clean(t, pos, p),
    decreases t.len() - pos, 0int,
{
    match token_at(t, pos) {
        Some(TokenView::Ident(name)) => {
            lemma_dotted_name_clean(t, pos + 1, name);
            match behind(dotted_name(t, pos + 1, name), pos, t.len()) {
                Ok((callee, p)) => {
                    if symbol_at(t, p, Symbols::LParen) && !symbol_at(t, p + 1, Symbols::RParen) {
                        lemma_call_args_clean(t, p + 1);
                    }
                },
                Err(e) => {},
            }
        },
        Some(TokenView::Symbols(Symbols::LParen)) => {
            lemma_expr_clean(t, pos + 1);
        },
        _ => {},
    }
}

/// The arguments of a call hold no error token.
pub proof fn lemma_call_args_clean(t: Seq<TokenView>, pos: int)
    ensures
        call_args(t, pos) matches Ok((args, p)) ==> clean(t, pos, p),
    decreases t.len() - pos, 1int,
{
    lemma_expr_clean(t, pos);
    match behind(parse_expr_spec(t, pos), pos, t.len()) {
        Ok((arg, p)) => {
            if !symbol_at(t, p, Symbols::RParen) && symbol_at(t, p, Symbols::Comma) {
                lemma_call_args_clean(t, p + 1);
            }
        },
        Err(e) => {},
    }
}

/// An expression and the `;` that ends it hold no error token.
pub proof fn lemma_expr_then_semicolon_clean(t: Seq<TokenView>, pos: int)
    ensures
        expr_then_semicolon(t, pos) matches Ok((e, p)) ==> clean(t, pos, p),
{
    lemma_expr_clean(t, pos);
}

/// A declaration holds no error token.
pub proof fn lemma_var_decl_clean(t: Seq<TokenView>, pos: int)
    ensures
        parse_var_decl_spec(t, pos) matches Ok((s, p)) ==> clean(t, pos, p),
{
    lemma_expr_then_semicolon_clean(t, pos + 3);
    lemma_expr_then_semicolon_clean(t, pos + 4);
}

/// What follows `return` holds no error token.
pub proof fn lemma_return_clean(t: Seq<TokenView>, pos: int)
    ensures
        parse_return_spec(t, pos) matches Ok((s, p)) ==> clean(t, pos, p),
{
    lemma_expr_then_semicolon_clean(t, pos);
}

/// A condition in parentheses holds no error token.
pub proof fn lemma_condition_clean(t: Seq<TokenView>, pos: int)
    ensures
        parse_condition_spec(t, pos) matches Ok((e, p)) ==> clean(t, pos, p),
{
    lemma_expr_clean(t, pos + 1);
}

/// The name and the parameters of a function hold no error token.
pub proof fn lemma_signature_clean(t: Seq<TokenView>, pos: int)
    ensures
        parse_signature_spec(t, pos) matches Ok((sig, p)) ==> clean(t, pos, p),
{
    lemma_function_params_clean(t, pos + 3, Seq::empty());
}

/// Two stretches without an error token, one behind the other, and a
/// token between them that is none, make one stretch.
pub proof fn lemma_clean_joins(t: Seq<TokenView>, from: int, mid: int, to: int)
    requires
        clean(t, from, mid),
        clean(t, mid, to),
    ensures
        clean(t, from, to),
{
}

/// A statement holds no error token.
pub proof fn lemma_statement_clean(t: Seq<TokenView>, start: int)
    ensures
        parse_statement_spec(t, start) matches Ok((s, p)) ==> clean(t, start, p),
    decreases t.len() - start, 2int,
{
    let pos = skip_comments(t, start);
    lemma_skip_comments_bounds(t, start);
    lemma_skip_comments_clean(t, start);
    match parse_statement_spec(t, start) {
        Err(e) => {},
        Ok((s, end)) => {
            assert(token_at(t, pos) is Some ==> !(t[pos] is Error));
            if keyword_at(t, pos, Keyword::Include) {
                lemma_include_path_clean(t, pos + 1, Seq::empty());
                assert(clean(t, pos, end));
            } else if keyword_at(t, pos, Keyword::Local) || keyword_at(t, pos, Keyword::Global) {
                lemma_var_decl_clean(t, pos + 1);
                assert(clean(t, pos, end));
            } else if keyword_at(t, pos, Keyword::While) {
                lemma_condition_clean(t, pos + 1);
                let p = behind(parse_condition_spec(t, pos + 1), pos, t.len())->Ok_0.1;
                lemma_block_clean(t, p);
                lemma_clean_joins(t, pos + 1, p, end);
                assert(clean(t, pos, end));
            } else if keyword_at(t, pos, Keyword::If) {
                lemma_condition_clean(t, pos + 1);
                let p = behind(parse_condition_spec(t, pos + 1), pos, t.len())->Ok_0.1;
                lemma_block_clean(t, p);
                let q = behind(parse_block_spec(t, p), p, t.len())->Ok_0.1;
                lemma_clean_joins(t, pos + 1, p, q);
                if keyword_at(t, q, Keyword::Else) {
                    lemma_block_clean(t, q + 1);
                    assert(clean(t, q, end));
                    lemma_clean_joins(t, pos + 1, q, end);
                }
                assert(clean(t, pos, end));
            } else if keyword_at(t, pos, Keyword::Program) {
                lemma_signature_clean(t, pos + 1);
                let p = behind(parse_signature_spec(t, pos + 1), pos, t.len())->Ok_0.1;
                lemma_block_clean(t, p);
                lemma_clean_joins(t, pos + 1, p, end);
                assert(clean(t, pos, end));
            } else if keyword_at(t, pos, Keyword::Return) {
                lemma_return_clean(t, pos + 1);
                assert(clean(t, pos, end));
            } else if symbol_at(t, pos, Symbols::LCurlyBracket) {
                lemma_block_clean(t, pos);
            } else {
                lemma_expr_then_semicolon_clean(t, pos);
            }
            lemma_clean_joins(t, start, pos, end);
        },
    }
}

/// A block holds no error token.
pub proof fn lemma_block_clean(t: Seq<TokenView>, pos: int)
    ensures
        parse_block_spec(t, pos) matches Ok((stmts, p)) ==> clean(t, pos, p),
    decreases t.len() - pos, 1int,
{
    if symbol_at(t, pos, Symbols::LCurlyBracket) {
        lemma_block_rest_clean(t, pos + 1);
    }
}

/// The rest of a block holds no error token.
pub proof fn lemma_block_rest_clean(t: Seq<TokenView>, pos: int)
    ensures
        block_rest(t, pos) matches Ok((stmts, p)) ==> clean(t, pos, p),
    decreases t.len() - pos, 3int,
{
    if !symbol_at(t, pos, Symbols::RCurlyBracket) {
        lemma_statement_clean(t, pos);
        match behind(parse_statement_spec(t, pos), pos, t.len()) {
            Ok((first, p)) => {
                lemma_block_rest_clean(t, p);
            },
            Err(e) => {},
        }
    }
}

/// A program that parses holds no error token.
pub proof fn lemma_program_clean(t: Seq<TokenView>, pos: int)
    requires
        0 <= pos,
    ensures
        parse_program_spec(t, pos) is Ok ==> clean(t, pos, t.len() as int),
    decreases t.len() - pos,
{
    if token_at(t, pos) is Some {
        lemma_statement_clean(t, pos);
        match behind(parse_statement_spec(t, pos), pos, t.len()) {
            Ok((first, p)) => {
                lemma_program_clean(t, p);
                if parse_program_spec(t, pos) is Ok {
                    lemma_clean_joins(t, pos, p, t.len() as int);
                }
            },
            Err(e) => {},
        }
    }
}

/// An error token anywhere in what is left to parse makes the parse fail:
/// no piece of syntax has a place for one, so a lexical error is never
/// passed over.
pub proof fn lemma_error_token_fails_the_parse(t: Seq<TokenView>, pos: int, at: int)
    requires
        0 <= pos <= at < t.len(),
        t[at] is Error,
    ensures
        parse_program_spec(t, pos) is Err,
{
    lemma_program_clean(t, pos);
}

/// A name without dots that no `(` follows is a variable of that name, and
/// one that `(` `)` follow is a call of it without arguments; with dots, the
/// segments are joined by dots.
pub proof fn lemma_names_in_expressions(t: Seq<TokenView>, pos: int, name: Seq<char>, member: Seq<char>)
    requires
        token_at(t, pos) == Some(TokenView::Ident(name)),
    ensures
        !symbol_at(t, pos + 1, Symbols::Period) && !symbol_at(t, pos + 1, Symbols::LParen)
            ==> parse_expr_spec(t, pos) == Ok::<(ExprView, int), Seq<char>>(
            (ExprView::Variable { var_name: name, var_type: None }, pos + 1),
        ),
        symbol_at(t, pos + 1, Symbols::LParen) && symbol_at(t, pos + 2, Symbols::RParen)
            ==> parse_expr_spec(t, pos) == Ok::<(ExprView, int), Seq<char>>(
            (ExprView::FCall { callee: name, args: Seq::empty() }, pos + 3),
        ),
        symbol_at(t, pos + 1, Symbols::Period) && token_at(t, pos + 2) == Some(
            TokenView::Ident(member),
        ) && !symbol_at(t, pos + 3, Symbols::Period) && !symbol_at(t, pos + 3, Symbols::LParen)
            ==> parse_expr_spec(t, pos) == Ok::<(ExprView, int), Seq<char>>(
            (ExprView::Variable { var_name: name.push('.') + member, var_type: None }, pos + 3),
        ),
        symbol_at(t, pos + 1, Symbols::Period) && !(token_at(t, pos + 2) is Some && token_at(
            t,
            pos + 2,
        )->0 is Ident) ==> parse_expr_spec(t, pos) == Err::<(ExprView, int), Seq<char>>(
            expected_identifier_message(token_at(t, pos + 2)),
        ),
{
    reveal_with_fuel(dotted_name, 3);
}

} // verus!
