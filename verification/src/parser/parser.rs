//! The parser: recursive descent over a token sequence, one token of lookahead.
use vstd::prelude::*;
use vstd::string::StringExecFns;
use crate::lexer::token::{
    Keyword, Symbols, Token, TokenView, Types, keyword_text, symbol_text, token_views,
};
use crate::parser::ast::{
    Expr, ExprView, FunctionDecl, FunctionDeclView, Literal, Statement, StatementView, expr_views,
    lemma_block_view, lemma_call_view, lemma_function_view, statement_views, string_views,
};
use crate::parser::grammar::{
    Parsed, after, all_after, behind, block_rest, call_args, dotted_name,
    expected_identifier_message, expected_keyword_message, expected_symbol_message,
    expr_then_semicolon, function_params, include_path, keyword_at, lemma_after_nothing,
    lemma_after_one_more, lemma_all_after_nothing, lemma_all_after_one_more, parse_block_spec,
    parse_condition_spec, parse_expr_spec, parse_program_spec, parse_return_spec,
    parse_signature_spec, parse_statement_spec, parse_var_decl_spec, skip_comments, symbol_at,
    token_at,
};
use crate::text::string_push;

verus! {

/// A message made of a fixed text and a detail.
pub fn message_with(text: &str, detail: &str) -> (m: String)
    ensures
        m@ == text@ + detail@,
{
    let mut m = String::from_str(text);
    m.append(detail);
    m
}

/// The view of a token that may be absent.
pub open spec fn seen_token(tok: Option<&Token>) -> Option<TokenView> {
    match tok {
        Some(t) => Some(t@),
        None => None,
    }
}

/// What a parsing function returned, as the grammar states results: the view
/// of the piece and the position of the cursor, or the text of the message.
pub open spec fn seen<T: View>(r: Result<T, String>, end: int) -> Parsed<T::V> {
    match r {
        Ok(v) => Ok((v@, end)),
        Err(m) => Err(m@),
    }
}

/// As `seen`, for a list of statements.
pub open spec fn seen_statements(r: Result<Vec<Statement>, String>, end: int) -> Parsed<
    Seq<StatementView>,
> {
    match r {
        Ok(v) => Ok((statement_views(v@), end)),
        Err(m) => Err(m@),
    }
}

/// As `seen`, for a list of expressions.
pub open spec fn seen_exprs(r: Result<Vec<Expr>, String>, end: int) -> Parsed<Seq<ExprView>> {
    match r {
        Ok(v) => Ok((expr_views(v@), end)),
        Err(m) => Err(m@),
    }
}

/// As `seen`, for a list of names.
pub open spec fn seen_names(r: Result<Vec<String>, String>, end: int) -> Parsed<Seq<Seq<char>>> {
    match r {
        Ok(v) => Ok((string_views(v@), end)),
        Err(m) => Err(m@),
    }
}

/// A cursor over a token sequence.
pub struct Parser {
    tokens: Vec<Token>,
    pos: usize,
}

impl Parser {
    #[verifier::type_invariant]
    spec fn cursor_in_tokens(&self) -> bool {
        self.pos <= self.tokens.len()
    }

    /// The tokens that are being parsed.
    pub closed spec fn tokens(&self) -> Seq<TokenView> {
        token_views(self.tokens@)
    }

    /// The number of tokens that lie behind the cursor.
    pub closed spec fn position(&self) -> int {
        self.pos as int
    }

    /// A parser at the start of `tokens`.
    pub fn new(tokens: Vec<Token>) -> (parser: Self)
        ensures
            parser.tokens() == token_views(tokens@),
            parser.position() == 0,
    {
        Self { tokens, pos: 0 }
    }

    /// The token under the cursor, if the tokens have not ended.
    pub fn peek(&self) -> (tok: Option<&Token>)
        ensures
            seen_token(tok) == token_at(self.tokens(), self.position()),
            0 <= self.position() <= self.tokens().len(),
    {
        proof {
            use_type_invariant(self);
        }
        if self.pos < self.tokens.len() {
            Some(&self.tokens[self.pos])
        } else {
            None
        }
    }

    /// The token under the cursor, over which the cursor moves; nothing at
    /// the end of the tokens.
    pub fn next(&mut self) -> (tok: Option<&Token>)
        ensures
            final(self).tokens() == old(self).tokens(),
            seen_token(tok) == token_at(old(self).tokens(), old(self).position()),
            final(self).position() == old(self).position() + (if tok is Some {
                1int
            } else {
                0int
            }),
            0 <= old(self).position() <= final(self).position() <= old(self).tokens().len(),
    {
        proof {
            use_type_invariant(&*self);
        }
        if self.pos < self.tokens.len() {
            self.pos += 1;
            Some(&self.tokens[self.pos - 1])
        } else {
            None
        }
    }

    /// Moves over the keyword `kw` if it is under the cursor, and says whether
    /// it was.
    pub fn match_keyword(&mut self, kw: Keyword) -> (matched: bool)
        ensures
            final(self).tokens() == old(self).tokens(),
            matched == keyword_at(old(self).tokens(), old(self).position(), kw),
            final(self).position() == old(self).position() + (if matched {
                1int
            } else {
                0int
            }),
            0 <= old(self).position() <= final(self).position() <= old(self).tokens().len(),
    {
        let found = match self.peek() {
            Some(Token::Keyword(k)) => *k == kw,
            _ => false,
        };
        if found {
            assert(self.tokens().len() == self.tokens.len());
            self.pos += 1;
        }
        found
    }

    /// Moves over the symbol `sym` if it is under the cursor, and says whether
    /// it was.
    pub fn match_symbol(&mut self, sym: Symbols) -> (matched: bool)
        ensures
            final(self).tokens() == old(self).tokens(),
            matched == symbol_at(old(self).tokens(), old(self).position(), sym),
            final(self).position() == old(self).position() + (if matched {
                1int
            } else {
                0int
            }),
            0 <= old(self).position() <= final(self).position() <= old(self).tokens().len(),
    {
        let found = match self.peek() {
            Some(Token::Symbols(s)) => *s == sym,
            _ => false,
        };
        if found {
            assert(self.tokens().len() == self.tokens.len());
            self.pos += 1;
        }
        found
    }

    /// Moves over the symbol `sym`, or fails where another token, or none,
    /// is under the cursor.
    pub fn expect_symbol(&mut self, sym: Symbols) -> (r: Result<(), String>)
        ensures
            final(self).tokens() == old(self).tokens(),
            0 <= old(self).position() <= final(self).position() <= old(self).tokens().len(),
            symbol_at(old(self).tokens(), old(self).position(), sym) ==> r is Ok
                && final(self).position() == old(self).position() + 1,
            !symbol_at(old(self).tokens(), old(self).position(), sym) ==> final(self).position()
                == old(self).position() && (r matches Err(m) && m@ == expected_symbol_message(
                sym,
            )),
    {
        if self.match_symbol(sym) {
            Ok(())
        } else {
            Err(message_with("Expected symbol ", symbol_text(sym)))
        }
    }

    /// Moves over the keyword `kw`, or fails where another token, or none,
    /// is under the cursor.
    pub fn expect_keyword(&mut self, kw: Keyword) -> (r: Result<(), String>)
        ensures
            final(self).tokens() == old(self).tokens(),
            0 <= old(self).position() <= final(self).position() <= old(self).tokens().len(),
            keyword_at(old(self).tokens(), old(self).position(), kw) ==> r is Ok
                && final(self).position() == old(self).position() + 1,
            !keyword_at(old(self).tokens(), old(self).position(), kw) ==> final(self).position()
                == old(self).position() && (r matches Err(m) && m@ == expected_keyword_message(
                kw,
            )),
    {
        if self.match_keyword(kw) {
            Ok(())
        } else {
            Err(message_with("Expected keyword ", keyword_text(kw)))
        }
    }

    /// Takes the identifier under the cursor, or fails where another token,
    /// or none, is there. The cursor moves over whatever token it finds.
    pub fn expect_ident(&mut self) -> (r: Result<String, String>)
        ensures
            final(self).tokens() == old(self).tokens(),
            0 <= old(self).position() <= final(self).position() <= old(self).tokens().len(),
            final(self).position() == old(self).position() + (if token_at(
                old(self).tokens(),
                old(self).position(),
            ) is Some {
                1int
            } else {
                0int
            }),
            match token_at(old(self).tokens(), old(self).position()) {
                Some(TokenView::Ident(id)) => r matches Ok(name) && name@ == id,
                other => r matches Err(m) && m@ == expected_identifier_message(other),
            },
    {
        match self.next() {
            Some(Token::Ident(id)) => Ok(id.clone()),
            Some(other) => {
                let shown = other.describe();
                Err(message_with("Expected identifier, got ", shown.as_str()))
            },
            None => Err(message_with("Expected identifier, got ", "end of input")),
        }
    }

    /// Parses all the tokens from the cursor on, as a sequence of statements.
    /// The first error ends the parse and is returned.
    pub fn parse(&mut self) -> (r: Result<Vec<Statement>, String>)
        ensures
            final(self).tokens() == old(self).tokens(),
            match parse_program_spec(old(self).tokens(), old(self).position()) {
                Ok(v) => r matches Ok(stmts) && statement_views(stmts@) == v
                    && final(self).position() == old(self).tokens().len(),
                Err(e) => r matches Err(m) && m@ == e,
            },
    {
        let ghost t = self.tokens();
        let ghost start = self.position();
        let mut stmts: Vec<Statement> = Vec::new();
        proof {
            assert(statement_views(stmts@) =~= Seq::<StatementView>::empty());
            lemma_all_after_nothing(parse_program_spec(t, start));
        }
        loop
            invariant_except_break
                parse_program_spec(t, start) == all_after(
                    statement_views(stmts@),
                    parse_program_spec(t, self.position()),
                ),
            invariant
                self.tokens() == t,
                t == old(self).tokens(),
                start == old(self).position(),
            ensures
                parse_program_spec(t, start) == Ok::<Seq<StatementView>, Seq<char>>(
                    statement_views(stmts@),
                ),
                self.position() == t.len(),
            decreases t.len() - self.position(),
        {
            if self.peek().is_none() {
                assert(statement_views(stmts@) + Seq::<StatementView>::empty() =~= statement_views(
                    stmts@,
                ));
                break ;
            }
            let ghost before = statement_views(stmts@);
            match self.parse_statement() {
                Ok(stmt) => {
                    stmts.push(stmt);
                    proof {
                        assert(statement_views(stmts@) =~= before.push(stmt@));
                        lemma_all_after_one_more(
                            before,
                            stmt@,
                            parse_program_spec(t, self.position()),
                        );
                    }
                },
                Err(e) => {
                    return Err(e);
                },
            }
        }
        Ok(stmts)
    }

    /// A statement. See `parse_statement_spec`.
    fn parse_statement(&mut self) -> (r: Result<Statement, String>)
        ensures
            final(self).tokens() == old(self).tokens(),
            seen(r, final(self).position()) == parse_statement_spec(
                old(self).tokens(),
                old(self).position(),
            ),
            r is Ok ==> old(self).position() < final(self).position() <= old(self).tokens().len(),
        decreases old(self).tokens().len() - old(self).position(), 3int, 0int,
    {
        let ghost t = self.tokens();
        let ghost start = self.position();
        loop
            invariant
                self.tokens() == t,
                start <= self.position(),
                skip_comments(t, start) == skip_comments(t, self.position()),
            ensures
                self.tokens() == t,
                start <= self.position(),
                self.position() == skip_comments(t, start),
            decreases t.len() - self.position(),
        {
            if !self.match_symbol(Symbols::Comment) {
                break ;
            }
        }
        if self.match_keyword(Keyword::Include) {
            return self.parse_include();
        }
        if self.match_keyword(Keyword::Local) || self.match_keyword(Keyword::Global) {
            return self.parse_var_decl();
        }
        if self.match_keyword(Keyword::While) {
            return self.parse_while_loops();
        }
        if self.match_keyword(Keyword::If) {
            return self.parse_if_statement();
        }
        if self.match_keyword(Keyword::Program) {
            return self.parse_functions();
        }
        if self.match_keyword(Keyword::Return) {
            return self.parse_return();
        }
        let block = match self.peek() {
            Some(Token::Symbols(s)) => *s == Symbols::LCurlyBracket,
            _ => false,
        };
        if block {
            return match self.parse_block() {
                Ok(stmts) => {
                    proof {
                        lemma_block_view(stmts);
                    }
                    Ok(Statement::Block(stmts))
                },
                Err(e) => Err(e),
            };
        }
        match self.parse_expr_statement() {
            Ok(e) => Ok(Statement::Expression(e)),
            Err(e) => Err(e),
        }
    }

    /// An expression and the `;` that ends it.
    fn parse_expr_statement(&mut self) -> (r: Result<Expr, String>)
        ensures
            final(self).tokens() == old(self).tokens(),
            seen(r, final(self).position()) == expr_then_semicolon(
                old(self).tokens(),
                old(self).position(),
            ),
            r is Ok ==> old(self).position() < final(self).position() <= old(self).tokens().len(),
        decreases old(self).tokens().len() - old(self).position(), 1int, 0int,
    {
        let expr = match self.parse_expr() {
            Ok(e) => e,
            Err(e) => {
                return Err(e);
            },
        };
        match self.expect_symbol(Symbols::SemiColon) {
            Ok(()) => Ok(expr),
            Err(e) => Err(e),
        }
    }

    /// The path of an include, behind the keyword. See `include_path`.
    fn parse_include(&mut self) -> (r: Result<Statement, String>)
        ensures
            final(self).tokens() == old(self).tokens(),
            match include_path(old(self).tokens(), old(self).position(), Seq::empty()) {
                Ok((path, p)) => r matches Ok(s) && s@ == StatementView::Include(path)
                    && final(self).position() == p,
                Err(e) => r matches Err(m) && m@ == e,
            },
            r is Ok ==> old(self).position() < final(self).position() <= old(self).tokens().len(),
    {
        let ghost t = self.tokens();
        let ghost start = self.position();
        let mut path = String::new();
        loop
            invariant
                self.tokens() == t,
                t == old(self).tokens(),
                start == old(self).position(),
                start <= self.position(),
                include_path(t, start, Seq::empty()) == include_path(t, self.position(), path@),
            decreases t.len() - self.position(),
        {
            let ghost before = path@;
            match self.next() {
                None => {
                    return Err(String::from_str("Unexpected EOF in include"));
                },
                Some(Token::Ident(s)) => {
                    path.append(s.as_str());
                },
                Some(Token::Symbols(Symbols::Period)) => {
                    string_push(&mut path, '.');
                },
                Some(Token::Symbols(Symbols::SemiColon)) => {
                    return Ok(Statement::Include(path));
                },
                Some(tok) => {
                    let shown = tok.describe();
                    return Err(message_with("Unexpected token in include: ", shown.as_str()));
                },
            }
        }
    }

    /// What follows `return`. See `parse_return_spec`.
    fn parse_return(&mut self) -> (r: Result<Statement, String>)
        ensures
            final(self).tokens() == old(self).tokens(),
            seen(r, final(self).position()) == parse_return_spec(
                old(self).tokens(),
                old(self).position(),
            ),
            r is Ok ==> old(self).position() < final(self).position() <= old(self).tokens().len(),
        decreases old(self).tokens().len() - old(self).position(), 2int, 0int,
    {
        if self.match_symbol(Symbols::SemiColon) {
            return Ok(Statement::Return { value: None });
        }
        match self.parse_expr_statement() {
            Ok(e) => Ok(Statement::Return { value: Some(e) }),
            Err(e) => Err(e),
        }
    }

    /// The parameters of a function, behind the `(`. See `function_params`.
    fn parse_params(&mut self) -> (r: Result<Vec<String>, String>)
        ensures
            final(self).tokens() == old(self).tokens(),
            seen_names(r, final(self).position()) == function_params(
                old(self).tokens(),
                old(self).position(),
                Seq::empty(),
            ),
            r is Ok ==> old(self).position() < final(self).position() <= old(self).tokens().len(),
    {
        let ghost t = self.tokens();
        let ghost start = self.position();
        let mut params: Vec<String> = Vec::new();
        assert(string_views(params@) =~= Seq::<Seq<char>>::empty());
        loop
            invariant
                self.tokens() == t,
                t == old(self).tokens(),
                start == old(self).position(),
                start <= self.position(),
                function_params(t, start, Seq::empty()) == function_params(
                    t,
                    self.position(),
                    string_views(params@),
                ),
            decreases t.len() - self.position(),
        {
            if self.match_symbol(Symbols::RParen) {
                return Ok(params);
            }
            let param_name = match self.expect_ident() {
                Ok(name) => name,
                Err(e) => {
                    return Err(e);
                },
            };
            match self.expect_symbol(Symbols::Colon) {
                Ok(()) => {},
                Err(e) => {
                    return Err(e);
                },
            }
            let typed = match self.peek() {
                Some(Token::Types(_)) => true,
                _ => false,
            };
            if !typed {
                return Err(String::from_str("Expected type after ':' in function parameter"));
            }
            let _ = self.next();
            let _ = self.match_symbol(Symbols::Comma);
            let ghost before = string_views(params@);
            params.push(param_name);
            assert(string_views(params@) =~= before.push(param_name@));
        }
    }

    /// A function, behind `program`. See `parse_signature_spec`.
    fn parse_functions(&mut self) -> (r: Result<Statement, String>)
        ensures
            final(self).tokens() == old(self).tokens(),
            match behind(
                parse_signature_spec(old(self).tokens(), old(self).position()),
                old(self).position() - 1,
                old(self).tokens().len(),
            ) {
                Err(e) => r matches Err(m) && m@ == e,
                Ok(((name, params), p)) => match parse_block_spec(old(self).tokens(), p) {
                    Err(e) => r matches Err(m) && m@ == e,
                    Ok((body, q)) => r matches Ok(s) && s@ == StatementView::Function(
                        FunctionDeclView { name, params, body },
                    ) && final(self).position() == q,
                },
            },
            r is Ok ==> old(self).position() < final(self).position() <= old(self).tokens().len(),
        decreases old(self).tokens().len() - old(self).position(), 2int, 0int,
    {
        match self.expect_keyword(Keyword::Assign) {
            Ok(()) => {},
            Err(e) => {
                return Err(e);
            },
        }
        let name = match self.expect_ident() {
            Ok(name) => name,
            Err(e) => {
                return Err(e);
            },
        };
        let mut params: Vec<String> = Vec::new();
        assert(string_views(params@) =~= Seq::<Seq<char>>::empty());
        if self.match_symbol(Symbols::LParen) {
            params = match self.parse_params() {
                Ok(names) => names,
                Err(e) => {
                    return Err(e);
                },
            };
        }
        let body = match self.parse_block() {
            Ok(stmts) => stmts,
            Err(e) => {
                return Err(e);
            },
        };
        let decl = FunctionDecl { name, params, body };
        proof {
            lemma_function_view(decl);
        }
        Ok(Statement::Function(decl))
    }

    /// A condition in parentheses. See `parse_condition_spec`.
    fn parse_condition(&mut self) -> (r: Result<Expr, String>)
        ensures
            final(self).tokens() == old(self).tokens(),
            seen(r, final(self).position()) == parse_condition_spec(
                old(self).tokens(),
                old(self).position(),
            ),
            r is Ok ==> old(self).position() < final(self).position() <= old(self).tokens().len(),
        decreases old(self).tokens().len() - old(self).position(), 1int, 0int,
    {
        match self.expect_symbol(Symbols::LParen) {
            Ok(()) => {},
            Err(e) => {
                return Err(e);
            },
        }
        let condition = match self.parse_expr() {
            Ok(e) => e,
            Err(e) => {
                return Err(e);
            },
        };
        match self.expect_symbol(Symbols::RParen) {
            Ok(()) => Ok(condition),
            Err(e) => Err(e),
        }
    }

    /// A loop, behind `while`: a condition in parentheses and a block.
    fn parse_while_loops(&mut self) -> (r: Result<Statement, String>)
        ensures
            final(self).tokens() == old(self).tokens(),
            match behind(
                parse_condition_spec(old(self).tokens(), old(self).position()),
                old(self).position() - 1,
                old(self).tokens().len(),
            ) {
                Err(e) => r matches Err(m) && m@ == e,
                Ok((condition, p)) => match parse_block_spec(old(self).tokens(), p) {
                    Err(e) => r matches Err(m) && m@ == e,
                    Ok((body, q)) => r matches Ok(s) && s@ == (StatementView::While {
                        condition,
                        body: Box::new(StatementView::Block(body)),
                    }) && final(self).position() == q,
                },
            },
            r is Ok ==> old(self).position() < final(self).position() <= old(self).tokens().len(),
        decreases old(self).tokens().len() - old(self).position(), 2int, 0int,
    {
        let condition = match self.parse_condition() {
            Ok(e) => e,
            Err(e) => {
                return Err(e);
            },
        };
        let stmts = match self.parse_block() {
            Ok(stmts) => stmts,
            Err(e) => {
                return Err(e);
            },
        };
        proof {
            lemma_block_view(stmts);
        }
        Ok(Statement::While { condition, body: Box::new(Statement::Block(stmts)) })
    }

    /// A conditional, behind `if`: a condition in parentheses, a block, and
    /// after `else` another block.
    fn parse_if_statement(&mut self) -> (r: Result<Statement, String>)
        ensures
            final(self).tokens() == old(self).tokens(),
            match behind(
                parse_condition_spec(old(self).tokens(), old(self).position()),
                old(self).position() - 1,
                old(self).tokens().len(),
            ) {
                Err(e) => r matches Err(m) && m@ == e,
                Ok((condition, p)) => match behind(
                    parse_block_spec(old(self).tokens(), p),
                    p,
                    old(self).tokens().len(),
                ) {
                    Err(e) => r matches Err(m) && m@ == e,
                    Ok((then_stmts, q)) => if keyword_at(old(self).tokens(), q, Keyword::Else) {
                        match parse_block_spec(old(self).tokens(), q + 1) {
                            Err(e) => r matches Err(m) && m@ == e,
                            Ok((else_stmts, end)) => r matches Ok(s) && s@ == (StatementView::If {
                                condition,
                                then_branch: Box::new(StatementView::Block(then_stmts)),
                                else_branch: Some(Box::new(StatementView::Block(else_stmts))),
                            }) && final(self).position() == end,
                        }
                    } else {
                        r matches Ok(s) && s@ == (StatementView::If {
                            condition,
                            then_branch: Box::new(StatementView::Block(then_stmts)),
                            else_branch: None,
                        }) && final(self).position() == q
                    },
                },
            },
            r is Ok ==> old(self).position() < final(self).position() <= old(self).tokens().len(),
        decreases old(self).tokens().len() - old(self).position(), 2int, 0int,
    {
        let condition = match self.parse_condition() {
            Ok(e) => e,
            Err(e) => {
                return Err(e);
            },
        };
        let then_stmts = match self.parse_block() {
            Ok(stmts) => stmts,
            Err(e) => {
                return Err(e);
            },
        };
        proof {
            lemma_block_view(then_stmts);
        }
        let then_branch = Box::new(Statement::Block(then_stmts));
        let else_branch = if self.match_keyword(Keyword::Else) {
            let else_stmts = match self.parse_block() {
                Ok(stmts) => stmts,
                Err(e) => {
                    return Err(e);
                },
            };
            proof {
                lemma_block_view(else_stmts);
            }
            Some(Box::new(Statement::Block(else_stmts)))
        } else {
            None
        };
        Ok(Statement::If { condition, then_branch, else_branch })
    }

    /// A block: `{`, statements, `}`. See `parse_block_spec`.
    fn parse_block(&mut self) -> (r: Result<Vec<Statement>, String>)
        ensures
            final(self).tokens() == old(self).tokens(),
            seen_statements(r, final(self).position()) == parse_block_spec(
                old(self).tokens(),
                old(self).position(),
            ),
            r is Ok ==> old(self).position() < final(self).position() <= old(self).tokens().len(),
        decreases old(self).tokens().len() - old(self).position(), 1int, 0int,
    {
        match self.expect_symbol(Symbols::LCurlyBracket) {
            Ok(()) => {},
            Err(e) => {
                return Err(e);
            },
        }
        let ghost t = self.tokens();
        let ghost start = self.position();
        let mut stmts: Vec<Statement> = Vec::new();
        proof {
            assert(statement_views(stmts@) =~= Seq::<StatementView>::empty());
            lemma_after_nothing(block_rest(t, start));
        }
        loop
            invariant
                self.tokens() == t,
                t == old(self).tokens(),
                start == old(self).position() + 1,
                parse_block_spec(t, start - 1) == block_rest(t, start),
                start <= self.position() <= t.len(),
                block_rest(t, start) == after(
                    statement_views(stmts@),
                    block_rest(t, self.position()),
                ),
            decreases t.len() - self.position(),
        {
            if self.match_symbol(Symbols::RCurlyBracket) {
                assert(statement_views(stmts@) + Seq::<StatementView>::empty() =~= statement_views(
                    stmts@,
                ));
                return Ok(stmts);
            }
            let ghost before = statement_views(stmts@);
            match self.parse_statement() {
                Ok(stmt) => {
                    stmts.push(stmt);
                    proof {
                        assert(statement_views(stmts@) =~= before.push(stmt@));
                        lemma_after_one_more(before, stmt@, block_rest(t, self.position()));
                    }
                },
                Err(e) => {
                    return Err(e);
                },
            }
        }
    }

    /// A declaration, behind `local` or `global`. See `parse_var_decl_spec`.
    fn parse_var_decl(&mut self) -> (r: Result<Statement, String>)
        ensures
            final(self).tokens() == old(self).tokens(),
            seen(r, final(self).position()) == parse_var_decl_spec(
                old(self).tokens(),
                old(self).position(),
            ),
            r is Ok ==> old(self).position() < final(self).position() <= old(self).tokens().len(),
        decreases old(self).tokens().len() - old(self).position(), 2int, 0int,
    {
        let name = match self.expect_ident() {
            Ok(name) => name,
            Err(e) => {
                return Err(e);
            },
        };
        match self.expect_symbol(Symbols::Colon) {
            Ok(()) => {},
            Err(e) => {
                return Err(e);
            },
        }
        let var_type = match self.peek() {
            Some(Token::Types(ty)) => Some(*ty),
            _ => None,
        };
        if var_type.is_some() {
            let _ = self.next();
        }
        if self.match_keyword(Keyword::Assign) {
            return match self.parse_expr_statement() {
                Ok(e) => Ok(Statement::VarDecl { name, var_type, initializer: Some(e) }),
                Err(e) => Err(e),
            };
        }
        match self.expect_symbol(Symbols::SemiColon) {
            Ok(()) => Ok(Statement::VarDecl { name, var_type, initializer: None }),
            Err(e) => Err(e),
        }
    }

    /// An expression. Operators are not part of the grammar: an expression is
    /// a term.
    fn parse_expr(&mut self) -> (r: Result<Expr, String>)
        ensures
            final(self).tokens() == old(self).tokens(),
            seen(r, final(self).position()) == parse_expr_spec(
                old(self).tokens(),
                old(self).position(),
            ),
            r is Ok ==> old(self).position() < final(self).position() <= old(self).tokens().len(),
        decreases old(self).tokens().len() - old(self).position(), 0int, 4int,
    {
        self.parse_term()
    }

    /// A term: a factor.
    fn parse_term(&mut self) -> (r: Result<Expr, String>)
        ensures
            final(self).tokens() == old(self).tokens(),
            seen(r, final(self).position()) == parse_expr_spec(
                old(self).tokens(),
                old(self).position(),
            ),
            r is Ok ==> old(self).position() < final(self).position() <= old(self).tokens().len(),
        decreases old(self).tokens().len() - old(self).position(), 0int, 3int,
    {
        self.parse_factor()
    }

    /// A factor: a unary expression.
    fn parse_factor(&mut self) -> (r: Result<Expr, String>)
        ensures
            final(self).tokens() == old(self).tokens(),
            seen(r, final(self).position()) == parse_expr_spec(
                old(self).tokens(),
                old(self).position(),
            ),
            r is Ok ==> old(self).position() < final(self).position() <= old(self).tokens().len(),
        decreases old(self).tokens().len() - old(self).position(), 0int, 2int,
    {
        self.parse_unary()
    }

    /// A unary expression: a primary expression.
    fn parse_unary(&mut self) -> (r: Result<Expr, String>)
        ensures
            final(self).tokens() == old(self).tokens(),
            seen(r, final(self).position()) == parse_expr_spec(
                old(self).tokens(),
                old(self).position(),
            ),
            r is Ok ==> old(self).position() < final(self).position() <= old(self).tokens().len(),
        decreases old(self).tokens().len() - old(self).position(), 0int, 1int,
    {
        self.parse_prim()
    }

    /// The rest of a dotted name. See `dotted_name`.
    fn parse_dotted(&mut self, first: String) -> (r: Result<String, String>)
        ensures
            final(self).tokens() == old(self).tokens(),
            seen(r, final(self).position()) == dotted_name(
                old(self).tokens(),
                old(self).position(),
                first@,
            ),
            r is Ok ==> old(self).position() <= final(self).position() <= old(self).tokens().len(),
    {
        let ghost t = self.tokens();
        let ghost start = self.position();
        let mut base = first;
        loop
            invariant
                self.tokens() == t,
                t == old(self).tokens(),
                start == old(self).position(),
                start <= self.position(),
                dotted_name(t, start, first@) == dotted_name(t, self.position(), base@),
            ensures
                self.tokens() == t,
                start <= self.position() <= t.len(),
                dotted_name(t, start, first@) == Ok::<(Seq<char>, int), Seq<char>>(
                    (base@, self.position()),
                ),
            decreases t.len() - self.position(),
        {
            if !self.match_symbol(Symbols::Period) {
                break ;
            }
            let member = match self.expect_ident() {
                Ok(name) => name,
                Err(e) => {
                    return Err(e);
                },
            };
            string_push(&mut base, '.');
            base.append(member.as_str());
        }
        Ok(base)
    }

    /// The arguments of a call, behind a `(` that no `)` follows at once.
    /// See `call_args`.
    fn parse_args(&mut self) -> (r: Result<Vec<Expr>, String>)
        ensures
            final(self).tokens() == old(self).tokens(),
            seen_exprs(r, final(self).position()) == call_args(
                old(self).tokens(),
                old(self).position(),
            ),
            r is Ok ==> old(self).position() < final(self).position() <= old(self).tokens().len(),
        decreases old(self).tokens().len() - old(self).position(), 1int, 0int,
    {
        let ghost t = self.tokens();
        let ghost start = self.position();
        let mut args: Vec<Expr> = Vec::new();
        proof {
            use_type_invariant(&*self);
            assert(expr_views(args@) =~= Seq::<ExprView>::empty());
            lemma_after_nothing(call_args(t, start));
        }
        loop
            invariant
                self.tokens() == t,
                t == old(self).tokens(),
                start == old(self).position(),
                start <= self.position() <= t.len(),
                call_args(t, start) == after(expr_views(args@), call_args(t, self.position())),
            decreases t.len() - self.position(),
        {
            let ghost before = expr_views(args@);
            let ghost at = self.position();
            let arg = match self.parse_expr() {
                Ok(e) => e,
                Err(e) => {
                    return Err(e);
                },
            };
            args.push(arg);
            assert(expr_views(args@) =~= before.push(arg@));
            if self.match_symbol(Symbols::RParen) {
                assert(before + seq![arg@] =~= before.push(arg@));
                return Ok(args);
            }
            match self.expect_symbol(Symbols::Comma) {
                Ok(()) => {},
                Err(e) => {
                    return Err(e);
                },
            }
            proof {
                lemma_after_one_more(before, arg@, call_args(t, self.position()));
            }
        }
    }

    /// A primary expression. See `parse_expr_spec`.
    fn parse_prim(&mut self) -> (r: Result<Expr, String>)
        ensures
            final(self).tokens() == old(self).tokens(),
            seen(r, final(self).position()) == parse_expr_spec(
                old(self).tokens(),
                old(self).position(),
            ),
            r is Ok ==> old(self).position() < final(self).position() <= old(self).tokens().len(),
        decreases old(self).tokens().len() - old(self).position(), 0int, 0int,
    {
        let tok = match self.next() {
            Some(t) => t.clone(),
            None => {
                return Err(String::from_str("Unexpected EOF while parsing primary expression"));
            },
        };
        match tok {
            Token::Number(text) => Ok(Expr::Literal(Literal::Number(text))),
            Token::Literal(s) => Ok(Expr::Literal(Literal::String(s))),
            Token::Ident(name) => {
                let base = match self.parse_dotted(name) {
                    Ok(base) => base,
                    Err(e) => {
                        return Err(e);
                    },
                };
                if self.match_symbol(Symbols::LParen) {
                    let mut args: Vec<Expr> = Vec::new();
                    if !self.match_symbol(Symbols::RParen) {
                        args = match self.parse_args() {
                            Ok(args) => args,
                            Err(e) => {
                                return Err(e);
                            },
                        };
                    }
                    proof {
                        lemma_call_view(base, args);
                        assert(expr_views(Seq::<Expr>::empty()) =~= Seq::<ExprView>::empty());
                    }
                    Ok(Expr::FCall { callee: base, args })
                } else {
                    Ok(Expr::Variable { var_name: base, var_type: None })
                }
            },
            Token::Symbols(Symbols::LParen) => {
                let expr = match self.parse_expr() {
                    Ok(e) => e,
                    Err(e) => {
                        return Err(e);
                    },
                };
                match self.next() {
                    Some(Token::Symbols(Symbols::RParen)) => Ok(expr),
                    Some(other) => {
                        let shown = other.describe();
                        Err(
                            message_with(
                                "Expected ')' to close grouping, found ",
                                shown.as_str(),
                            ),
                        )
                    },
                    None => Err(
                        message_with("Expected ')' to close grouping, found ", "end of input"),
                    ),
                }
            },
            other => {
                let shown = other.describe();
                Err(message_with("Unexpected token in expression: ", shown.as_str()))
            },
        }
    }
}

} // verus!
