//! The syntax tree: expressions, statements and function declarations.
use vstd::prelude::*;
use crate::lexer::token::Types;

verus! {

/// The operators of unary and binary expressions.
#[derive(Debug, PartialEq, Eq, Structural, Clone, Copy)]
pub enum Operation {
    Add,
    Subtract,
    Multiply,
    Divide,
    Modulo,
    /// Equality of two strings.
    Equal,
    /// Flips the sign of a number.
    Negate,
    /// Flips a boolean.
    Not,
}

/// The name of an operator, as messages show it.
pub open spec fn operation_name(op: Operation) -> Seq<char> {
    match op {
        Operation::Add => "Add"@,
        Operation::Subtract => "Subtract"@,
        Operation::Multiply => "Multiply"@,
        Operation::Divide => "Divide"@,
        Operation::Modulo => "Modulo"@,
        Operation::Equal => "Equal"@,
        Operation::Negate => "Negate"@,
        Operation::Not => "Not"@,
    }
}

pub fn operation_text(op: Operation) -> (r: &'static str)
    ensures
        r@ == operation_name(op),
{
    match op {
        Operation::Add => "Add",
        Operation::Subtract => "Subtract",
        Operation::Multiply => "Multiply",
        Operation::Divide => "Divide",
        Operation::Modulo => "Modulo",
        Operation::Equal => "Equal",
        Operation::Negate => "Negate",
        Operation::Not => "Not",
    }
}

#[derive(Debug)]
pub enum Literal {
    /// A number, as the decimal text that the source gave.
    Number(String),
    String(String),
    Bool(bool),
    Nil,
}

#[derive(Debug)]
pub enum Expr {
    Binary { left: Box<Expr>, op: Operation, right: Box<Expr> },
    Unary { op: Operation, right: Box<Expr> },
    Assign { name: String, value: Box<Expr> },
    /// A call; the callee is a name that may be qualified by dots.
    FCall { callee: String, args: Vec<Expr> },
    Literal(Literal),
    /// A variable that is read, with the type it was declared with where
    /// that is known at this place.
    Variable { var_name: String, var_type: Option<Types> },
}

#[derive(Debug)]
pub enum Statement {
    Expression(Expr),
    VarDecl { name: String, var_type: Option<Types>, initializer: Option<Expr> },
    Block(Vec<Statement>),
    If { condition: Expr, then_branch: Box<Statement>, else_branch: Option<Box<Statement>> },
    While { condition: Expr, body: Box<Statement> },
    Function(FunctionDecl),
    Return { value: Option<Expr> },
    /// An include, with the dotted path as it was written.
    Include(String),
}

#[derive(Debug)]
pub struct FunctionDecl {
    pub name: String,
    pub params: Vec<String>,
    pub body: Vec<Statement>,
}

pub enum LiteralView {
    Number(Seq<char>),
    String(Seq<char>),
    Bool(bool),
    Nil,
}

pub enum ExprView {
    Binary { left: Box<ExprView>, op: Operation, right: Box<ExprView> },
    Unary { op: Operation, right: Box<ExprView> },
    Assign { name: Seq<char>, value: Box<ExprView> },
    FCall { callee: Seq<char>, args: Seq<ExprView> },
    Literal(LiteralView),
    Variable { var_name: Seq<char>, var_type: Option<Types> },
}

pub enum StatementView {
    Expression(ExprView),
    VarDecl { name: Seq<char>, var_type: Option<Types>, initializer: Option<ExprView> },
    Block(Seq<StatementView>),
    If {
        condition: ExprView,
        then_branch: Box<StatementView>,
        else_branch: Option<Box<StatementView>>,
    },
    While { condition: ExprView, body: Box<StatementView> },
    Function(FunctionDeclView),
    Return { value: Option<ExprView> },
    Include(Seq<char>),
}

pub struct FunctionDeclView {
    pub name: Seq<char>,
    pub params: Seq<Seq<char>>,
    pub body: Seq<StatementView>,
}

impl View for Literal {
    type V = LiteralView;

    open spec fn view(&self) -> LiteralView {
        match self {
            Literal::Number(n) => LiteralView::Number(n@),
            Literal::String(s) => LiteralView::String(s@),
            Literal::Bool(b) => LiteralView::Bool(*b),
            Literal::Nil => LiteralView::Nil,
        }
    }
}

/// The view of an expression: the same tree over sequences.
pub open spec fn expr_view(e: Expr) -> ExprView
    decreases e,
{
    match e {
        Expr::Binary { left, op, right } => ExprView::Binary {
            left: Box::new(expr_view(*left)),
            op,
            right: Box::new(expr_view(*right)),
        },
        Expr::Unary { op, right } => ExprView::Unary { op, right: Box::new(expr_view(*right)) },
        Expr::Assign { name, value } => ExprView::Assign {
            name: name@,
            value: Box::new(expr_view(*value)),
        },
        Expr::FCall { callee, args } => ExprView::FCall {
            callee: callee@,
            args: Seq::new(
                args@.len(),
                |i: int|
                    if 0 <= i < args@.len() {
                        expr_view(args@[i])
                    } else {
                        ExprView::Literal(LiteralView::Nil)
                    },
            ),
        },
        Expr::Literal(l) => ExprView::Literal(l@),
        Expr::Variable { var_name, var_type } => ExprView::Variable { var_name: var_name@, var_type },
    }
}

impl View for Expr {
    type V = ExprView;

    open spec fn view(&self) -> ExprView {
        expr_view(*self)
    }
}

/// The views of a sequence of expressions, in order.
pub open spec fn expr_views(es: Seq<Expr>) -> Seq<ExprView> {
    Seq::new(es.len(), |i: int| es[i]@)
}

/// The view of a statement: the same tree over sequences.
pub open spec fn statement_view(s: Statement) -> StatementView
    decreases s,
{
    match s {
        Statement::Expression(e) => StatementView::Expression(e@),
        Statement::VarDecl { name, var_type, initializer } => StatementView::VarDecl {
            name: name@,
            var_type,
            initializer: match initializer {
                Some(e) => Some(e@),
                None => None,
            },
        },
        Statement::Block(stmts) => StatementView::Block(
            Seq::new(
                stmts@.len(),
                |i: int|
                    if 0 <= i < stmts@.len() {
                        statement_view(stmts@[i])
                    } else {
                        StatementView::Block(Seq::empty())
                    },
            ),
        ),
        Statement::If { condition, then_branch, else_branch } => StatementView::If {
            condition: condition@,
            then_branch: Box::new(statement_view(*then_branch)),
            else_branch: match else_branch {
                Some(b) => Some(Box::new(statement_view(*b))),
                None => None,
            },
        },
        Statement::While { condition, body } => StatementView::While {
            condition: condition@,
            body: Box::new(statement_view(*body)),
        },
        Statement::Function(decl) => StatementView::Function(
            FunctionDeclView {
                name: decl.name@,
                params: Seq::new(decl.params@.len(), |i: int| decl.params@[i]@),
                body: Seq::new(
                    decl.body@.len(),
                    |i: int|
                        if 0 <= i < decl.body@.len() {
                            statement_view(decl.body@[i])
                        } else {
                            StatementView::Block(Seq::empty())
                        },
                ),
            },
        ),
        Statement::Return { value } => StatementView::Return {
            value: match value {
                Some(e) => Some(e@),
                None => None,
            },
        },
        Statement::Include(path) => StatementView::Include(path@),
    }
}

impl View for Statement {
    type V = StatementView;

    open spec fn view(&self) -> StatementView {
        statement_view(*self)
    }
}

/// The views of a sequence of statements, in order.
pub open spec fn statement_views(stmts: Seq<Statement>) -> Seq<StatementView> {
    Seq::new(stmts.len(), |i: int| stmts[i]@)
}

/// The views of a sequence of strings, in order.
pub open spec fn string_views(names: Seq<String>) -> Seq<Seq<char>> {
    Seq::new(names.len(), |i: int| names[i]@)
}

impl View for FunctionDecl {
    type V = FunctionDeclView;

    open spec fn view(&self) -> FunctionDeclView {
        FunctionDeclView {
            name: self.name@,
            params: string_views(self.params@),
            body: statement_views(self.body@),
        }
    }
}

/// The view of a call shows the views of its arguments.
pub proof fn lemma_call_view(callee: String, args: Vec<Expr>)
    ensures
        (Expr::FCall { callee, args })@ == (ExprView::FCall {
            callee: callee@,
            args: expr_views(args@),
        }),
{
    assert(expr_view(Expr::FCall { callee, args })->FCall_args =~= expr_views(args@));
}

/// The view of a block shows the views of its statements.
pub proof fn lemma_block_view(stmts: Vec<Statement>)
    ensures
        Statement::Block(stmts)@ == StatementView::Block(statement_views(stmts@)),
{
    assert(statement_view(Statement::Block(stmts))->Block_0 =~= statement_views(stmts@));
}

/// The view of a function statement is the view of its declaration.
pub proof fn lemma_function_view(decl: FunctionDecl)
    ensures
        Statement::Function(decl)@ == StatementView::Function(decl@),
{
    let v = statement_view(Statement::Function(decl))->Function_0;
    assert(v.params =~= decl@.params);
    assert(v.body =~= decl@.body);
}

/// A copy of a literal.
pub fn clone_literal(l: &Literal) -> (r: Literal)
    ensures
        r@ == l@,
{
    match l {
        Literal::Number(n) => Literal::Number(n.clone()),
        Literal::String(s) => Literal::String(s.clone()),
        Literal::Bool(b) => Literal::Bool(*b),
        Literal::Nil => Literal::Nil,
    }
}

/// A copy of a list of names.
pub fn clone_names(names: &Vec<String>) -> (r: Vec<String>)
    ensures
        string_views(r@) == string_views(names@),
{
    let mut out: Vec<String> = Vec::new();
    let mut i: usize = 0;
    while i < names.len()
        invariant
            i <= names.len(),
            out.len() == i,
            forall|j: int| 0 <= j < i ==> out@[j]@ == names@[j]@,
        decreases names.len() - i,
    {
        out.push(names[i].clone());
        i += 1;
    }
    assert(string_views(out@) =~= string_views(names@));
    out
}

/// A copy of a list of expressions.
pub fn clone_exprs(es: &Vec<Expr>) -> (r: Vec<Expr>)
    ensures
        expr_views(r@) == expr_views(es@),
    decreases es,
{
    let mut out: Vec<Expr> = Vec::new();
    let mut i: usize = 0;
    while i < es.len()
        invariant
            i <= es.len(),
            out.len() == i,
            forall|j: int| 0 <= j < i ==> out@[j]@ == es@[j]@,
        decreases es.len() - i,
    {
        out.push(clone_expr(&es[i]));
        i += 1;
    }
    assert(expr_views(out@) =~= expr_views(es@));
    out
}

/// A copy of an expression.
pub fn clone_expr(e: &Expr) -> (r: Expr)
    ensures
        r@ == e@,
    decreases e,
{
    match e {
        Expr::Binary { left, op, right } => Expr::Binary {
            left: Box::new(clone_expr(left)),
            op: *op,
            right: Box::new(clone_expr(right)),
        },
        Expr::Unary { op, right } => Expr::Unary { op: *op, right: Box::new(clone_expr(right)) },
        Expr::Assign { name, value } => Expr::Assign {
            name: name.clone(),
            value: Box::new(clone_expr(value)),
        },
        Expr::FCall { callee, args } => {
            let out = clone_exprs(args);
            let copy = callee.clone();
            proof {
                lemma_call_view(copy, out);
                lemma_call_view(*callee, *args);
            }
            Expr::FCall { callee: copy, args: out }
        },
        Expr::Literal(l) => Expr::Literal(clone_literal(l)),
        Expr::Variable { var_name, var_type } => Expr::Variable {
            var_name: var_name.clone(),
            var_type: *var_type,
        },
    }
}

/// A copy of a list of statements.
pub fn clone_statements(stmts: &Vec<Statement>) -> (r: Vec<Statement>)
    ensures
        statement_views(r@) == statement_views(stmts@),
    decreases stmts,
{
    let mut out: Vec<Statement> = Vec::new();
    let mut i: usize = 0;
    while i < stmts.len()
        invariant
            i <= stmts.len(),
            out.len() == i,
            forall|j: int| 0 <= j < i ==> out@[j]@ == stmts@[j]@,
        decreases stmts.len() - i,
    {
        out.push(clone_statement(&stmts[i]));
        i += 1;
    }
    assert(statement_views(out@) =~= statement_views(stmts@));
    out
}

/// A copy of a function declaration.
pub fn clone_function(decl: &FunctionDecl) -> (r: FunctionDecl)
    ensures
        r@ == decl@,
    decreases decl,
{
    FunctionDecl {
        name: decl.name.clone(),
        params: clone_names(&decl.params),
        body: clone_statements(&decl.body),
    }
}

/// A copy of a statement.
pub fn clone_statement(s: &Statement) -> (r: Statement)
    ensures
        r@ == s@,
    decreases s,
{
    match s {
        Statement::Expression(e) => Statement::Expression(clone_expr(e)),
        Statement::VarDecl { name, var_type, initializer } => Statement::VarDecl {
            name: name.clone(),
            var_type: *var_type,
            initializer: match initializer {
                Some(e) => Some(clone_expr(e)),
                None => None,
            },
        },
        Statement::Block(stmts) => {
            let out = clone_statements(stmts);
            proof {
                lemma_block_view(out);
                lemma_block_view(*stmts);
            }
            Statement::Block(out)
        },
        Statement::If { condition, then_branch, else_branch } => Statement::If {
            condition: clone_expr(condition),
            then_branch: Box::new(clone_statement(then_branch)),
            else_branch: match else_branch {
                Some(b) => Some(Box::new(clone_statement(b))),
                None => None,
            },
        },
        Statement::While { condition, body } => Statement::While {
            condition: clone_expr(condition),
            body: Box::new(clone_statement(body)),
        },
        Statement::Function(decl) => {
            let out = clone_function(decl);
            proof {
                lemma_function_view(out);
                lemma_function_view(*decl);
            }
            Statement::Function(out)
        },
        Statement::Return { value } => Statement::Return {
            value: match value {
                Some(e) => Some(clone_expr(e)),
                None => None,
            },
        },
        Statement::Include(path) => Statement::Include(path.clone()),
    }
}

impl Clone for Literal {
    fn clone(&self) -> (r: Self)
        ensures
            r@ == self@,
    {
        clone_literal(self)
    }
}

impl Clone for Expr {
    fn clone(&self) -> (r: Self)
        ensures
            r@ == self@,
    {
        clone_expr(self)
    }
}

impl Clone for Statement {
    fn clone(&self) -> (r: Self)
        ensures
            r@ == self@,
    {
        clone_statement(self)
    }
}

impl Clone for FunctionDecl {
    fn clone(&self) -> (r: Self)
        ensures
            r@ == self@,
    {
        clone_function(self)
    }
}

} // verus!
