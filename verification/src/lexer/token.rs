//! The tokens of the language.
use vstd::prelude::*;
use vstd::string::StringExecFns;
use crate::text::string_push;

verus! {

/// One lexical unit. Produced once, never changed afterwards.
#[derive(Debug)]
pub enum Token {
    Keyword(Keyword),
    Symbols(Symbols),
    /// A run of decimal digits, kept as text.
    Number(String),
    Types(Types),
    Ident(String),
    /// The contents of a string literal.
    Literal(String),
    CharLiteral(char),
    /// A lexical error and its message.
    Error(String),
}

#[derive(Debug, PartialEq, Eq, Structural, Clone, Copy)]
pub enum Keyword {
    /// A variable of the enclosing scope.
    Local,
    /// A variable visible everywhere.
    Global,
    While,
    If,
    Else,
    Return,
    /// `->`, as in `local x: i32 -> 1;`.
    Assign,
    Include,
    /// Introduces a function: `program -> name(..) { .. }`.
    Program,
}

#[derive(Debug, PartialEq, Eq, Structural, Clone, Copy)]
pub enum Symbols {
    /// `//`
    Comment,
    /// `/*` or `*/`
    MultiLine,
    LParen,
    RParen,
    LCurlyBracket,
    RCurlyBracket,
    /// `"`
    Quotation,
    /// `'`
    SingleQuote,
    SemiColon,
    Colon,
    Period,
    Comma,
}

#[allow(non_camel_case_types)]
#[derive(Debug, PartialEq, Eq, Structural, Clone, Copy)]
pub enum Types {
    String,
    i8,
    i32,
    i64,
    u8,
    u32,
    u64,
    F32,
    F64,
    Boolean,
    Char,
    Array,
    Object,
}

/// What a token is, with text as sequences of characters.
pub enum TokenView {
    Keyword(Keyword),
    Symbols(Symbols),
    Number(Seq<char>),
    Types(Types),
    Ident(Seq<char>),
    Literal(Seq<char>),
    CharLiteral(char),
    Error(Seq<char>),
}

impl View for Token {
    type V = TokenView;

    open spec fn view(&self) -> TokenView {
        match self {
            Token::Keyword(k) => TokenView::Keyword(*k),
            Token::Symbols(s) => TokenView::Symbols(*s),
            Token::Number(n) => TokenView::Number(n@),
            Token::Types(t) => TokenView::Types(*t),
            Token::Ident(i) => TokenView::Ident(i@),
            Token::Literal(l) => TokenView::Literal(l@),
            Token::CharLiteral(c) => TokenView::CharLiteral(*c),
            Token::Error(e) => TokenView::Error(e@),
        }
    }
}

impl Clone for Token {
    fn clone(&self) -> (r: Self)
        ensures
            r@ == self@,
    {
        match self {
            Token::Keyword(k) => Token::Keyword(*k),
            Token::Symbols(s) => Token::Symbols(*s),
            Token::Number(n) => Token::Number(n.clone()),
            Token::Types(t) => Token::Types(*t),
            Token::Ident(i) => Token::Ident(i.clone()),
            Token::Literal(l) => Token::Literal(l.clone()),
            Token::CharLiteral(c) => Token::CharLiteral(*c),
            Token::Error(e) => Token::Error(e.clone()),
        }
    }
}

/// The views of a sequence of tokens, in order.
pub open spec fn token_views(tokens: Seq<Token>) -> Seq<TokenView> {
    Seq::new(tokens.len(), |i: int| tokens[i]@)
}

/// The name of a keyword, as messages show it.
pub open spec fn keyword_name(x: Keyword) -> Seq<char> {
    match x {
        Keyword::Local => "Local"@,
        Keyword::Global => "Global"@,
        Keyword::While => "While"@,
        Keyword::If => "If"@,
        Keyword::Else => "Else"@,
        Keyword::Return => "Return"@,
        Keyword::Assign => "Assign"@,
        Keyword::Include => "Include"@,
        Keyword::Program => "Program"@,
    }
}

pub fn keyword_text(x: Keyword) -> (r: &'static str)
    ensures
        r@ == keyword_name(x),
{
    match x {
        Keyword::Local => "Local",
        Keyword::Global => "Global",
        Keyword::While => "While",
        Keyword::If => "If",
        Keyword::Else => "Else",
        Keyword::Return => "Return",
        Keyword::Assign => "Assign",
        Keyword::Include => "Include",
        Keyword::Program => "Program",
    }
}

/// The name of a symbol, as messages show it.
pub open spec fn symbol_name(x: Symbols) -> Seq<char> {
    match x {
        Symbols::Comment => "Comment"@,
        Symbols::MultiLine => "MultiLine"@,
        Symbols::LParen => "LParen"@,
        Symbols::RParen => "RParen"@,
        Symbols::LCurlyBracket => "LCurlyBracket"@,
        Symbols::RCurlyBracket => "RCurlyBracket"@,
        Symbols::Quotation => "Quotation"@,
        Symbols::SingleQuote => "SingleQuote"@,
        Symbols::SemiColon => "SemiColon"@,
        Symbols::Colon => "Colon"@,
        Symbols::Period => "Period"@,
        Symbols::Comma => "Comma"@,
    }
}

pub fn symbol_text(x: Symbols) -> (r: &'static str)
    ensures
        r@ == symbol_name(x),
{
    match x {
        Symbols::Comment => "Comment",
        Symbols::MultiLine => "MultiLine",
        Symbols::LParen => "LParen",
        Symbols::RParen => "RParen",
        Symbols::LCurlyBracket => "LCurlyBracket",
        Symbols::RCurlyBracket => "RCurlyBracket",
        Symbols::Quotation => "Quotation",
        Symbols::SingleQuote => "SingleQuote",
        Symbols::SemiColon => "SemiColon",
        Symbols::Colon => "Colon",
        Symbols::Period => "Period",
        Symbols::Comma => "Comma",
    }
}

/// The name of a type, as messages show it.
pub open spec fn types_name(x: Types) -> Seq<char> {
    match x {
        Types::String => "String"@,
        Types::i8 => "i8"@,
        Types::i32 => "i32"@,
        Types::i64 => "i64"@,
        Types::u8 => "u8"@,
        Types::u32 => "u32"@,
        Types::u64 => "u64"@,
        Types::F32 => "F32"@,
        Types::F64 => "F64"@,
        Types::Boolean => "Boolean"@,
        Types::Char => "Char"@,
        Types::Array => "Array"@,
        Types::Object => "Object"@,
    }
}

pub fn types_text(x: Types) -> (r: &'static str)
    ensures
        r@ == types_name(x),
{
    match x {
        Types::String => "String",
        Types::i8 => "i8",
        Types::i32 => "i32",
        Types::i64 => "i64",
        Types::u8 => "u8",
        Types::u32 => "u32",
        Types::u64 => "u64",
        Types::F32 => "F32",
        Types::F64 => "F64",
        Types::Boolean => "Boolean",
        Types::Char => "Char",
        Types::Array => "Array",
        Types::Object => "Object",
    }
}

/// How a message shows a token: its text, or the name of its kind.
pub open spec fn token_text(t: TokenView) -> Seq<char> {
    match t {
        TokenView::Keyword(k) => keyword_name(k),
        TokenView::Symbols(s) => symbol_name(s),
        TokenView::Number(n) => n,
        TokenView::Types(t) => types_name(t),
        TokenView::Ident(i) => i,
        TokenView::Literal(l) => l,
        TokenView::CharLiteral(c) => seq![c],
        TokenView::Error(e) => e,
    }
}

impl Token {
    /// How a message shows this token.
    pub fn describe(&self) -> (r: String)
        ensures
            r@ == token_text(self@),
    {
        match self {
            Token::Keyword(k) => String::from_str(keyword_text(*k)),
            Token::Symbols(s) => String::from_str(symbol_text(*s)),
            Token::Number(n) => n.clone(),
            Token::Types(t) => String::from_str(types_text(*t)),
            Token::Ident(i) => i.clone(),
            Token::Literal(l) => l.clone(),
            Token::CharLiteral(c) => {
                let mut s = String::new();
                string_push(&mut s, *c);
                assert(s@ =~= seq![*c]);
                s
            },
            Token::Error(e) => e.clone(),
        }
    }
}

} // verus!
