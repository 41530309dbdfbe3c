//! The lexer: a cursor over the characters of a source text.
use vstd::prelude::*;
use vstd::string::StringExecFns;
use crate::lexer::token::{Keyword, Symbols, Token, TokenView, Types, token_views};
use crate::text::{
    char_is_alphabetic, char_is_whitespace, chars_of, is_ascii, is_ascii_letter, is_decimal_digit,
    is_digit, is_identifier_char, is_letter, is_space, is_word_char, str_eq, string_push,
};

verus! {

/// The classes of characters that the lexer reads in runs.
#[derive(Debug, PartialEq, Eq, Structural, Clone, Copy)]
pub enum CharClass {
    /// White space.
    Space,
    /// Letters, numerals and the underscore.
    Word,
    /// The ten decimal digits.
    Digit,
    /// Everything but the line feed.
    LineRest,
}

impl CharClass {
    pub open spec fn has(self, c: char) -> bool {
        match self {
            CharClass::Space => is_space(c),
            CharClass::Word => is_word_char(c),
            CharClass::Digit => is_digit(c),
            CharClass::LineRest => c != '\n',
        }
    }

    pub fn test(self, c: char) -> (r: bool)
        ensures
            r == self.has(c),
    {
        match self {
            CharClass::Space => char_is_whitespace(c),
            CharClass::Word => is_identifier_char(c),
            CharClass::Digit => is_decimal_digit(c),
            CharClass::LineRest => c != '\n',
        }
    }
}

/// Where the longest run of characters of `class` that starts at `pos` ends.
pub open spec fn run_end(s: Seq<char>, pos: int, class: CharClass) -> int
    decreases s.len() - pos,
{
    if 0 <= pos < s.len() && class.has(s[pos]) {
        run_end(s, pos + 1, class)
    } else {
        pos
    }
}

/// Where a block comment ends whose text starts at `pos`: behind the first
/// `*/`, or at the end of the text where the comment is never closed.
pub open spec fn block_comment_end(s: Seq<char>, pos: int) -> int
    decreases s.len() - pos,
{
    if pos < 0 || pos >= s.len() {
        pos
    } else if pos + 1 < s.len() && s[pos] == '*' && s[pos + 1] == '/' {
        pos + 2
    } else {
        block_comment_end(s, pos + 1)
    }
}

/// The reserved words: keywords and the names of types.
pub open spec fn reserved_word(w: Seq<char>) -> Option<TokenView> {
    if w == "include"@ {
        Some(TokenView::Keyword(Keyword::Include))
    } else if w == "local"@ {
        Some(TokenView::Keyword(Keyword::Local))
    } else if w == "global"@ {
        Some(TokenView::Keyword(Keyword::Global))
    } else if w == "while"@ {
        Some(TokenView::Keyword(Keyword::While))
    } else if w == "if"@ {
        Some(TokenView::Keyword(Keyword::If))
    } else if w == "else"@ {
        Some(TokenView::Keyword(Keyword::Else))
    } else if w == "return"@ {
        Some(TokenView::Keyword(Keyword::Return))
    } else if w == "program"@ {
        Some(TokenView::Keyword(Keyword::Program))
    } else if w == "String"@ {
        Some(TokenView::Types(Types::String))
    } else if w == "Boolean"@ {
        Some(TokenView::Types(Types::Boolean))
    } else if w == "Char"@ {
        Some(TokenView::Types(Types::Char))
    } else if w == "Array"@ {
        Some(TokenView::Types(Types::Array))
    } else if w == "Object"@ {
        Some(TokenView::Types(Types::Object))
    } else if w == "i8"@ {
        Some(TokenView::Types(Types::i8))
    } else if w == "i32"@ {
        Some(TokenView::Types(Types::i32))
    } else if w == "i64"@ {
        Some(TokenView::Types(Types::i64))
    } else if w == "u8"@ {
        Some(TokenView::Types(Types::u8))
    } else if w == "u32"@ {
        Some(TokenView::Types(Types::u32))
    } else if w == "u64"@ {
        Some(TokenView::Types(Types::u64))
    } else if w == "f32"@ {
        Some(TokenView::Types(Types::F32))
    } else if w == "f64"@ {
        Some(TokenView::Types(Types::F64))
    } else {
        None
    }
}

/// The token of a word: its entry in the reserved table, else an identifier.
pub open spec fn word_token(w: Seq<char>) -> TokenView {
    match reserved_word(w) {
        Some(t) => t,
        None => TokenView::Ident(w),
    }
}

/// The symbol that a single character stands for, if any.
pub open spec fn symbol_of(c: char) -> Option<Symbols> {
    if c == ';' {
        Some(Symbols::SemiColon)
    } else if c == ':' {
        Some(Symbols::Colon)
    } else if c == '(' {
        Some(Symbols::LParen)
    } else if c == ')' {
        Some(Symbols::RParen)
    } else if c == '{' {
        Some(Symbols::LCurlyBracket)
    } else if c == '}' {
        Some(Symbols::RCurlyBracket)
    } else if c == '"' {
        Some(Symbols::Quotation)
    } else if c == '\'' {
        Some(Symbols::SingleQuote)
    } else if c == '.' {
        Some(Symbols::Period)
    } else if c == ',' {
        Some(Symbols::Comma)
    } else {
        None
    }
}

/// The message of the token that marks the end of the input.
pub open spec fn eof_message() -> Seq<char> {
    "Unexpected EOF"@
}

/// The token that marks the end of the input. It ends a token sequence and is
/// never part of one.
pub open spec fn eof_token() -> TokenView {
    TokenView::Error(eof_message())
}

/// The message of the token for a character that starts no token.
pub open spec fn unexpected_char_message(c: char) -> Seq<char> {
    "Unexpected char: "@.push(c)
}

/// Whether the character behind position `p` is `c`.
pub open spec fn followed_by(s: Seq<char>, p: int, c: char) -> bool {
    p + 1 < s.len() && s[p + 1] == c
}

/// The next token of `s` at or behind `pos`, and the position behind it.
///
/// White space is skipped first. A letter starts a word, a digit a number.
/// `->` is the assignment keyword. `//` discards the rest of the line and
/// `/*` everything up to the closing `*/`; the token is then the one that
/// follows. A `*/` that closes nothing is a symbol of its own. Any other
/// character is a symbol, or an error token that names it.
pub open spec fn next_token_spec(s: Seq<char>, pos: int) -> (TokenView, int)
    decreases s.len() - pos,
{
    let p = run_end(s, pos, CharClass::Space);
    if pos < 0 || p >= s.len() {
        (eof_token(), p)
    } else {
        let c = s[p];
        if is_letter(c) {
            let e = run_end(s, p, CharClass::Word);
            (word_token(s.subrange(p, e)), e)
        } else if is_digit(c) {
            let e = run_end(s, p, CharClass::Digit);
            (TokenView::Number(s.subrange(p, e)), e)
        } else if c == '-' && followed_by(s, p, '>') {
            (TokenView::Keyword(Keyword::Assign), p + 2)
        } else if c == '/' && followed_by(s, p, '/') {
            proof {
                lemma_run_end_bounds(s, pos, CharClass::Space);
                lemma_run_end_bounds(s, p + 2, CharClass::LineRest);
            }
            next_token_spec(s, run_end(s, p + 2, CharClass::LineRest))
        } else if c == '/' && followed_by(s, p, '*') {
            proof {
                lemma_run_end_bounds(s, pos, CharClass::Space);
                lemma_block_comment_end_bounds(s, p + 2);
            }
            next_token_spec(s, block_comment_end(s, p + 2))
        } else if c == '*' && followed_by(s, p, '/') {
            (TokenView::Symbols(Symbols::MultiLine), p + 2)
        } else {
            match symbol_of(c) {
                Some(sym) => (TokenView::Symbols(sym), p + 1),
                None => (TokenView::Error(unexpected_char_message(c)), p + 1),
            }
        }
    }
}

/// The tokens of `s` from `pos` on, up to the end of the input.
pub open spec fn tokens_from(s: Seq<char>, pos: int) -> Seq<TokenView>
    decreases s.len() - pos,
{
    let (tok, next) = next_token_spec(s, pos);
    if pos < 0 || tok == eof_token() {
        Seq::empty()
    } else {
        proof {
            lemma_next_token_advances(s, pos);
        }
        seq![tok] + tokens_from(s, next)
    }
}

/// Where the cursor is left when all tokens from `pos` on were read:
/// behind the white space and the comments that follow the last token.
pub open spec fn tokens_end(s: Seq<char>, pos: int) -> int
    decreases s.len() - pos,
{
    let (tok, next) = next_token_spec(s, pos);
    if pos < 0 || tok == eof_token() {
        next
    } else {
        proof {
            lemma_next_token_advances(s, pos);
        }
        tokens_end(s, next)
    }
}

/// A run ends at or behind its start and within the text; it holds only
/// characters of its class, and the character behind it is of another class.
pub proof fn lemma_run_end_bounds(s: Seq<char>, pos: int, class: CharClass)
    requires
        0 <= pos <= s.len(),
    ensures
        pos <= run_end(s, pos, class) <= s.len(),
        forall|i: int| pos <= i < run_end(s, pos, class) ==> class.has(#[trigger] s[i]),
        run_end(s, pos, class) < s.len() ==> !class.has(s[run_end(s, pos, class)]),
    decreases s.len() - pos,
{
    if pos < s.len() && class.has(s[pos]) {
        lemma_run_end_bounds(s, pos + 1, class);
    }
}

/// A block comment ends at or behind the start of its text and within the text.
pub proof fn lemma_block_comment_end_bounds(s: Seq<char>, pos: int)
    requires
        0 <= pos <= s.len(),
    ensures
        pos <= block_comment_end(s, pos) <= s.len(),
    decreases s.len() - pos,
{
    if pos < s.len() && !(pos + 1 < s.len() && s[pos] == '*' && s[pos + 1] == '/') {
        lemma_block_comment_end_bounds(s, pos + 1);
    }
}

/// The two error messages differ, whatever the character.
pub proof fn lemma_messages_differ(c: char)
    ensures
        unexpected_char_message(c) != eof_message(),
{
    reveal_strlit("Unexpected EOF");
    reveal_strlit("Unexpected char: ");
    assert(unexpected_char_message(c).len() == 18);
    assert(eof_message().len() == 14);
}

/// No reserved word is lexed as the end of the input: a word's token is a
/// keyword, a type or an identifier.
pub proof fn lemma_word_token_kind(w: Seq<char>)
    ensures
        word_token(w) is Keyword || word_token(w) is Types || word_token(w) is Ident,
{
}

/// Every token but the end marker takes at least one character, and no token
/// ends behind the text. The end marker comes exactly when nothing but white
/// space and comments is left.
pub proof fn lemma_next_token_advances(s: Seq<char>, pos: int)
    requires
        0 <= pos,
    ensures
        next_token_spec(s, pos).0 != eof_token() ==> pos < next_token_spec(s, pos).1 <= s.len(),
        next_token_spec(s, pos).0 == eof_token() ==> pos <= next_token_spec(s, pos).1,
        pos <= s.len() ==> next_token_spec(s, pos).1 <= s.len(),
    decreases s.len() - pos,
{
    let p = run_end(s, pos, CharClass::Space);
    if pos <= s.len() {
        lemma_run_end_bounds(s, pos, CharClass::Space);
    }
    if p < s.len() {
        let c = s[p];
        if is_letter(c) {
            lemma_run_end_bounds(s, p + 1, CharClass::Word);
            lemma_word_token_kind(s.subrange(p, run_end(s, p, CharClass::Word)));
        } else if is_digit(c) {
            lemma_run_end_bounds(s, p + 1, CharClass::Digit);
        } else if c == '-' && followed_by(s, p, '>') {
        } else if c == '/' && followed_by(s, p, '/') {
            lemma_run_end_bounds(s, p + 2, CharClass::LineRest);
            lemma_next_token_advances(s, run_end(s, p + 2, CharClass::LineRest));
        } else if c == '/' && followed_by(s, p, '*') {
            lemma_block_comment_end_bounds(s, p + 2);
            lemma_next_token_advances(s, block_comment_end(s, p + 2));
        } else if c == '*' && followed_by(s, p, '/') {
        } else {
            lemma_messages_differ(c);
        }
    }
}

/// A run that reaches the end of the text: if every character from `pos` on
/// is of the class, the run that starts at `pos` ends where the text ends.
pub proof fn lemma_run_to_end(s: Seq<char>, pos: int, class: CharClass)
    requires
        0 <= pos <= s.len(),
        forall|i: int| pos <= i < s.len() ==> class.has(#[trigger] s[i]),
    ensures
        run_end(s, pos, class) == s.len(),
    decreases s.len() - pos,
{
    if pos < s.len() {
        lemma_run_to_end(s, pos + 1, class);
    }
}

/// A text that is one word lexes to that word's token and nothing else.
pub proof fn lemma_word_lexes_alone(w: Seq<char>)
    requires
        w.len() > 0,
        is_letter(w[0]),
        !is_space(w[0]),
        run_end(w, 0, CharClass::Word) == w.len(),
    ensures
        tokens_from(w, 0) == seq![word_token(w)],
{
    let n = w.len() as int;
    assert(run_end(w, 0, CharClass::Space) == 0);
    assert(w.subrange(0, n) =~= w);
    assert(next_token_spec(w, 0) == (word_token(w), n));
    lemma_word_token_kind(w);
    assert(run_end(w, n, CharClass::Space) == n);
    assert(next_token_spec(w, n).0 == eof_token());
    assert(tokens_from(w, n) =~= Seq::<TokenView>::empty());
    assert(tokens_from(w, 0) =~= seq![word_token(w)] + tokens_from(w, n));
}

/// Every reserved word starts with an ASCII letter and is made of ASCII
/// letters and digits throughout.
pub proof fn lemma_reserved_words_are_words(w: Seq<char>)
    requires
        reserved_word(w) is Some,
    ensures
        w.len() > 0,
        is_letter(w[0]),
        !is_space(w[0]),
        run_end(w, 0, CharClass::Word) == w.len(),
{
    reveal_with_fuel(run_end, 9);
    if w == "include"@ {
        reveal_strlit("include");
    } else if w == "local"@ {
        reveal_strlit("local");
    } else if w == "global"@ {
        reveal_strlit("global");
    } else if w == "while"@ {
        reveal_strlit("while");
    } else if w == "if"@ {
        reveal_strlit("if");
    } else if w == "else"@ {
        reveal_strlit("else");
    } else if w == "return"@ {
        reveal_strlit("return");
    } else if w == "program"@ {
        reveal_strlit("program");
    } else if w == "String"@ {
        reveal_strlit("String");
    } else if w == "Boolean"@ {
        reveal_strlit("Boolean");
    } else if w == "Char"@ {
        reveal_strlit("Char");
    } else if w == "Array"@ {
        reveal_strlit("Array");
    } else if w == "Object"@ {
        reveal_strlit("Object");
    } else if w == "i8"@ {
        reveal_strlit("i8");
    } else if w == "i32"@ {
        reveal_strlit("i32");
    } else if w == "i64"@ {
        reveal_strlit("i64");
    } else if w == "u8"@ {
        reveal_strlit("u8");
    } else if w == "u32"@ {
        reveal_strlit("u32");
    } else if w == "u64"@ {
        reveal_strlit("u64");
    } else if w == "f32"@ {
        reveal_strlit("f32");
    } else if w == "f64"@ {
        reveal_strlit("f64");
    }
}

/// The reserved table, entry by entry.
pub proof fn lemma_reserved_table()
    ensures
        reserved_word("include"@) == Some(TokenView::Keyword(Keyword::Include)),
        reserved_word("local"@) == Some(TokenView::Keyword(Keyword::Local)),
        reserved_word("global"@) == Some(TokenView::Keyword(Keyword::Global)),
        reserved_word("while"@) == Some(TokenView::Keyword(Keyword::While)),
        reserved_word("if"@) == Some(TokenView::Keyword(Keyword::If)),
        reserved_word("else"@) == Some(TokenView::Keyword(Keyword::Else)),
        reserved_word("return"@) == Some(TokenView::Keyword(Keyword::Return)),
        reserved_word("program"@) == Some(TokenView::Keyword(Keyword::Program)),
        reserved_word("String"@) == Some(TokenView::Types(Types::String)),
        reserved_word("Boolean"@) == Some(TokenView::Types(Types::Boolean)),
        reserved_word("Char"@) == Some(TokenView::Types(Types::Char)),
        reserved_word("Array"@) == Some(TokenView::Types(Types::Array)),
        reserved_word("Object"@) == Some(TokenView::Types(Types::Object)),
        reserved_word("i8"@) == Some(TokenView::Types(Types::i8)),
        reserved_word("i32"@) == Some(TokenView::Types(Types::i32)),
        reserved_word("i64"@) == Some(TokenView::Types(Types::i64)),
        reserved_word("u8"@) == Some(TokenView::Types(Types::u8)),
        reserved_word("u32"@) == Some(TokenView::Types(Types::u32)),
        reserved_word("u64"@) == Some(TokenView::Types(Types::u64)),
        reserved_word("f32"@) == Some(TokenView::Types(Types::F32)),
        reserved_word("f64"@) == Some(TokenView::Types(Types::F64)),
{
    reveal_strlit("include");
    assert("include"@.len() == 7 && "include"@[0] == 'i' && "include"@[1] == 'n' && "include"@[2] == 'c' && "include"@[3] == 'l' && "include"@[4] == 'u' && "include"@[5] == 'd' && "include"@[6] == 'e');
    reveal_strlit("local");
    assert("local"@.len() == 5 && "local"@[0] == 'l' && "local"@[1] == 'o' && "local"@[2] == 'c' && "local"@[3] == 'a' && "local"@[4] == 'l');
    reveal_strlit("global");
    assert("global"@.len() == 6 && "global"@[0] == 'g' && "global"@[1] == 'l' && "global"@[2] == 'o' && "global"@[3] == 'b' && "global"@[4] == 'a' && "global"@[5] == 'l');
    reveal_strlit("while");
    assert("while"@.len() == 5 && "while"@[0] == 'w' && "while"@[1] == 'h' && "while"@[2] == 'i' && "while"@[3] == 'l' && "while"@[4] == 'e');
    reveal_strlit("if");
    assert("if"@.len() == 2 && "if"@[0] == 'i' && "if"@[1] == 'f');
    reveal_strlit("else");
    assert("else"@.len() == 4 && "else"@[0] == 'e' && "else"@[1] == 'l' && "else"@[2] == 's' && "else"@[3] == 'e');
    reveal_strlit("return");
    assert("return"@.len() == 6 && "return"@[0] == 'r' && "return"@[1] == 'e' && "return"@[2] == 't' && "return"@[3] == 'u' && "return"@[4] == 'r' && "return"@[5] == 'n');
    reveal_strlit("program");
    assert("program"@.len() == 7 && "program"@[0] == 'p' && "program"@[1] == 'r' && "program"@[2] == 'o' && "program"@[3] == 'g' && "program"@[4] == 'r' && "program"@[5] == 'a' && "program"@[6] == 'm');
    reveal_strlit("String");
    assert("String"@.len() == 6 && "String"@[0] == 'S' && "String"@[1] == 't' && "String"@[2] == 'r' && "String"@[3] == 'i' && "String"@[4] == 'n' && "String"@[5] == 'g');
    reveal_strlit("Boolean");
    assert("Boolean"@.len() == 7 && "Boolean"@[0] == 'B' && "Boolean"@[1] == 'o' && "Boolean"@[2] == 'o' && "Boolean"@[3] == 'l' && "Boolean"@[4] == 'e' && "Boolean"@[5] == 'a' && "Boolean"@[6] == 'n');
    reveal_strlit("Char");
    assert("Char"@.len() == 4 && "Char"@[0] == 'C' && "Char"@[1] == 'h' && "Char"@[2] == 'a' && "Char"@[3] == 'r');
    reveal_strlit("Array");
    assert("Array"@.len() == 5 && "Array"@[0] == 'A' && "Array"@[1] == 'r' && "Array"@[2] == 'r' && "Array"@[3] == 'a' && "Array"@[4] == 'y');
    reveal_strlit("Object");
    assert("Object"@.len() == 6 && "Object"@[0] == 'O' && "Object"@[1] == 'b' && "Object"@[2] == 'j' && "Object"@[3] == 'e' && "Object"@[4] == 'c' && "Object"@[5] == 't');
    reveal_strlit("i8");
    assert("i8"@.len() == 2 && "i8"@[0] == 'i' && "i8"@[1] == '8');
    reveal_strlit("i32");
    assert("i32"@.len() == 3 && "i32"@[0] == 'i' && "i32"@[1] == '3' && "i32"@[2] == '2');
    reveal_strlit("i64");
    assert("i64"@.len() == 3 && "i64"@[0] == 'i' && "i64"@[1] == '6' && "i64"@[2] == '4');
    reveal_strlit("u8");
    assert("u8"@.len() == 2 && "u8"@[0] == 'u' && "u8"@[1] == '8');
    reveal_strlit("u32");
    assert("u32"@.len() == 3 && "u32"@[0] == 'u' && "u32"@[1] == '3' && "u32"@[2] == '2');
    reveal_strlit("u64");
    assert("u64"@.len() == 3 && "u64"@[0] == 'u' && "u64"@[1] == '6' && "u64"@[2] == '4');
    reveal_strlit("f32");
    assert("f32"@.len() == 3 && "f32"@[0] == 'f' && "f32"@[1] == '3' && "f32"@[2] == '2');
    reveal_strlit("f64");
    assert("f64"@.len() == 3 && "f64"@[0] == 'f' && "f64"@[1] == '6' && "f64"@[2] == '4');
}

/// Each keyword and each type name, lexed alone, is one token: the keyword or
/// type that the reserved table gives for it.
pub proof fn lemma_reserved_word_lexes_alone(w: Seq<char>)
    requires
        reserved_word(w) is Some,
    ensures
        tokens_from(w, 0) == seq![reserved_word(w)->0],
{
    lemma_reserved_words_are_words(w);
    lemma_word_lexes_alone(w);
}

/// The arrow, lexed alone, is one token: the assignment keyword.
pub proof fn lemma_arrow_lexes_alone()
    ensures
        tokens_from("->"@, 0) == seq![TokenView::Keyword(Keyword::Assign)],
{
    reveal_strlit("->");
    let s = "->"@;
    assert(s.len() == 2 && s[0] == '-' && s[1] == '>');
    assert(run_end(s, 0, CharClass::Space) == 0);
    assert(next_token_spec(s, 0) == (TokenView::Keyword(Keyword::Assign), 2int));
    assert(run_end(s, 2, CharClass::Space) == 2);
    assert(next_token_spec(s, 2).0 == eof_token());
    assert(tokens_from(s, 2) =~= Seq::<TokenView>::empty());
    assert(tokens_from(s, 0) =~= seq![TokenView::Keyword(Keyword::Assign)] + tokens_from(s, 2));
}

/// A run of letters that is no reserved word, lexed alone, is one identifier
/// token that holds the run. (Of a letter outside ASCII the lexer has only the
/// standard library's word that it is a letter; that such a letter is not
/// white space as well is asked of the first one.)
pub proof fn lemma_alphabetic_run_lexes_alone(w: Seq<char>)
    requires
        w.len() > 0,
        forall|i: int| 0 <= i < w.len() ==> is_letter(#[trigger] w[i]),
        !is_space(w[0]),
        reserved_word(w) is None,
    ensures
        tokens_from(w, 0) == seq![TokenView::Ident(w)],
{
    lemma_run_to_end(w, 0, CharClass::Word);
    lemma_word_lexes_alone(w);
}

/// A run of ASCII letters that is no reserved word, lexed alone, is one
/// identifier token that holds the run.
pub proof fn lemma_ascii_run_lexes_alone(w: Seq<char>)
    requires
        w.len() > 0,
        forall|i: int| 0 <= i < w.len() ==> is_ascii(#[trigger] w[i]) && is_ascii_letter(w[i]),
        reserved_word(w) is None,
    ensures
        tokens_from(w, 0) == seq![TokenView::Ident(w)],
{
    assert(is_letter(w[0]) && !is_space(w[0]));
    assert forall|i: int| 0 <= i < w.len() implies is_letter(#[trigger] w[i]) by {
        assert(is_ascii(w[i]));
    }
    lemma_alphabetic_run_lexes_alone(w);
}

/// The end marker ends a token sequence and is never part of one.
pub proof fn lemma_tokens_hold_no_end_marker(s: Seq<char>, pos: int)
    requires
        0 <= pos,
    ensures
        forall|i: int|
            0 <= i < tokens_from(s, pos).len() ==> #[trigger] tokens_from(s, pos)[i] != eof_token(),
    decreases s.len() - pos,
{
    let (tok, next) = next_token_spec(s, pos);
    if tok != eof_token() {
        lemma_next_token_advances(s, pos);
        lemma_tokens_hold_no_end_marker(s, next);
        assert forall|i: int| 0 <= i < tokens_from(s, pos).len() implies #[trigger] tokens_from(
            s,
            pos,
        )[i] != eof_token() by {
            if i > 0 {
                assert(tokens_from(s, pos)[i] == tokens_from(s, next)[i - 1]);
            }
        }
    }
}

/// Two token sequences that were read from one text are equal: what
/// `tokenize` returns depends on the text and the cursor alone.
pub proof fn lemma_tokenize_repeatable(text: Seq<char>, first: Seq<Token>, second: Seq<Token>)
    requires
        token_views(first) == tokens_from(text, 0),
        token_views(second) == tokens_from(text, 0),
    ensures
        token_views(first) == token_views(second),
        first.len() == second.len(),
        forall|i: int| 0 <= i < first.len() ==> first[i]@ == second[i]@,
{
    assert(token_views(first).len() == first.len());
    assert(token_views(second).len() == second.len());
    assert forall|i: int| 0 <= i < first.len() implies first[i]@ == second[i]@ by {
        assert(token_views(first)[i] == first[i]@);
        assert(token_views(second)[i] == second[i]@);
    }
}

/// The token of a word that was read from the text.
pub fn classify_word(word: String) -> (tok: Token)
    ensures
        tok@ == word_token(word@),
{
    let w = word.as_str();
    if str_eq(w, "include") {
        Token::Keyword(Keyword::Include)
    } else if str_eq(w, "local") {
        Token::Keyword(Keyword::Local)
    } else if str_eq(w, "global") {
        Token::Keyword(Keyword::Global)
    } else if str_eq(w, "while") {
        Token::Keyword(Keyword::While)
    } else if str_eq(w, "if") {
        Token::Keyword(Keyword::If)
    } else if str_eq(w, "else") {
        Token::Keyword(Keyword::Else)
    } else if str_eq(w, "return") {
        Token::Keyword(Keyword::Return)
    } else if str_eq(w, "program") {
        Token::Keyword(Keyword::Program)
    } else if str_eq(w, "String") {
        Token::Types(Types::String)
    } else if str_eq(w, "Boolean") {
        Token::Types(Types::Boolean)
    } else if str_eq(w, "Char") {
        Token::Types(Types::Char)
    } else if str_eq(w, "Array") {
        Token::Types(Types::Array)
    } else if str_eq(w, "Object") {
        Token::Types(Types::Object)
    } else if str_eq(w, "i8") {
        Token::Types(Types::i8)
    } else if str_eq(w, "i32") {
        Token::Types(Types::i32)
    } else if str_eq(w, "i64") {
        Token::Types(Types::i64)
    } else if str_eq(w, "u8") {
        Token::Types(Types::u8)
    } else if str_eq(w, "u32") {
        Token::Types(Types::u32)
    } else if str_eq(w, "u64") {
        Token::Types(Types::u64)
    } else if str_eq(w, "f32") {
        Token::Types(Types::F32)
    } else if str_eq(w, "f64") {
        Token::Types(Types::F64)
    } else {
        Token::Ident(word)
    }
}

/// The symbol that a single character stands for, if any.
pub fn symbol_for(c: char) -> (r: Option<Symbols>)
    ensures
        r == symbol_of(c),
{
    if c == ';' {
        Some(Symbols::SemiColon)
    } else if c == ':' {
        Some(Symbols::Colon)
    } else if c == '(' {
        Some(Symbols::LParen)
    } else if c == ')' {
        Some(Symbols::RParen)
    } else if c == '{' {
        Some(Symbols::LCurlyBracket)
    } else if c == '}' {
        Some(Symbols::RCurlyBracket)
    } else if c == '"' {
        Some(Symbols::Quotation)
    } else if c == '\'' {
        Some(Symbols::SingleQuote)
    } else if c == '.' {
        Some(Symbols::Period)
    } else if c == ',' {
        Some(Symbols::Comma)
    } else {
        None
    }
}

/// A cursor over the characters of a source text.
pub struct Lexer {
    input: Vec<char>,
    pos: usize,
}

impl Lexer {
    #[verifier::type_invariant]
    spec fn cursor_in_text(&self) -> bool {
        self.pos <= self.input.len()
    }

    /// The text that is being lexed.
    pub closed spec fn text(&self) -> Seq<char> {
        self.input@
    }

    /// The number of characters that lie behind the cursor.
    pub closed spec fn position(&self) -> int {
        self.pos as int
    }

    /// A lexer at the start of `to_process`.
    pub fn new(to_process: &str) -> (lexer: Self)
        ensures
            lexer.text() == to_process@,
            lexer.position() == 0,
    {
        Self { input: chars_of(to_process), pos: 0 }
    }

    /// The character under the cursor, if the text has not ended.
    pub fn preview(&self) -> (c: Option<char>)
        ensures
            c == (if self.position() < self.text().len() {
                Some(self.text()[self.position()])
            } else {
                None
            }),
    {
        proof {
            use_type_invariant(self);
        }
        if self.pos < self.input.len() {
            Some(self.input[self.pos])
        } else {
            None
        }
    }

    /// The character behind the one under the cursor, if there is one.
    fn preview_second(&self) -> (c: Option<char>)
        ensures
            c == (if self.position() + 1 < self.text().len() {
                Some(self.text()[self.position() + 1])
            } else {
                None
            }),
    {
        proof {
            use_type_invariant(self);
        }
        if self.pos < self.input.len() && self.pos + 1 < self.input.len() {
            Some(self.input[self.pos + 1])
        } else {
            None
        }
    }

    /// Moves the cursor over one character. At the end of the text it stays.
    pub fn advance(&mut self)
        ensures
            final(self).text() == old(self).text(),
            final(self).position() == (if old(self).position() < old(self).text().len() {
                old(self).position() + 1
            } else {
                old(self).position()
            }),
    {
        proof {
            use_type_invariant(&*self);
        }
        if self.pos < self.input.len() {
            self.pos += 1;
        }
    }

    /// Reads the longest run of characters of `class` under the cursor.
    pub fn read_while(&mut self, class: CharClass) -> (run: String)
        ensures
            final(self).text() == old(self).text(),
            final(self).position() == run_end(old(self).text(), old(self).position(), class),
            run@ == old(self).text().subrange(old(self).position(), final(self).position()),
    {
        proof {
            use_type_invariant(&*self);
        }
        let ghost start = self.pos as int;
        let ghost s = self.input@;
        let mut result = String::new();
        while self.pos < self.input.len() && class.test(self.input[self.pos])
            invariant
                self.input@ == s,
                0 <= start <= self.pos <= s.len(),
                run_end(s, start, class) == run_end(s, self.pos as int, class),
                result@ == s.subrange(start, self.pos as int),
            decreases s.len() - self.pos,
        {
            string_push(&mut result, self.input[self.pos]);
            self.pos += 1;
            assert(s.subrange(start, self.pos as int) =~= s.subrange(start, self.pos - 1).push(
                s[self.pos - 1],
            ));
        }
        result
    }

    /// Moves the cursor over white space.
    pub fn skip_whitespace(&mut self)
        ensures
            final(self).text() == old(self).text(),
            final(self).position() == run_end(
                old(self).text(),
                old(self).position(),
                CharClass::Space,
            ),
    {
        let _ = self.read_while(CharClass::Space);
    }

    /// Moves the cursor behind the `*/` that closes a block comment, or to the
    /// end of the text where there is none.
    fn skip_block_comment(&mut self)
        ensures
            final(self).text() == old(self).text(),
            final(self).position() == block_comment_end(old(self).text(), old(self).position()),
    {
        proof {
            use_type_invariant(&*self);
        }
        let ghost start = self.pos as int;
        let ghost s = self.input@;
        while self.pos < self.input.len()
            invariant
                self.input@ == s,
                s == old(self).input@,
                start == old(self).pos,
                self.pos <= s.len(),
                block_comment_end(s, start) == block_comment_end(s, self.pos as int),
            decreases s.len() - self.pos,
        {
            if self.input[self.pos] == '*' && self.pos + 1 < self.input.len() && self.input[self.pos
                + 1] == '/' {
                self.pos += 2;
                return ;
            }
            self.pos += 1;
        }
    }

    /// Reads the next token and moves the cursor behind it. At the end of the
    /// input the token is the end marker, an error token.
    pub fn next_token(&mut self) -> (tok: Token)
        ensures
            final(self).text() == old(self).text(),
            (tok@, final(self).position()) == next_token_spec(
                old(self).text(),
                old(self).position(),
            ),
        decreases old(self).text().len() - old(self).position(),
    {
        proof {
            use_type_invariant(&*self);
            lemma_run_end_bounds(self.text(), self.position(), CharClass::Space);
        }
        self.skip_whitespace();
        let c = match self.preview() {
            Some(c) => c,
            None => {
                return Token::Error(String::from_str("Unexpected EOF"));
            },
        };
        if char_is_alphabetic(c) {
            let word = self.read_while(CharClass::Word);
            return classify_word(word);
        }
        if is_decimal_digit(c) {
            let number = self.read_while(CharClass::Digit);
            return Token::Number(number);
        }
        let next = self.preview_second();
        let arrow = c == '-' && next == Some('>');
        let line_comment = c == '/' && next == Some('/');
        let block_comment = c == '/' && next == Some('*');
        let stray_close = c == '*' && next == Some('/');
        if arrow || line_comment || block_comment || stray_close {
            self.advance();
            self.advance();
            if arrow {
                return Token::Keyword(Keyword::Assign);
            } else if line_comment {
                proof {
                    lemma_run_end_bounds(self.text(), self.position(), CharClass::LineRest);
                }
                let _ = self.read_while(CharClass::LineRest);
                return self.next_token();
            } else if block_comment {
                proof {
                    lemma_block_comment_end_bounds(self.text(), self.position());
                }
                self.skip_block_comment();
                return self.next_token();
            } else {
                return Token::Symbols(Symbols::MultiLine);
            }
        }
        self.advance();
        match symbol_for(c) {
            Some(sym) => Token::Symbols(sym),
            None => {
                let mut message = String::from_str("Unexpected char: ");
                string_push(&mut message, c);
                Token::Error(message)
            },
        }
    }

    /// Reads all tokens up to the end of the input. Characters that start no
    /// token become error tokens; the end marker is not part of the result.
    pub fn tokenize(&mut self) -> (r: Result<Vec<Token>, String>)
        ensures
            final(self).text() == old(self).text(),
            final(self).position() == tokens_end(old(self).text(), old(self).position()),
            r matches Ok(tokens) && token_views(tokens@) == tokens_from(
                old(self).text(),
                old(self).position(),
            ),
    {
        proof {
            use_type_invariant(&*self);
        }
        let ghost s = self.text();
        let ghost start = self.position();
        let mut tokens: Vec<Token> = Vec::new();
        loop
            invariant_except_break
                tokens_from(s, start) == token_views(tokens@) + tokens_from(s, self.position()),
                tokens_end(s, start) == tokens_end(s, self.position()),
            invariant
                self.text() == s,
                0 <= self.position() <= s.len(),
            ensures
                self.text() == s,
                self.position() == tokens_end(s, start),
                token_views(tokens@) == tokens_from(s, start),
            decreases s.len() - self.position(),
        {
            let ghost before = self.position();
            let ghost pushed = token_views(tokens@);
            let tok = self.next_token();
            proof {
                lemma_next_token_advances(s, before);
            }
            if is_end_marker(&tok) {
                break ;
            }
            tokens.push(tok);
            assert(token_views(tokens@) == pushed.push(tok@));
            assert(pushed + (seq![tok@] + tokens_from(s, self.position())) == pushed.push(tok@)
                + tokens_from(s, self.position()));
        }
        Ok(tokens)
    }
}

/// Whether a token is the marker of the end of the input.
pub fn is_end_marker(tok: &Token) -> (r: bool)
    ensures
        r == (tok@ == eof_token()),
{
    match tok {
        Token::Error(e) => str_eq(e.as_str(), "Unexpected EOF"),
        _ => false,
    }
}

} // verus!
