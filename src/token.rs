use vstd::prelude::*;

verus! {

/// What the lexer is reading at a given character.
#[derive(PartialEq, Eq, Structural, Clone, Copy, Debug)]
pub enum TokenType {
    Keyword,
    KfkApostropheString,
    KfkDollarString,
    Number,
    Whitespace,
}

#[derive(Debug)]
pub struct Keyword {
    pub lexem: String,
    pub line_number: u32,
}

#[derive(Debug)]
pub struct KfkString {
    pub lexem: String,
    pub line_number: u32,
}

/// A number literal: its source text and its value in billionths.
#[derive(Debug)]
pub struct Number {
    pub lexem: String,
    pub number: i128,
    pub line_number: u32,
}

#[derive(Debug)]
pub enum Token {
    Keyword(Keyword),
    KfkString(KfkString),
    Number(Number),
}

/// The mathematical content of a token.
pub enum TokenModel {
    Keyword { lexem: Seq<char>, line: u32 },
    Str { lexem: Seq<char>, line: u32 },
    Num { lexem: Seq<char>, value: int, line: u32 },
}

impl View for Token {
    type V = TokenModel;

    open spec fn view(&self) -> TokenModel {
        match self {
            Token::Keyword(k) => TokenModel::Keyword { lexem: k.lexem@, line: k.line_number },
            Token::KfkString(s) => TokenModel::Str { lexem: s.lexem@, line: s.line_number },
            Token::Number(n) => TokenModel::Num { lexem: n.lexem@, value: n.number as int, line: n.line_number },
        }
    }
}

pub open spec fn token_views(ts: Seq<Token>) -> Seq<TokenModel> {
    ts.map_values(|t: Token| t@)
}

/// The token is the keyword `name`.
pub open spec fn is_keyword(t: Token, name: Seq<char>) -> bool {
    match t {
        Token::Keyword(k) => k.lexem@ == name,
        _ => false,
    }
}

impl Token {
    pub open spec fn line_spec(&self) -> u32 {
        match self {
            Token::Keyword(k) => k.line_number,
            Token::KfkString(s) => s.line_number,
            Token::Number(n) => n.line_number,
        }
    }

    /// The source line the token stands on.
    #[verifier::when_used_as_spec(line_spec)]
    pub fn line_number(&self) -> (r: u32)
        ensures
            r == self.line_spec(),
    {
        match self {
            Token::Keyword(k) => k.line_number,
            Token::KfkString(s) => s.line_number,
            Token::Number(n) => n.line_number,
        }
    }

    /// A copy of the token.
    pub fn duplicate(&self) -> (r: Token)
        ensures
            r == *self,
    {
        match self {
            Token::Keyword(k) => Token::Keyword(Keyword { lexem: k.lexem.clone(), line_number: k.line_number }),
            Token::KfkString(s) => Token::KfkString(KfkString { lexem: s.lexem.clone(), line_number: s.line_number }),
            Token::Number(n) => Token::Number(Number { lexem: n.lexem.clone(), number: n.number, line_number: n.line_number }),
        }
    }

    /// Whether the token is the keyword `name`.
    pub fn is_keyword_named(&self, name: &str) -> (r: bool)
        ensures
            r == is_keyword(*self, name@),
    {
        match self {
            Token::Keyword(k) => str_equal(k.lexem.as_str(), name),
            _ => false,
        }
    }
}

/// Character-wise equality of two strings.
pub fn str_equal(a: &str, b: &str) -> (r: bool)
    ensures
        r == (a@ == b@),
{
    let n = a.unicode_len();
    if n != b.unicode_len() {
        return false;
    }
    let mut i: usize = 0;
    while i < n
        invariant
            n == a@.len(),
            n == b@.len(),
            i <= n,
            forall|j: int| 0 <= j < i ==> a@[j] == b@[j],
        decreases n - i,
    {
        if a.get_char(i) != b.get_char(i) {
            return false;
        }
        i = i + 1;
    }
    assert(a@ =~= b@);
    true
}

/// A copy of a token sequence.
pub fn copy_tokens(tokens: &Vec<Token>) -> (r: Vec<Token>)
    ensures
        r@ == tokens@,
{
    let mut out: Vec<Token> = Vec::new();
    let mut i: usize = 0;
    while i < tokens.len()
        invariant
            i <= tokens@.len(),
            out@ == tokens@.take(i as int),
        decreases tokens@.len() - i,
    {
        out.push(tokens[i].duplicate());
        i = i + 1;
        assert(out@ =~= tokens@.take(i as int));
    }
    assert(tokens@.take(tokens@.len() as int) =~= tokens@);
    out
}

} // verus!
