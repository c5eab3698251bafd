use vstd::prelude::*;
use vstd::string::StrSliceExecFns;

verus! {

/// The closed set of lexical categories a token can belong to.
#[derive(Debug, Clone, Copy, PartialEq, Eq, Structural)]
pub enum TokenType {
    Illegal,
    Eof,
    Ident,
    Int,
    Assign,
    // Operators
    Plus,
    Minus,
    Bang,
    Asterisk,
    Comma,
    Semicolon,
    Lparen,
    Rparen,
    Lbrace,
    Rbrace,
    Lt,
    Gt,
    Slash,
    // Keywords
    Function,
    Let,
    True,
    False,
    If,
    Else,
    Return,
    Eq,
    NotEq,
}

/// The canonical display string of each token category, used for diagnostics.
pub open spec fn spec_token_display(t: TokenType) -> Seq<char> {
    match t {
        TokenType::Illegal => "ILLEGAL"@,
        TokenType::Eof => "EOF"@,
        TokenType::Ident => "IDENT"@,
        TokenType::Int => "INT"@,
        TokenType::Assign => "="@,
        TokenType::Plus => "+"@,
        TokenType::Minus => "-"@,
        TokenType::Bang => "!"@,
        TokenType::Asterisk => "*"@,
        TokenType::Comma => ","@,
        TokenType::Semicolon => ";"@,
        TokenType::Lparen => "("@,
        TokenType::Rparen => ")"@,
        TokenType::Lbrace => "{"@,
        TokenType::Rbrace => "}"@,
        TokenType::Lt => "<"@,
        TokenType::Gt => ">"@,
        TokenType::Slash => "/"@,
        TokenType::Function => "FUNCTION"@,
        TokenType::Let => "LET"@,
        TokenType::True => "TRUE"@,
        TokenType::False => "FALSE"@,
        TokenType::If => "IF"@,
        TokenType::Else => "ELSE"@,
        TokenType::Return => "RETURN"@,
        TokenType::Eq => "=="@,
        TokenType::NotEq => "!="@,
    }
}

impl TokenType {
    /// The canonical display string of this token category.
    pub fn as_str(&self) -> (r: &str)
        ensures
            r@ == spec_token_display(*self),
    {
        match self {
            TokenType::Illegal => "ILLEGAL",
            TokenType::Eof => "EOF",
            TokenType::Ident => "IDENT",
            TokenType::Int => "INT",
            TokenType::Assign => "=",
            TokenType::Plus => "+",
            TokenType::Minus => "-",
            TokenType::Bang => "!",
            TokenType::Asterisk => "*",
            TokenType::Comma => ",",
            TokenType::Semicolon => ";",
            TokenType::Lparen => "(",
            TokenType::Rparen => ")",
            TokenType::Lbrace => "{",
            TokenType::Rbrace => "}",
            TokenType::Lt => "<",
            TokenType::Gt => ">",
            TokenType::Slash => "/",
            TokenType::Function => "FUNCTION",
            TokenType::Let => "LET",
            TokenType::True => "TRUE",
            TokenType::False => "FALSE",
            TokenType::If => "IF",
            TokenType::Else => "ELSE",
            TokenType::Return => "RETURN",
            TokenType::Eq => "==",
            TokenType::NotEq => "!=",
        }
    }
}

/// A classified unit of source text: a category together with the exact
/// literal text consumed for it.
#[derive(Debug, Clone)]
pub struct Token {
    pub t_type: TokenType,
    pub literal: String,
}

impl View for Token {
    type V = (TokenType, Seq<char>);

    open spec fn view(&self) -> (TokenType, Seq<char>) {
        (self.t_type, self.literal@)
    }
}

/// The keyword table: the category a spelling is classified as when it is
/// scanned as an identifier. Exact, case-sensitive match on the reserved
/// spellings; everything else is an ordinary identifier.
pub open spec fn spec_lookup_ident(s: Seq<char>) -> TokenType {
    if s == "fn"@ {
        TokenType::Function
    } else if s == "let"@ {
        TokenType::Let
    } else if s == "true"@ {
        TokenType::True
    } else if s == "false"@ {
        TokenType::False
    } else if s == "if"@ {
        TokenType::If
    } else if s == "else"@ {
        TokenType::Else
    } else if s == "return"@ {
        TokenType::Return
    } else {
        TokenType::Ident
    }
}

/// Character-for-character equality of two string slices.
fn str_eq(a: &str, b: &str) -> (r: bool)
    ensures
        r == (a@ == b@),
{
    let n = a.unicode_len();
    if n != b.unicode_len() {
        return false;
    }
    let mut i: usize = 0;
    while i < n
        invariant
            i <= n,
            n == a@.len(),
            n == b@.len(),
            forall|k: int| 0 <= k < i ==> a@[k] == b@[k],
        decreases n - i,
    {
        if a.get_char(i) != b.get_char(i) {
            return false;
        }
        i = i + 1;
    }
    proof {
        assert(a@ =~= b@);
    }
    true
}

/// Classify an identifier spelling: a keyword kind on an exact keyword
/// match, otherwise `Ident`.
pub fn lookup_ident(ident: &str) -> (t: TokenType)
    ensures
        t == spec_lookup_ident(ident@),
{
    if str_eq(ident, "fn") {
        TokenType::Function
    } else if str_eq(ident, "let") {
        TokenType::Let
    } else if str_eq(ident, "true") {
        TokenType::True
    } else if str_eq(ident, "false") {
        TokenType::False
    } else if str_eq(ident, "if") {
        TokenType::If
    } else if str_eq(ident, "else") {
        TokenType::Else
    } else if str_eq(ident, "return") {
        TokenType::Return
    } else {
        TokenType::Ident
    }
}

} // verus!
