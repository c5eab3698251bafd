use vstd::prelude::*;
use vstd::string::StrSliceExecFns;

use crate::token::{lookup_ident, spec_lookup_ident, Token, TokenType};

verus! {

/// Whether `char::is_alphabetic` classifies a character as alphabetic.
/// The classification depends on the character alone.
pub uninterp spec fn is_alphabetic_char(c: char) -> bool;

/// Relies on char::is_alphabetic of std: whether the character has the
/// Unicode "Alphabetic" property, a pure function of the character. On the
/// ASCII range its definition reduces to the ASCII letters.
pub assume_specification[ char::is_alphabetic ](c: char) -> (r: bool)
    ensures
        r == is_alphabetic_char(c),
        c <= '\x7f' ==> r == (('a' <= c && c <= 'z') || ('A' <= c && c <= 'Z')),
;

/// The characters the scanner skips between tokens.
pub open spec fn is_ws_char(c: char) -> bool {
    c == ' ' || c == '\t' || c == '\n' || c == '\r'
}

/// The characters that may start or continue an identifier.
pub open spec fn is_letter_char(c: char) -> bool {
    is_alphabetic_char(c) || c == '_'
}

/// The characters that form an integer literal.
pub open spec fn is_digit_char(c: char) -> bool {
    '0' <= c && c <= '9'
}

/// The character the cursor sees at index `i`: the input character while in
/// range, and the null sentinel once past the end.
pub open spec fn char_at(s: Seq<char>, i: int) -> char {
    if 0 <= i < s.len() {
        s[i]
    } else {
        '\0'
    }
}

/// The index of the first character at or after `i` that is not whitespace
/// (the length of the input when only whitespace remains).
pub open spec fn skip_ws(s: Seq<char>, i: int) -> int
    decreases s.len() - i when 0 <= i <= s.len()
{
    if i < s.len() && is_ws_char(s[i]) {
        skip_ws(s, i + 1)
    } else {
        i
    }
}

/// The index just past the maximal run of identifier characters at `i`.
pub open spec fn ident_end(s: Seq<char>, i: int) -> int
    decreases s.len() - i when 0 <= i <= s.len()
{
    if i < s.len() && is_letter_char(s[i]) {
        ident_end(s, i + 1)
    } else {
        i
    }
}

/// The index just past the maximal run of digits at `i`.
pub open spec fn int_end(s: Seq<char>, i: int) -> int
    decreases s.len() - i when 0 <= i <= s.len()
{
    if i < s.len() && is_digit_char(s[i]) {
        int_end(s, i + 1)
    } else {
        i
    }
}

/// The three scans never move backwards and never leave the input.
proof fn lemma_scan_bounds(s: Seq<char>, i: int)
    requires
        0 <= i <= s.len(),
    ensures
        i <= skip_ws(s, i) <= s.len(),
        i <= ident_end(s, i) <= s.len(),
        i <= int_end(s, i) <= s.len(),
    decreases s.len() - i,
{
    if i < s.len() {
        lemma_scan_bounds(s, i + 1);
    }
}

/// The characters that form a complete token on their own, with no
/// two-character form.
pub open spec fn is_single_sym(c: char) -> bool {
    c == ';' || c == '(' || c == ')' || c == ',' || c == '+' || c == '-' || c == '{' || c == '}'
        || c == '<' || c == '>' || c == '/' || c == '*'
}

/// The category of the token that starts at index `j`, where `j` already
/// points past any whitespace. The two-character operators are recognized by
/// one character of lookahead; the null sentinel yields the end-of-input
/// category only at the end of input, and a null character inside the text
/// is an unrecognized byte like any other; a maximal run of identifier
/// characters is classified through the keyword table.
pub open spec fn spec_kind_at(s: Seq<char>, j: int) -> TokenType {
    let c = char_at(s, j);
    if c == '=' {
        if j + 1 < s.len() && s[j + 1] == '=' {
            TokenType::Eq
        } else {
            TokenType::Assign
        }
    } else if c == ';' {
        TokenType::Semicolon
    } else if c == '(' {
        TokenType::Lparen
    } else if c == ')' {
        TokenType::Rparen
    } else if c == ',' {
        TokenType::Comma
    } else if c == '+' {
        TokenType::Plus
    } else if c == '-' {
        TokenType::Minus
    } else if c == '{' {
        TokenType::Lbrace
    } else if c == '}' {
        TokenType::Rbrace
    } else if c == '<' {
        TokenType::Lt
    } else if c == '>' {
        TokenType::Gt
    } else if c == '!' {
        if j + 1 < s.len() && s[j + 1] == '=' {
            TokenType::NotEq
        } else {
            TokenType::Bang
        }
    } else if c == '/' {
        TokenType::Slash
    } else if c == '*' {
        TokenType::Asterisk
    } else if c == '\0' {
        if j < s.len() {
            TokenType::Illegal
        } else {
            TokenType::Eof
        }
    } else if is_letter_char(c) {
        spec_lookup_ident(s.subrange(j, ident_end(s, j)))
    } else if is_digit_char(c) {
        TokenType::Int
    } else {
        TokenType::Illegal
    }
}

/// The literal text of the token that starts at index `j` (past any
/// whitespace): the canonical spelling for fixed tokens, the consumed slice
/// for identifiers and integers, and the empty text for the end-of-input and
/// illegal tokens.
pub open spec fn spec_literal_at(s: Seq<char>, j: int) -> Seq<char> {
    let c = char_at(s, j);
    if c == '=' {
        if j + 1 < s.len() && s[j + 1] == '=' {
            "=="@
        } else {
            "="@
        }
    } else if c == ';' {
        ";"@
    } else if c == '(' {
        "("@
    } else if c == ')' {
        ")"@
    } else if c == ',' {
        ","@
    } else if c == '+' {
        "+"@
    } else if c == '-' {
        "-"@
    } else if c == '{' {
        "{"@
    } else if c == '}' {
        "}"@
    } else if c == '<' {
        "<"@
    } else if c == '>' {
        ">"@
    } else if c == '!' {
        if j + 1 < s.len() && s[j + 1] == '=' {
            "!="@
        } else {
            "!"@
        }
    } else if c == '/' {
        "/"@
    } else if c == '*' {
        "*"@
    } else if c == '\0' {
        ""@
    } else if is_letter_char(c) {
        s.subrange(j, ident_end(s, j))
    } else if is_digit_char(c) {
        s.subrange(j, int_end(s, j))
    } else {
        ""@
    }
}

/// The cursor position after scanning the token that starts at index `j`
/// (past any whitespace): two-character operators consume two characters,
/// identifiers and integers their whole run, every other token one
/// character; at the end of input the cursor stays put.
pub open spec fn spec_next_pos(s: Seq<char>, j: int) -> int {
    let c = char_at(s, j);
    if c == '=' || c == '!' {
        if j + 1 < s.len() && s[j + 1] == '=' {
            j + 2
        } else {
            j + 1
        }
    } else if is_single_sym(c) {
        j + 1
    } else if c == '\0' {
        if j < s.len() {
            j + 1
        } else {
            s.len() as int
        }
    } else if is_letter_char(c) {
        ident_end(s, j)
    } else if is_digit_char(c) {
        int_end(s, j)
    } else {
        j + 1
    }
}

/// A pull-based scanner over one input text. `position` indexes the current
/// character, `read_position` the next one to read, and `ch` caches the
/// current character (the null sentinel once the cursor is past the end).
pub struct Lexer<'a> {
    input: &'a str,
    position: usize,
    read_position: usize,
    ch: char,
}

impl<'a> Lexer<'a> {
    /// The scanned text.
    pub closed spec fn text(&self) -> Seq<char> {
        self.input@
    }

    /// The index of the current character.
    pub closed spec fn pos(&self) -> int {
        self.position as int
    }

    /// The cursor invariant: `read_position` trails the end of input by at
    /// most one, sits one past `position`, and `ch` caches the character
    /// under `position` (the null sentinel at and past the end).
    pub closed spec fn wf(&self) -> bool {
        &&& self.input@.len() < usize::MAX
        &&& 1 <= self.read_position <= self.input@.len() + 1
        &&& self.position + 1 == self.read_position
        &&& self.ch == char_at(self.input@, self.position as int)
    }

    // Read the next character and move the cursor forward. Once the cursor
    // has moved past the end of input it stays there and the null sentinel
    // remains the current character.
    fn read_char(&mut self)
        requires
            old(self).input@.len() < usize::MAX,
            old(self).read_position <= old(self).input@.len() + 1,
            old(self).position <= old(self).read_position,
        ensures
            final(self).input == old(self).input,
            final(self).read_position <= final(self).input@.len() + 1,
            final(self).position + 1 == final(self).read_position || (final(self).position == old(
                self,
            ).position && final(self).read_position == old(self).read_position),
            final(self).position >= old(self).position,
            ({
                let n = old(self).input@.len() as int;
                let rp = old(self).read_position as int;
                if rp <= n {
                    &&& final(self).ch == char_at(old(self).input@, rp)
                    &&& final(self).position == rp
                    &&& final(self).read_position == rp + 1
                } else {
                    &&& final(self).ch == '\0'
                    &&& final(self).position == old(self).position
                    &&& final(self).read_position == old(self).read_position
                }
            }),
    {
        let n = self.input.unicode_len();
        if self.read_position < n {
            self.ch = self.input.get_char(self.read_position);
            self.position = self.read_position;
            self.read_position = self.read_position + 1;
        } else {
            self.ch = '\0';
            if self.read_position == n {
                self.position = self.read_position;
                self.read_position = self.read_position + 1;
            }
        }
    }

    // Move the cursor past the whitespace under it.
    fn skip_whitespace(&mut self)
        requires
            old(self).wf(),
        ensures
            final(self).wf(),
            final(self).input == old(self).input,
            final(self).pos() == skip_ws(old(self).input@, old(self).pos()),
    {
        while self.ch == ' ' || self.ch == '\t' || self.ch == '\n' || self.ch == '\r'
            invariant
                self.wf(),
                self.input == old(self).input,
                old(self).pos() <= self.pos() <= self.input@.len(),
                skip_ws(self.input@, self.pos()) == skip_ws(old(self).input@, old(self).pos()),
            decreases self.input@.len() - self.pos(),
        {
            proof {
                assert(self.pos() < self.input@.len());
            }
            self.read_char();
        }
    }

    // Scan the maximal run of identifier characters under the cursor and
    // return the consumed slice; the cursor ends just past the run.
    fn read_identifier(&mut self) -> (lit: &'a str)
        requires
            old(self).wf(),
        ensures
            final(self).wf(),
            final(self).input == old(self).input,
            final(self).pos() == ident_end(old(self).input@, old(self).pos()),
            lit@ == old(self).input@.subrange(old(self).pos(), final(self).pos()),
    {
        let pos = self.position;
        while self.ch.is_alphabetic() || self.ch == '_'
            invariant
                self.wf(),
                self.input == old(self).input,
                pos == old(self).position,
                old(self).pos() <= self.pos() <= self.input@.len(),
                ident_end(self.input@, self.pos()) == ident_end(old(self).input@, old(self).pos()),
            decreases self.input@.len() - self.pos(),
        {
            proof {
                assert(self.pos() < self.input@.len());
            }
            self.read_char();
        }
        proof {
            lemma_scan_bounds(self.input@, self.pos());
        }
        self.input.substring_char(pos, self.position)
    }

    // Scan the maximal run of digits under the cursor and return the
    // consumed slice; the cursor ends just past the run.
    fn read_number(&mut self) -> (lit: &'a str)
        requires
            old(self).wf(),
        ensures
            final(self).wf(),
            final(self).input == old(self).input,
            final(self).pos() == int_end(old(self).input@, old(self).pos()),
            lit@ == old(self).input@.subrange(old(self).pos(), final(self).pos()),
    {
        let pos = self.position;
        while '0' <= self.ch && self.ch <= '9'
            invariant
                self.wf(),
                self.input == old(self).input,
                pos == old(self).position,
                old(self).pos() <= self.pos() <= self.input@.len(),
                int_end(self.input@, self.pos()) == int_end(old(self).input@, old(self).pos()),
            decreases self.input@.len() - self.pos(),
        {
            proof {
                assert(self.pos() < self.input@.len());
            }
            self.read_char();
        }
        proof {
            lemma_scan_bounds(self.input@, self.pos());
        }
        self.input.substring_char(pos, self.position)
    }

    /// Scan and return the next token: skip whitespace, classify the token
    /// that starts under the cursor, and advance the cursor just past it.
    /// Never fails; unrecognized characters yield an `Illegal` token, and at
    /// the end of input every call yields the `Eof` token.
    pub fn next_token(&mut self) -> (tok: Token)
        requires
            old(self).wf(),
        ensures
            final(self).wf(),
            final(self).text() == old(self).text(),
            ({
                let s = old(self).text();
                let j = skip_ws(s, old(self).pos());
                &&& tok.t_type == spec_kind_at(s, j)
                &&& tok.literal@ == spec_literal_at(s, j)
                &&& final(self).pos() == spec_next_pos(s, j)
            }),
            old(self).pos() <= final(self).pos() <= final(self).text().len(),
    {
        proof {
            lemma_scan_bounds(old(self).input@, old(self).pos());
        }
        self.skip_whitespace();
        proof {
            lemma_scan_bounds(self.input@, self.pos());
        }
        let tok: Token;
        match self.ch {
            '=' => {
                if self.read_position < self.input.unicode_len() {
                    let next_ch = self.input.get_char(self.read_position);
                    if next_ch == '=' {
                        let two = Token { t_type: TokenType::Eq, literal: "==".to_owned() };
                        self.read_char();
                        self.read_char();
                        return two;
                    }
                }
                tok = Token { t_type: TokenType::Assign, literal: "=".to_owned() };
            },
            ';' => {
                tok = Token { t_type: TokenType::Semicolon, literal: ";".to_owned() };
            },
            '(' => {
                tok = Token { t_type: TokenType::Lparen, literal: "(".to_owned() };
            },
            ')' => {
                tok = Token { t_type: TokenType::Rparen, literal: ")".to_owned() };
            },
            ',' => {
                tok = Token { t_type: TokenType::Comma, literal: ",".to_owned() };
            },
            '+' => {
                tok = Token { t_type: TokenType::Plus, literal: "+".to_owned() };
            },
            '-' => {
                tok = Token { t_type: TokenType::Minus, literal: "-".to_owned() };
            },
            '{' => {
                tok = Token { t_type: TokenType::Lbrace, literal: "{".to_owned() };
            },
            '}' => {
                tok = Token { t_type: TokenType::Rbrace, literal: "}".to_owned() };
            },
            '<' => {
                tok = Token { t_type: TokenType::Lt, literal: "<".to_owned() };
            },
            '>' => {
                tok = Token { t_type: TokenType::Gt, literal: ">".to_owned() };
            },
            '!' => {
                if self.read_position < self.input.unicode_len() {
                    let next_ch = self.input.get_char(self.read_position);
                    if next_ch == '=' {
                        let two = Token { t_type: TokenType::NotEq, literal: "!=".to_owned() };
                        self.read_char();
                        self.read_char();
                        return two;
                    }
                }
                tok = Token { t_type: TokenType::Bang, literal: "!".to_owned() };
            },
            '/' => {
                tok = Token { t_type: TokenType::Slash, literal: "/".to_owned() };
            },
            '*' => {
                tok = Token { t_type: TokenType::Asterisk, literal: "*".to_owned() };
            },
            '\0' => {
                if self.position < self.input.unicode_len() {
                    tok = Token { t_type: TokenType::Illegal, literal: "".to_owned() };
                } else {
                    tok = Token { t_type: TokenType::Eof, literal: "".to_owned() };
                }
            },
            _ => {
                if self.ch.is_alphabetic() || self.ch == '_' {
                    let literal = self.read_identifier();
                    let kind = lookup_ident(literal);
                    return Token { t_type: kind, literal: literal.to_owned() };
                } else if '0' <= self.ch && self.ch <= '9' {
                    let literal = self.read_number();
                    return Token { t_type: TokenType::Int, literal: literal.to_owned() };
                } else {
                    tok = Token { t_type: TokenType::Illegal, literal: "".to_owned() };
                }
            },
        }
        self.read_char();
        tok
    }
}

/// Create a new lexer over `input`, primed so that the first character (or
/// the null sentinel, on empty input) is already the current one.
pub fn new(input: &str) -> (lex: Lexer)
    requires
        input@.len() < usize::MAX,
    ensures
        lex.wf(),
        lex.text() == input@,
        lex.pos() == 0,
{
    let mut lex = Lexer { input, position: 0, read_position: 0, ch: '\0' };
    lex.read_char();
    lex
}

/// Every call of `next_token` makes progress: the scan never moves the
/// cursor backwards or past the end of input, and any token other than the
/// end-of-input one moves it strictly forward. From a cursor at `i`, at most
/// `s.len() - i` calls can return before the end-of-input token.
pub proof fn lemma_next_token_progress(s: Seq<char>, i: int)
    requires
        0 <= i <= s.len(),
    ensures
        i <= skip_ws(s, i) <= spec_next_pos(s, skip_ws(s, i)) <= s.len(),
        spec_kind_at(s, skip_ws(s, i)) != TokenType::Eof ==> i < spec_next_pos(s, skip_ws(s, i)),
{
    lemma_scan_bounds(s, i);
    let j = skip_ws(s, i);
    lemma_scan_bounds(s, j);
    let c = char_at(s, j);
    if c != '\0' && !(c == '=' || c == '!') && !is_single_sym(c) && is_letter_char(c) {
        assert(ident_end(s, j) == ident_end(s, j + 1));
        lemma_scan_bounds(s, j + 1);
    } else if c != '\0' && !(c == '=' || c == '!') && !is_single_sym(c) && !is_letter_char(c)
        && is_digit_char(c) {
        assert(int_end(s, j) == int_end(s, j + 1));
        lemma_scan_bounds(s, j + 1);
    }
}

/// The stream of tokens scanned from index `i` on: one entry per
/// `next_token` call, in left-to-right order, ending with the first
/// end-of-input token.
pub open spec fn spec_tokens_from(s: Seq<char>, i: int) -> Seq<(TokenType, Seq<char>)>
    decreases s.len() - i when 0 <= i <= s.len() via spec_tokens_from_decreases
{
    let j = skip_ws(s, i);
    let head = (spec_kind_at(s, j), spec_literal_at(s, j));
    if spec_kind_at(s, j) == TokenType::Eof {
        seq![head]
    } else {
        seq![head] + spec_tokens_from(s, spec_next_pos(s, j))
    }
}

#[via_fn]
proof fn spec_tokens_from_decreases(s: Seq<char>, i: int) {
    lemma_next_token_progress(s, i);
}

/// The complete token stream of a text, ending with the first end-of-input
/// token.
pub open spec fn spec_tokens(s: Seq<char>) -> Seq<(TokenType, Seq<char>)> {
    spec_tokens_from(s, 0)
}

/// The categories and literals of a sequence of tokens.
pub open spec fn views_of(toks: Seq<Token>) -> Seq<(TokenType, Seq<char>)> {
    toks.map_values(|t: Token| t@)
}

/// The token stream is a function of the text alone: scanning identical
/// texts yields identical streams, however the two texts were obtained.
pub proof fn lemma_deterministic(s1: Seq<char>, s2: Seq<char>)
    requires
        s1 == s2,
    ensures
        spec_tokens(s1) == spec_tokens(s2),
{
}

/// Every finite text has a finite token stream: at least the end-of-input
/// token, at most one token per remaining character besides it, and the
/// end-of-input token closes the stream.
pub proof fn lemma_stream_ends(s: Seq<char>, i: int)
    requires
        0 <= i <= s.len(),
    ensures
        1 <= spec_tokens_from(s, i).len() <= s.len() - i + 1,
        spec_tokens_from(s, i).last().0 == TokenType::Eof,
    decreases s.len() - i,
{
    lemma_next_token_progress(s, i);
    let j = skip_ws(s, i);
    if spec_kind_at(s, j) != TokenType::Eof {
        lemma_stream_ends(s, spec_next_pos(s, j));
    }
}

/// Once the scan has returned the end-of-input token it stays there: an
/// end-of-input token leaves the cursor at the end of input, where every
/// later call yields the end-of-input token again and moves nothing.
pub proof fn lemma_sentinel_stable(s: Seq<char>, i: int)
    requires
        0 <= i <= s.len(),
    ensures
        spec_kind_at(s, skip_ws(s, i)) == TokenType::Eof ==> {
            &&& spec_next_pos(s, skip_ws(s, i)) == s.len()
            &&& skip_ws(s, s.len() as int) == s.len()
            &&& spec_kind_at(s, s.len() as int) == TokenType::Eof
            &&& spec_next_pos(s, s.len() as int) == s.len()
        },
{
    lemma_scan_bounds(s, i);
}

/// One character of lookahead never reaches past the end of input: a `=` or
/// `!` that is the last character of the text is scanned as `Assign` or
/// `Bang`, never as the start of `Eq` or `NotEq`.
pub proof fn lemma_trailing_lookahead(s: Seq<char>, i: int)
    requires
        0 <= i <= s.len(),
        skip_ws(s, i) == s.len() - 1,
    ensures
        s[s.len() - 1] == '=' ==> spec_kind_at(s, skip_ws(s, i)) == TokenType::Assign,
        s[s.len() - 1] == '!' ==> spec_kind_at(s, skip_ws(s, i)) == TokenType::Bang,
{
}

/// The token invariant: wherever a token of a fixed-symbol, two-character or
/// keyword category starts, its literal is exactly the canonical spelling of
/// that category, and the end-of-input and illegal tokens carry the empty
/// literal. Only identifiers and integers carry input-dependent literals.
pub proof fn lemma_fixed_spellings(s: Seq<char>, j: int)
    ensures
        spec_kind_at(s, j) == TokenType::Assign ==> spec_literal_at(s, j) == "="@,
        spec_kind_at(s, j) == TokenType::Plus ==> spec_literal_at(s, j) == "+"@,
        spec_kind_at(s, j) == TokenType::Minus ==> spec_literal_at(s, j) == "-"@,
        spec_kind_at(s, j) == TokenType::Bang ==> spec_literal_at(s, j) == "!"@,
        spec_kind_at(s, j) == TokenType::Asterisk ==> spec_literal_at(s, j) == "*"@,
        spec_kind_at(s, j) == TokenType::Comma ==> spec_literal_at(s, j) == ","@,
        spec_kind_at(s, j) == TokenType::Semicolon ==> spec_literal_at(s, j) == ";"@,
        spec_kind_at(s, j) == TokenType::Lparen ==> spec_literal_at(s, j) == "("@,
        spec_kind_at(s, j) == TokenType::Rparen ==> spec_literal_at(s, j) == ")"@,
        spec_kind_at(s, j) == TokenType::Lbrace ==> spec_literal_at(s, j) == "{"@,
        spec_kind_at(s, j) == TokenType::Rbrace ==> spec_literal_at(s, j) == "}"@,
        spec_kind_at(s, j) == TokenType::Lt ==> spec_literal_at(s, j) == "<"@,
        spec_kind_at(s, j) == TokenType::Gt ==> spec_literal_at(s, j) == ">"@,
        spec_kind_at(s, j) == TokenType::Slash ==> spec_literal_at(s, j) == "/"@,
        spec_kind_at(s, j) == TokenType::Eq ==> spec_literal_at(s, j) == "=="@,
        spec_kind_at(s, j) == TokenType::NotEq ==> spec_literal_at(s, j) == "!="@,
        spec_kind_at(s, j) == TokenType::Function ==> spec_literal_at(s, j) == "fn"@,
        spec_kind_at(s, j) == TokenType::Let ==> spec_literal_at(s, j) == "let"@,
        spec_kind_at(s, j) == TokenType::True ==> spec_literal_at(s, j) == "true"@,
        spec_kind_at(s, j) == TokenType::False ==> spec_literal_at(s, j) == "false"@,
        spec_kind_at(s, j) == TokenType::If ==> spec_literal_at(s, j) == "if"@,
        spec_kind_at(s, j) == TokenType::Else ==> spec_literal_at(s, j) == "else"@,
        spec_kind_at(s, j) == TokenType::Return ==> spec_literal_at(s, j) == "return"@,
        spec_kind_at(s, j) == TokenType::Eof ==> spec_literal_at(s, j) == ""@,
        spec_kind_at(s, j) == TokenType::Illegal ==> spec_literal_at(s, j) == ""@,
{
}

/// Scan a whole text at once: the tokens that repeated `next_token` calls
/// on a fresh lexer yield, in order, up to and including the first
/// end-of-input token.
pub fn tokenize(input: &str) -> (toks: Vec<Token>)
    requires
        input@.len() < usize::MAX,
    ensures
        views_of(toks@) == spec_tokens(input@),
{
    let mut lex = new(input);
    let mut toks: Vec<Token> = Vec::new();
    let mut done = false;
    while !done
        invariant
            lex.wf(),
            lex.text() == input@,
            0 <= lex.pos() <= input@.len(),
            if done {
                views_of(toks@) == spec_tokens(input@)
            } else {
                views_of(toks@) + spec_tokens_from(input@, lex.pos()) == spec_tokens(input@)
            },
        decreases input@.len() - lex.pos() + (if done {
            0int
        } else {
            1int
        }),
    {
        let ghost prev = lex.pos();
        let tok = lex.next_token();
        proof {
            lemma_next_token_progress(input@, prev);
            assert(views_of(toks@.push(tok)) =~= views_of(toks@).push(tok@));
        }
        if tok.t_type == TokenType::Eof {
            done = true;
            proof {
                assert(views_of(toks@).push(tok@) =~= views_of(toks@) + spec_tokens_from(
                    input@,
                    prev,
                ));
            }
        } else {
            proof {
                assert(views_of(toks@).push(tok@) + spec_tokens_from(input@, lex.pos())
                    =~= views_of(toks@) + spec_tokens_from(input@, prev));
            }
        }
        toks.push(tok);
    }
    toks
}

} // verus!
