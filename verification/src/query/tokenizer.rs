//! The scanner: from the text of a filter expression to its tokens.

use crate::text::{
    chars_of, alphabetic, is_digit, white_space, lemma_run_end, run_end, scan_forward,
    string_of, range_is, CharClass,
};
use vstd::prelude::*;

verus! {

/// One lexical unit of a filter expression.
#[derive(Debug)]
pub enum Token {
    /// A field reference as written, dots included.
    Field(String),
    /// A comparison operator as written.
    Operator(String),
    /// The text between two quotes.
    StringLiteral(String),
    /// A run of digits and dots, kept as text.
    NumberLiteral(String),
    LParen,
    RParen,
    Comma,
    /// The name of a function.
    Function(String),
    And,
    Or,
    /// The end of the input.
    EOF,
}

/// What a [`Token`] holds, with each string as its sequence of characters.
pub enum TokenView {
    Field(Seq<char>),
    Operator(Seq<char>),
    StringLiteral(Seq<char>),
    NumberLiteral(Seq<char>),
    LParen,
    RParen,
    Comma,
    Function(Seq<char>),
    And,
    Or,
    EOF,
}

impl View for Token {
    type V = TokenView;

    open spec fn view(&self) -> TokenView {
        match self {
            Token::Field(name) => TokenView::Field(name@),
            Token::Operator(symbol) => TokenView::Operator(symbol@),
            Token::StringLiteral(value) => TokenView::StringLiteral(value@),
            Token::NumberLiteral(value) => TokenView::NumberLiteral(value@),
            Token::LParen => TokenView::LParen,
            Token::RParen => TokenView::RParen,
            Token::Comma => TokenView::Comma,
            Token::Function(name) => TokenView::Function(name@),
            Token::And => TokenView::And,
            Token::Or => TokenView::Or,
            Token::EOF => TokenView::EOF,
        }
    }
}

impl DeepView for Token {
    type V = TokenView;

    open spec fn deep_view(&self) -> TokenView {
        self@
    }
}

impl Clone for Token {
    fn clone(&self) -> (copy: Self)
        ensures
            copy == *self,
    {
        match self {
            Token::Field(name) => Token::Field(name.clone()),
            Token::Operator(symbol) => Token::Operator(symbol.clone()),
            Token::StringLiteral(value) => Token::StringLiteral(value.clone()),
            Token::NumberLiteral(value) => Token::NumberLiteral(value.clone()),
            Token::LParen => Token::LParen,
            Token::RParen => Token::RParen,
            Token::Comma => Token::Comma,
            Token::Function(name) => Token::Function(name.clone()),
            Token::And => Token::And,
            Token::Or => Token::Or,
            Token::EOF => Token::EOF,
        }
    }
}

/// The token that an identifier stands for: `has` names a function, `and`
/// and `or` are the connectives, every other word is a field reference.
pub open spec fn word_token(word: Seq<char>) -> TokenView {
    if word == "has"@ {
        TokenView::Function(word)
    } else if word == "and"@ {
        TokenView::And
    } else if word == "or"@ {
        TokenView::Or
    } else {
        TokenView::Field(word)
    }
}

/// Whether an operator can start with `c`.
pub open spec fn starts_operator(c: char) -> bool {
    c == '=' || c == '!' || c == '>' || c == '<'
}

/// Whether `a` followed by `b` is one of the operators `==`, `!=`, `>=`, `<=`
/// and `=~`.
pub open spec fn is_operator_pair(a: char, b: char) -> bool {
    (b == '=' && starts_operator(a)) || (a == '=' && b == '~')
}

/// The token that starts at index `at` of `s`, if one does, and the index at
/// which the scan goes on. `at` is the index of a character that is not
/// white space.
///
/// A number is a digit and the digits and dots behind it. A string runs from
/// a quote to the next quote of the same kind or to the end of the text, and
/// the scan goes on one behind it, which behind a string that is not closed
/// is one behind the end of the text; the quotes are not part of it and
/// nothing inside it is an escape. A word is a letter or underscore and the letters, digits,
/// underscores and dots behind it. An operator is two characters where they
/// form one, else one. A character that starts nothing is passed over.
pub open spec fn scan_token(s: Seq<char>, at: int) -> (Option<TokenView>, int) {
    let c = s[at];
    if is_digit(c) {
        let end = run_end(s, at + 1, CharClass::NumberPart);
        (Some(TokenView::NumberLiteral(s.subrange(at, end))), end)
    } else if c == '\'' || c == '"' {
        let close = run_end(s, at + 1, CharClass::Except(c));
        (Some(TokenView::StringLiteral(s.subrange(at + 1, close))), close + 1)
    } else if c == '(' {
        (Some(TokenView::LParen), at + 1)
    } else if c == ')' {
        (Some(TokenView::RParen), at + 1)
    } else if alphabetic(c) || c == '_' {
        let end = run_end(s, at + 1, CharClass::IdentPart);
        (Some(word_token(s.subrange(at, end))), end)
    } else if starts_operator(c) {
        if at + 1 < s.len() && is_operator_pair(c, s[at + 1]) {
            (Some(TokenView::Operator(s.subrange(at, at + 2))), at + 2)
        } else {
            (Some(TokenView::Operator(s.subrange(at, at + 1))), at + 1)
        }
    } else if c == ',' {
        (Some(TokenView::Comma), at + 1)
    } else {
        (None, at + 1)
    }
}

/// The tokens of `s` from index `pos` on, closed by the end-of-input token.
pub open spec fn lex_from(s: Seq<char>, pos: int) -> Seq<TokenView>
    decreases s.len() + 1 - pos,
{
    if pos < 0 || pos >= s.len() {
        seq![TokenView::EOF]
    } else if white_space(s[pos]) {
        lex_from(s, pos + 1)
    } else {
        proof {
            lemma_scan_token_advances(s, pos);
        }
        let (token, next) = scan_token(s, pos);
        match token {
            Some(t) => seq![t] + lex_from(s, next),
            None => lex_from(s, next),
        }
    }
}

/// The tokens of the text `s`.
pub open spec fn lex(s: Seq<char>) -> Seq<TokenView> {
    lex_from(s, 0)
}

/// The index at which a scan of `s` from index `pos` on ends: the end of the
/// text, or one behind it if the text ends in a string that is not closed.
pub open spec fn scan_end(s: Seq<char>, pos: int) -> int
    decreases s.len() + 1 - pos,
{
    if pos < 0 || pos >= s.len() {
        pos
    } else if white_space(s[pos]) {
        scan_end(s, pos + 1)
    } else {
        proof {
            lemma_scan_token_advances(s, pos);
        }
        scan_end(s, scan_token(s, pos).1)
    }
}

/// A scan step moves on by at least one character and at most to one behind
/// the text, and a token that it finds is not the end-of-input token.
pub proof fn lemma_scan_token_advances(s: Seq<char>, at: int)
    requires
        0 <= at < s.len(),
    ensures
        at < scan_token(s, at).1 <= s.len() + 1,
        scan_token(s, at).0 != Some(TokenView::EOF),
{
    lemma_run_end(s, at + 1, CharClass::NumberPart);
    lemma_run_end(s, at + 1, CharClass::IdentPart);
    lemma_run_end(s, at + 1, CharClass::Except(s[at]));
}

/// Skipping white space does not change the tokens that follow.
pub proof fn lemma_lex_skips_space(s: Seq<char>, pos: int)
    requires
        0 <= pos <= s.len(),
    ensures
        lex_from(s, pos) == lex_from(s, run_end(s, pos, CharClass::Space)),
    decreases s.len() - pos,
{
    if pos < s.len() && white_space(s[pos]) {
        lemma_lex_skips_space(s, pos + 1);
    }
}

/// Skipping white space does not change where the scan ends.
pub proof fn lemma_scan_end_skips_space(s: Seq<char>, pos: int)
    requires
        0 <= pos <= s.len(),
    ensures
        scan_end(s, pos) == scan_end(s, run_end(s, pos, CharClass::Space)),
    decreases s.len() - pos,
{
    if pos < s.len() && white_space(s[pos]) {
        lemma_scan_end_skips_space(s, pos + 1);
    }
}

/// A scan that starts inside the text ends at its end or one behind it.
pub proof fn lemma_scan_end_bounds(s: Seq<char>, pos: int)
    requires
        0 <= pos <= s.len() + 1,
    ensures
        pos <= scan_end(s, pos),
        s.len() <= scan_end(s, pos) <= s.len() + 1 || scan_end(s, pos) == pos,
        pos <= s.len() ==> s.len() <= scan_end(s, pos) <= s.len() + 1,
    decreases s.len() + 1 - pos,
{
    if pos < s.len() {
        if white_space(s[pos]) {
            lemma_scan_end_bounds(s, pos + 1);
        } else {
            lemma_scan_token_advances(s, pos);
            lemma_scan_end_bounds(s, scan_token(s, pos).1);
        }
    }
}

/// Scanning never fails, and what it gives ends with the end-of-input token,
/// which stands nowhere else.
pub proof fn lemma_lex_ends_with_one_eof(s: Seq<char>, pos: int)
    ensures
        lex_from(s, pos).len() >= 1,
        lex_from(s, pos).last() == TokenView::EOF,
        forall|i: int| 0 <= i < lex_from(s, pos).len() - 1 ==> lex_from(s, pos)[i] != TokenView::EOF,
    decreases s.len() + 1 - pos,
{
    if 0 <= pos < s.len() {
        if white_space(s[pos]) {
            lemma_lex_ends_with_one_eof(s, pos + 1);
        } else {
            lemma_scan_token_advances(s, pos);
            lemma_lex_ends_with_one_eof(s, scan_token(s, pos).1);
        }
    }
}

/// What holds of every token that the scanner gives: a number starts with a
/// digit and holds digits and dots only; an operator is one character that
/// starts one, or one of the five pairs; a field reference is not empty; and
/// a function is called `has`.
pub open spec fn is_lexical(token: TokenView) -> bool {
    match token {
        TokenView::NumberLiteral(value) => value.len() >= 1 && is_digit(value[0]) && forall|
            i: int,
        |
            0 <= i < value.len() ==> CharClass::NumberPart.holds(#[trigger] value[i]),
        TokenView::Operator(symbol) => (symbol.len() == 1 && starts_operator(symbol[0])) || (
        symbol.len() == 2 && is_operator_pair(symbol[0], symbol[1])),
        TokenView::Field(name) => name.len() >= 1,
        TokenView::Function(name) => name == "has"@,
        _ => true,
    }
}

/// The token of a scan step is lexical.
pub proof fn lemma_scan_token_is_lexical(s: Seq<char>, at: int)
    requires
        0 <= at < s.len(),
    ensures
        scan_token(s, at).0 matches Some(token) ==> is_lexical(token),
{
    lemma_run_end(s, at + 1, CharClass::NumberPart);
    lemma_run_end(s, at + 1, CharClass::IdentPart);
}

/// Every token that the scanner gives is lexical.
pub proof fn lemma_lexed_tokens_are_lexical(s: Seq<char>, pos: int)
    ensures
        forall|i: int| 0 <= i < lex_from(s, pos).len() ==> is_lexical(#[trigger] lex_from(s, pos)[i]),
    decreases s.len() + 1 - pos,
{
    let tokens = lex_from(s, pos);
    if 0 <= pos < s.len() {
        if white_space(s[pos]) {
            lemma_lexed_tokens_are_lexical(s, pos + 1);
            assert(tokens == lex_from(s, pos + 1));
        } else {
            lemma_scan_token_advances(s, pos);
            lemma_scan_token_is_lexical(s, pos);
            let (token, next) = scan_token(s, pos);
            lemma_lexed_tokens_are_lexical(s, next);
            let rest = lex_from(s, next);
            match token {
                Some(t) => {
                    assert(tokens == seq![t] + rest);
                    assert forall|i: int| 0 <= i < tokens.len() implies is_lexical(
                        #[trigger] tokens[i],
                    ) by {
                        if i > 0 {
                            assert(tokens[i] == rest[i - 1]);
                        }
                    }
                },
                None => {
                    assert(tokens == rest);
                },
            }
        }
    } else {
        assert(tokens == seq![TokenView::EOF]);
    }
}

/// A scanner over the characters of a filter expression.
pub struct Lexer {
    input: Vec<char>,
    /// The index of the next character, at most the length of the text.
    pos: usize,
    /// Whether the scanner stands one behind the end of the text, where a
    /// string that is not closed leaves it.
    past: bool,
}

impl Lexer {
    #[verifier::type_invariant]
    spec fn in_bounds(&self) -> bool {
        self.pos <= self.input.len() && (self.past ==> self.pos == self.input.len())
    }

    /// The text that the scanner was made for.
    pub closed spec fn source(&self) -> Seq<char> {
        self.input@
    }

    /// The index of the next character to read. It is at most one behind
    /// the end of the text.
    pub closed spec fn position(&self) -> int {
        if self.past {
            self.pos + 1
        } else {
            self.pos as int
        }
    }

    /// A scanner at the start of `input`.
    pub fn new(input: &str) -> (lexer: Self)
        ensures
            lexer.source() == input@,
            lexer.position() == 0,
    {
        Lexer { input: chars_of(input), pos: 0, past: false }
    }

    /// Scans the rest of the text. The result is never empty: its last
    /// element is the end-of-input token, which occurs nowhere else in it.
    /// The scanner is left where the scan ends, see [`scan_end`].
    pub fn tokenize(&mut self) -> (tokens: Vec<Token>)
        ensures
            tokens.deep_view() == lex_from(old(self).source(), old(self).position()),
            tokens.len() >= 1,
            tokens@.last() == Token::EOF,
            forall|i: int| 0 <= i < tokens.len() - 1 ==> tokens@[i] != Token::EOF,
            forall|i: int| 0 <= i < tokens.len() ==> is_lexical(#[trigger] tokens@[i]@),
            final(self).source() == old(self).source(),
            final(self).position() == scan_end(old(self).source(), old(self).position()),
    {
        proof {
            use_type_invariant(&*self);
        }
        let ghost s = self.input@;
        let ghost start = self.position();
        let mut tokens: Vec<Token> = Vec::new();
        while self.pos < self.input.len()
            invariant
                self.input@ == s,
                self.pos <= self.input.len(),
                self.past ==> self.pos == self.input.len(),
                tokens.deep_view() + lex_from(s, self.position()) == lex_from(s, start),
                scan_end(s, self.position()) == scan_end(s, start),
            decreases self.input.len() - self.pos,
        {
            let ghost entry = self.pos as int;
            self.skip_whitespace();
            proof {
                lemma_lex_skips_space(s, entry);
                lemma_scan_end_skips_space(s, entry);
                lemma_run_end(s, entry, CharClass::Space);
            }
            if self.pos < self.input.len() {
                let ghost at = self.pos as int;
                proof {
                    lemma_scan_token_advances(s, at);
                }
                let ch = self.input[self.pos];
                if '0' <= ch && ch <= '9' {
                    let token = self.read_number();
                    tokens.push(token);
                } else if ch == '\'' || ch == '"' {
                    let token = self.read_string();
                    tokens.push(token);
                } else if ch == '(' {
                    tokens.push(Token::LParen);
                    self.pos += 1;
                } else if ch == ')' {
                    tokens.push(Token::RParen);
                    self.pos += 1;
                } else if ch.is_alphabetic() || ch == '_' {
                    let token = self.read_identifier();
                    tokens.push(token);
                } else if ch == '=' || ch == '!' || ch == '>' || ch == '<' {
                    let token = self.read_operator();
                    tokens.push(token);
                } else if ch == ',' {
                    tokens.push(Token::Comma);
                    self.pos += 1;
                } else {
                    self.pos += 1;
                }
                proof {
                    use_type_invariant(&*self);
                }
            }
        }
        let ghost scanned = tokens.deep_view();
        tokens.push(Token::EOF);
        proof {
            assert(tokens.deep_view() =~= scanned + seq![TokenView::EOF]);
            lemma_lex_ends_with_one_eof(s, start);
            lemma_lexed_tokens_are_lexical(s, start);
            assert forall|i: int| 0 <= i < tokens.len() implies is_lexical(
                #[trigger] tokens@[i]@,
            ) by {
                assert(tokens.deep_view()[i] == tokens@[i]@);
            }
            assert forall|i: int| 0 <= i < tokens.len() - 1 implies tokens@[i] != Token::EOF by {
                assert(tokens.deep_view()[i] == tokens@[i]@);
            }
        }
        tokens
    }

    /// Moves to the next character that is not white space.
    fn skip_whitespace(&mut self)
        ensures
            final(self).input@ == old(self).input@,
            final(self).past == old(self).past,
            final(self).pos == run_end(old(self).input@, old(self).pos as int, CharClass::Space),
            old(self).pos <= final(self).pos <= old(self).input.len(),
    {
        proof {
            use_type_invariant(&*self);
        }
        self.pos = scan_forward(&self.input, self.pos, CharClass::Space);
    }

    /// Reads the number that starts at the current digit.
    fn read_number(&mut self) -> (token: Token)
        requires
            old(self).pos < old(self).input.len(),
            is_digit(old(self).input@[old(self).pos as int]),
        ensures
            final(self).input@ == old(self).input@,
            final(self).past == old(self).past,
            Some(token@) == scan_token(old(self).input@, old(self).pos as int).0,
            final(self).pos == scan_token(old(self).input@, old(self).pos as int).1,
    {
        proof {
            use_type_invariant(&*self);
        }
        let start = self.pos;
        self.pos = scan_forward(&self.input, start + 1, CharClass::NumberPart);
        Token::NumberLiteral(string_of(&self.input, start, self.pos))
    }

    /// Reads the string that starts at the current quote and moves one
    /// behind the character at which it ends; behind a string that is not
    /// closed that is one behind the end of the text.
    fn read_string(&mut self) -> (token: Token)
        requires
            old(self).pos < old(self).input.len(),
            old(self).input@[old(self).pos as int] == '\'' || old(self).input@[old(
                self,
            ).pos as int] == '"',
        ensures
            final(self).input@ == old(self).input@,
            Some(token@) == scan_token(old(self).input@, old(self).pos as int).0,
            final(self).position() == scan_token(old(self).input@, old(self).pos as int).1,
    {
        proof {
            use_type_invariant(&*self);
        }
        let quote = self.input[self.pos];
        let start = self.pos + 1;
        let close = scan_forward(&self.input, start, CharClass::Except(quote));
        let value = string_of(&self.input, start, close);
        if close < self.input.len() {
            self.pos = close + 1;
        } else {
            self.pos = close;
            self.past = true;
        }
        Token::StringLiteral(value)
    }

    /// Reads the word that starts at the current letter or underscore.
    fn read_identifier(&mut self) -> (token: Token)
        requires
            old(self).pos < old(self).input.len(),
            !is_digit(old(self).input@[old(self).pos as int]),
            old(self).input@[old(self).pos as int] != '\'',
            old(self).input@[old(self).pos as int] != '"',
            old(self).input@[old(self).pos as int] != '(',
            old(self).input@[old(self).pos as int] != ')',
            alphabetic(old(self).input@[old(self).pos as int]) || old(self).input@[old(
                self,
            ).pos as int] == '_',
        ensures
            final(self).input@ == old(self).input@,
            final(self).past == old(self).past,
            Some(token@) == scan_token(old(self).input@, old(self).pos as int).0,
            final(self).pos == scan_token(old(self).input@, old(self).pos as int).1,
    {
        proof {
            use_type_invariant(&*self);
        }
        let start = self.pos;
        let end = scan_forward(&self.input, start + 1, CharClass::IdentPart);
        self.pos = end;
        if range_is(&self.input, start, end, "has") {
            Token::Function(string_of(&self.input, start, end))
        } else if range_is(&self.input, start, end, "and") {
            Token::And
        } else if range_is(&self.input, start, end, "or") {
            Token::Or
        } else {
            Token::Field(string_of(&self.input, start, end))
        }
    }

    /// Reads the operator that starts at the current character: two
    /// characters where they form an operator, else one.
    fn read_operator(&mut self) -> (token: Token)
        requires
            old(self).pos < old(self).input.len(),
            !is_digit(old(self).input@[old(self).pos as int]),
            old(self).input@[old(self).pos as int] != '\'',
            old(self).input@[old(self).pos as int] != '"',
            old(self).input@[old(self).pos as int] != '(',
            old(self).input@[old(self).pos as int] != ')',
            !alphabetic(old(self).input@[old(self).pos as int]),
            starts_operator(old(self).input@[old(self).pos as int]),
        ensures
            final(self).input@ == old(self).input@,
            final(self).past == old(self).past,
            Some(token@) == scan_token(old(self).input@, old(self).pos as int).0,
            final(self).pos == scan_token(old(self).input@, old(self).pos as int).1,
    {
        proof {
            use_type_invariant(&*self);
        }
        let start = self.pos;
        let ch = self.input[start];
        self.pos += 1;
        if self.pos < self.input.len() {
            let next = self.input[self.pos];
            if (next == '=' && (ch == '=' || ch == '!' || ch == '>' || ch == '<')) || (ch == '='
                && next == '~') {
                self.pos += 1;
                return Token::Operator(string_of(&self.input, start, self.pos));
            }
        }
        Token::Operator(string_of(&self.input, start, start + 1))
    }
}

} // verus!
