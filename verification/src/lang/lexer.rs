//! The lexer: turns raw source text into a flat stream of tokens.
//!
//! Single-character punctuation maps to dedicated token kinds;
//! whitespace separates; every other character accumulates into a
//! buffer that is flushed as a keyword or an identifier.  A quote
//! starts a string literal whose characters are taken verbatim until
//! the closing quote.  The lexer never fails: malformed input (such as
//! an unterminated literal) simply yields a truncated token stream and
//! surfaces as a parse error one layer up.

use crate::text::push_char;
use crate::text::str_eq;
use vstd::prelude::*;

verus! {

#[derive(Debug, PartialEq, Eq, Copy, Clone, Structural)]
pub enum Keyword {
    Alias,
    Struct,
    Enum,
    Extern,
    Service,
    Use,
}

/// An exec token; identifier and literal text is owned.
#[derive(Debug, PartialEq, Eq, Clone)]
pub enum Token {
    Identifier(String),
    Keyword(Keyword),
    OpenBrace,
    CloseBrace,
    OpenParen,
    CloseParen,
    Colon,
    SemiColon,
    QuestionMark,
    Ampersand,
    AngleBracketOpen,
    AngleBracketClose,
    Comma,
    Equals,
    Dash,
    Quote,
    StringLiteral(String),
}

/// The mathematical shadow of a `Token`: identifier and literal text as
/// character sequences.
pub enum SpecToken {
    Identifier(Seq<char>),
    Keyword(Keyword),
    OpenBrace,
    CloseBrace,
    OpenParen,
    CloseParen,
    Colon,
    SemiColon,
    QuestionMark,
    Ampersand,
    AngleBracketOpen,
    AngleBracketClose,
    Comma,
    Equals,
    Dash,
    Quote,
    StringLiteral(Seq<char>),
}

impl View for Token {
    type V = SpecToken;

    open spec fn view(&self) -> SpecToken {
        match self {
            Token::Identifier(s) => SpecToken::Identifier(s@),
            Token::Keyword(k) => SpecToken::Keyword(*k),
            Token::OpenBrace => SpecToken::OpenBrace,
            Token::CloseBrace => SpecToken::CloseBrace,
            Token::OpenParen => SpecToken::OpenParen,
            Token::CloseParen => SpecToken::CloseParen,
            Token::Colon => SpecToken::Colon,
            Token::SemiColon => SpecToken::SemiColon,
            Token::QuestionMark => SpecToken::QuestionMark,
            Token::Ampersand => SpecToken::Ampersand,
            Token::AngleBracketOpen => SpecToken::AngleBracketOpen,
            Token::AngleBracketClose => SpecToken::AngleBracketClose,
            Token::Comma => SpecToken::Comma,
            Token::Equals => SpecToken::Equals,
            Token::Dash => SpecToken::Dash,
            Token::Quote => SpecToken::Quote,
            Token::StringLiteral(s) => SpecToken::StringLiteral(s@),
        }
    }
}

/// The views of a token sequence.
pub open spec fn token_views(ts: Seq<Token>) -> Seq<SpecToken> {
    ts.map_values(|t: Token| t@)
}

/// The keyword spelled by `s`, if any.
pub open spec fn spec_keyword(s: Seq<char>) -> Option<Keyword> {
    if s == "alias"@ {
        Some(Keyword::Alias)
    } else if s == "struct"@ {
        Some(Keyword::Struct)
    } else if s == "enum"@ {
        Some(Keyword::Enum)
    } else if s == "extern"@ {
        Some(Keyword::Extern)
    } else if s == "service"@ {
        Some(Keyword::Service)
    } else if s == "use"@ {
        Some(Keyword::Use)
    } else {
        None
    }
}

/// The punctuation token a single character maps to, if any.
pub open spec fn char_token(c: char) -> Option<SpecToken> {
    if c == '{' {
        Some(SpecToken::OpenBrace)
    } else if c == '}' {
        Some(SpecToken::CloseBrace)
    } else if c == '(' {
        Some(SpecToken::OpenParen)
    } else if c == ')' {
        Some(SpecToken::CloseParen)
    } else if c == ':' {
        Some(SpecToken::Colon)
    } else if c == ';' {
        Some(SpecToken::SemiColon)
    } else if c == '?' {
        Some(SpecToken::QuestionMark)
    } else if c == '&' {
        Some(SpecToken::Ampersand)
    } else if c == '<' {
        Some(SpecToken::AngleBracketOpen)
    } else if c == '>' {
        Some(SpecToken::AngleBracketClose)
    } else if c == ',' {
        Some(SpecToken::Comma)
    } else if c == '=' {
        Some(SpecToken::Equals)
    } else if c == '-' {
        Some(SpecToken::Dash)
    } else if c == '"' {
        Some(SpecToken::Quote)
    } else {
        None
    }
}

/// The characters the lexer treats as whitespace.
pub open spec fn is_space(c: char) -> bool {
    c == ' ' || c == '\t' || c == '\n' || c == '\r'
}

/// A character that accumulates into an identifier or keyword buffer.
pub open spec fn is_ident_char(c: char) -> bool {
    char_token(c) is None && !is_space(c)
}

/// Tokens produced when the pending buffer is flushed.
pub open spec fn flush(buf: Seq<char>) -> Seq<SpecToken> {
    if buf.len() == 0 {
        seq![]
    } else {
        match spec_keyword(buf) {
            Some(k) => seq![SpecToken::Keyword(k)],
            None => seq![SpecToken::Identifier(buf)],
        }
    }
}

/// The token stream of `s`, scanned with pending buffer `buf`.
/// A buffer still pending at end of input is dropped, matching the
/// scanner: only punctuation or whitespace flushes it.
pub open spec fn lex_state(s: Seq<char>, buf: Seq<char>) -> Seq<SpecToken>
    decreases s.len(), 1int,
{
    if s.len() == 0 {
        seq![]
    } else if s[0] == '"' {
        lex_lit(s.skip(1), Seq::empty(), buf)
    } else if char_token(s[0]) is Some {
        flush(buf) + seq![char_token(s[0]).unwrap()] + lex_state(s.skip(1), Seq::empty())
    } else if is_space(s[0]) {
        flush(buf) + lex_state(s.skip(1), Seq::empty())
    } else {
        lex_state(s.skip(1), buf.push(s[0]))
    }
}

/// Scanning the inside of a string literal: `lit` is the literal text
/// read so far, `buf` the identifier buffer that was pending when the
/// literal opened (it stays pending).  An unterminated literal consumes
/// the rest of the input and emits nothing.
pub open spec fn lex_lit(s: Seq<char>, lit: Seq<char>, buf: Seq<char>) -> Seq<SpecToken>
    decreases s.len(), 0int,
{
    if s.len() == 0 {
        seq![]
    } else if s[0] == '"' {
        seq![SpecToken::StringLiteral(lit)] + lex_state(s.skip(1), buf)
    } else {
        lex_lit(s.skip(1), lit.push(s[0]), buf)
    }
}

/// The token stream of a complete source text.
pub open spec fn lex(s: Seq<char>) -> Seq<SpecToken> {
    lex_state(s, Seq::empty())
}

impl Keyword {
    pub fn from_str(input: &str) -> (r: Option<Keyword>)
        ensures
            r == spec_keyword(input@),
    {
        if str_eq(input, "alias") {
            Some(Keyword::Alias)
        } else if str_eq(input, "struct") {
            Some(Keyword::Struct)
        } else if str_eq(input, "enum") {
            Some(Keyword::Enum)
        } else if str_eq(input, "extern") {
            Some(Keyword::Extern)
        } else if str_eq(input, "service") {
            Some(Keyword::Service)
        } else if str_eq(input, "use") {
            Some(Keyword::Use)
        } else {
            None
        }
    }
}

impl Token {
    pub fn from_char(input: &char) -> (r: Option<Token>)
        ensures
            match r {
                Some(t) => char_token(*input) == Some(t@),
                None => char_token(*input) is None,
            },
    {
        match *input {
            '{' => Some(Token::OpenBrace),
            '}' => Some(Token::CloseBrace),
            '(' => Some(Token::OpenParen),
            ')' => Some(Token::CloseParen),
            ':' => Some(Token::Colon),
            ';' => Some(Token::SemiColon),
            '?' => Some(Token::QuestionMark),
            '&' => Some(Token::Ampersand),
            '<' => Some(Token::AngleBracketOpen),
            '>' => Some(Token::AngleBracketClose),
            ',' => Some(Token::Comma),
            '=' => Some(Token::Equals),
            '-' => Some(Token::Dash),
            '"' => Some(Token::Quote),
            _ => None,
        }
    }
}

/// Pushes the tokens of a flushed buffer: a keyword if the buffer
/// spells one, otherwise an identifier; nothing for an empty buffer.
fn flush_buffer(tokens: &mut Vec<Token>, b: String)
    ensures
        token_views(final(tokens)@) == token_views(old(tokens)@) + flush(b@),
{
    if !b.as_str().is_empty() {
        match Keyword::from_str(b.as_str()) {
            Some(k) => {
                tokens.push(Token::Keyword(k));
            },
            None => {
                tokens.push(Token::Identifier(b));
            },
        }
        proof {
            assert(token_views(final(tokens)@) =~= token_views(old(tokens)@) + flush(b@));
        }
    } else {
        proof {
            assert(token_views(final(tokens)@) =~= token_views(old(tokens)@) + flush(b@));
        }
    }
}

/// Scans `input` into its token stream.
pub fn get_tokens(input: &str) -> (r: Vec<Token>)
    ensures
        token_views(r@) == lex(input@),
{
    let n = input.unicode_len();
    let mut tokens: Vec<Token> = Vec::new();
    let mut buffer = String::new();
    let mut i: usize = 0;
    proof {
        assert(input@.skip(0) =~= input@);
        assert(token_views(tokens@) + lex_state(input@, buffer@) =~= lex(input@));
    }
    while i < n
        invariant
            n == input@.len(),
            i <= n,
            token_views(tokens@) + lex_state(input@.skip(i as int), buffer@) == lex(input@),
        decreases n - i,
    {
        let ghost pre = input@.skip(i as int);
        let ghost tv0 = token_views(tokens@);
        let ghost buf0 = buffer@;
        proof {
            assert(pre[0] == input@[i as int]);
            assert(pre.skip(1) =~= input@.skip(i as int + 1));
        }
        let c = input.get_char(i);
        if c == '"' {
            // string literal: consume verbatim until the closing quote
            i += 1;
            let mut lit = String::new();
            let mut done = false;
            let ghost istart = i;
            while i < n && !done
                invariant
                    n == input@.len(),
                    istart <= i <= n,
                    done ==> token_views(tokens@) + lex_state(input@.skip(i as int), buffer@)
                        == lex(input@),
                    !done ==> token_views(tokens@) + lex_lit(
                        input@.skip(i as int),
                        lit@,
                        buffer@,
                    ) == lex(input@),
                decreases n - i,
            {
                let ghost lpre = input@.skip(i as int);
                let ghost ltv0 = token_views(tokens@);
                let ghost lit0 = lit@;
                proof {
                    assert(lpre[0] == input@[i as int]);
                    assert(lpre.skip(1) =~= input@.skip(i as int + 1));
                }
                let c2 = input.get_char(i);
                i += 1;
                if c2 == '"' {
                    let mut full = String::new();
                    core::mem::swap(&mut full, &mut lit);
                    tokens.push(Token::StringLiteral(full));
                    done = true;
                    proof {
                        let ghost rest = lex_state(input@.skip(i as int), buffer@);
                        assert(token_views(tokens@) =~= ltv0 + seq![
                            SpecToken::StringLiteral(lit0),
                        ]);
                        assert(lex_lit(lpre, lit0, buffer@) == seq![
                            SpecToken::StringLiteral(lit0),
                        ] + rest);
                        assert((ltv0 + seq![SpecToken::StringLiteral(lit0)]) + rest =~= ltv0 + (
                        seq![SpecToken::StringLiteral(lit0)] + rest));
                    }
                } else {
                    push_char(&mut lit, c2);
                }
            }
            proof {
                if !done {
                    assert(input@.skip(i as int) =~= Seq::<char>::empty());
                    assert(lex_lit(Seq::<char>::empty(), lit@, buffer@) == Seq::<
                        SpecToken,
                    >::empty());
                    assert(lex_state(Seq::<char>::empty(), buffer@) == Seq::<
                        SpecToken,
                    >::empty());
                }
            }
        } else {
            let token = Token::from_char(&c);
            if token.is_some() || is_space_char(c) {
                let b = buffer;
                buffer = String::new();
                flush_buffer(&mut tokens, b);
            }
            match token {
                Some(t) => {
                    let ghost ct = t@;
                    tokens.push(t);
                    proof {
                        let ghost rest = lex_state(
                            input@.skip(i as int + 1),
                            Seq::<char>::empty(),
                        );
                        assert(token_views(tokens@) =~= (tv0 + flush(buf0)) + seq![ct]);
                        assert(lex_state(pre, buf0) == flush(buf0) + seq![ct] + rest);
                        assert(((tv0 + flush(buf0)) + seq![ct]) + rest =~= tv0 + ((flush(buf0)
                            + seq![ct]) + rest));
                    }
                },
                None => {
                    if !is_space_char(c) {
                        push_char(&mut buffer, c);
                        proof {
                            assert(lex_state(pre, buf0) == lex_state(
                                pre.skip(1),
                                buf0.push(pre[0]),
                            ));
                        }
                    } else {
                        proof {
                            let ghost rest = lex_state(
                                input@.skip(i as int + 1),
                                Seq::<char>::empty(),
                            );
                            assert(lex_state(pre, buf0) == flush(buf0) + rest);
                            assert((tv0 + flush(buf0)) + rest =~= tv0 + (flush(buf0) + rest));
                        }
                    }
                },
            }
            i += 1;
        }
    }
    proof {
        assert(input@.skip(n as int) =~= Seq::<char>::empty());
        assert(token_views(tokens@) + lex_state(Seq::<char>::empty(), buffer@) =~= token_views(
            tokens@,
        ));
    }
    tokens
}

/// Whether the lexer treats `c` as whitespace.
fn is_space_char(c: char) -> (r: bool)
    ensures
        r == is_space(c),
{
    c == ' ' || c == '\t' || c == '\n' || c == '\r'
}

} // verus!
