//! The lexer: turns source text into a token stream with indentation
//! tracking, consumed by the parser through peeking, cheap position
//! save/restore for backtracking, and per-line indent queries.

use vstd::prelude::*;

use crate::token::{Span, Token, TokenInfo};

verus! {

fn is_digit(c: char) -> bool {
    '0' <= c && c <= '9'
}

fn is_id_start(c: char) -> bool {
    ('a' <= c && c <= 'z') || ('A' <= c && c <= 'Z') || c == '_'
}

fn is_id_char(c: char) -> bool {
    ('a' <= c && c <= 'z') || ('A' <= c && c <= 'Z') || ('0' <= c && c <= '9') || c == '_'
}

fn keyword_token(word: &String) -> Token {
    if *word == "true".to_owned() {
        Token::True
    } else if *word == "false".to_owned() {
        Token::False
    } else if *word == "and".to_owned() {
        Token::And
    } else if *word == "or".to_owned() {
        Token::Or
    } else if *word == "not".to_owned() {
        Token::Not
    } else if *word == "if".to_owned() {
        Token::If
    } else if *word == "then".to_owned() {
        Token::Then
    } else if *word == "else".to_owned() {
        Token::Else
    } else if *word == "match".to_owned() {
        Token::Match
    } else if *word == "for".to_owned() {
        Token::For
    } else if *word == "in".to_owned() {
        Token::In
    } else if *word == "while".to_owned() {
        Token::While
    } else if *word == "until".to_owned() {
        Token::Until
    } else if *word == "loop".to_owned() {
        Token::Loop
    } else if *word == "break".to_owned() {
        Token::Break
    } else if *word == "continue".to_owned() {
        Token::Continue
    } else if *word == "return".to_owned() {
        Token::Return
    } else if *word == "yield".to_owned() {
        Token::Yield
    } else if *word == "from".to_owned() {
        Token::From
    } else if *word == "import".to_owned() {
        Token::Import
    } else if *word == "export".to_owned() {
        Token::Export
    } else if *word == "try".to_owned() {
        Token::Try
    } else if *word == "catch".to_owned() {
        Token::Catch
    } else if *word == "finally".to_owned() {
        Token::Finally
    } else if *word == "debug".to_owned() {
        Token::Debug
    } else if *word == "copy".to_owned() {
        Token::Copy
    } else if *word == "type".to_owned() {
        Token::Type
    } else if *word == "num2".to_owned() {
        Token::Num2
    } else if *word == "num4".to_owned() {
        Token::Num4
    } else if *word == "_".to_owned() {
        Token::Wildcard
    } else {
        Token::Id
    }
}

struct RawTok {
    token: Token,
    start: usize,
    end: usize,
}

/// Scans an identifier word starting at `i`; returns the end position.
fn scan_word(s: &str, n: usize, i: usize) -> (r: usize)
    requires
        n == s@.len(),
        i < n,
    ensures
        i < r <= n,
{
    let mut j = i + 1;
    while j < n
        invariant
            i < j <= n,
            n == s@.len(),
        decreases n - j,
    {
        if is_id_char(s.get_char(j)) {
            j = j + 1;
        } else {
            return j;
        }
    }
    j
}

fn scan_digits(s: &str, n: usize, i: usize) -> (r: usize)
    requires
        n == s@.len(),
        i <= n,
    ensures
        i <= r <= n,
{
    let mut j = i;
    while j < n
        invariant
            i <= j <= n,
            n == s@.len(),
        decreases n - j,
    {
        if is_digit(s.get_char(j)) {
            j = j + 1;
        } else {
            return j;
        }
    }
    j
}

fn raw_tokenize(s: &str) -> (out: Vec<RawTok>)
    ensures
        s@.len() == 0 ==> out@.len() == 0,
{
    let n = s.unicode_len();
    let mut out: Vec<RawTok> = Vec::new();
    let mut i: usize = 0;
    while i < n
        invariant
            i <= n,
            n == s@.len(),
            n == 0 ==> out@.len() == 0,
        decreases n - i,
    {
        let c = s.get_char(i);
        if c == ' ' || c == '\t' {
            let mut j = i + 1;
            while j < n
                invariant
                    i < j <= n,
                    n == s@.len(),
                decreases n - j,
            {
                let w = s.get_char(j);
                if w == ' ' || w == '\t' {
                    j = j + 1;
                } else {
                    break;
                }
            }
            out.push(RawTok { token: Token::Whitespace, start: i, end: j });
            i = j;
        } else if c == '\n' {
            out.push(RawTok { token: Token::NewLine, start: i, end: i + 1 });
            i = i + 1;
        } else if c == '\r' {
            if i + 1 < n && s.get_char(i + 1) == '\n' {
                out.push(RawTok { token: Token::NewLine, start: i, end: i + 2 });
                i = i + 2;
            } else {
                out.push(RawTok { token: Token::Whitespace, start: i, end: i + 1 });
                i = i + 1;
            }
        } else if c == '\\' {
            if i + 1 < n && s.get_char(i + 1) == '\n' {
                out.push(RawTok { token: Token::NewLineSkipped, start: i, end: i + 2 });
                i = i + 2;
            } else if n - i > 2 && s.get_char(i + 1) == '\r' && s.get_char(i + 2) == '\n' {
                out.push(RawTok { token: Token::NewLineSkipped, start: i, end: i + 3 });
                i = i + 3;
            } else {
                out.push(RawTok { token: Token::LexError, start: i, end: i + 1 });
                i = i + 1;
            }
        } else if c == '#' {
            if i + 1 < n && s.get_char(i + 1) == '-' {
                let mut j = i + 2;
                let mut closed = false;
                while j < n
                    invariant
                        i + 2 <= j <= n,
                        n == s@.len(),
                    decreases n - j,
                {
                    if j + 1 < n && s.get_char(j) == '-' && s.get_char(j + 1) == '#' {
                        j = j + 2;
                        closed = true;
                        break;
                    }
                    j = j + 1;
                }
                let tok = if closed {
                    Token::CommentMulti
                } else {
                    Token::LexError
                };
                out.push(RawTok { token: tok, start: i, end: j });
                i = j;
            } else {
                let mut j = i + 1;
                while j < n
                    invariant
                        i < j <= n,
                        n == s@.len(),
                    decreases n - j,
                {
                    let w = s.get_char(j);
                    if w == '\n' || w == '\r' {
                        break;
                    }
                    j = j + 1;
                }
                out.push(RawTok { token: Token::CommentSingle, start: i, end: j });
                i = j;
            }
        } else if c == '\'' || c == '"' {
            let quote = c;
            let mut j = i + 1;
            let mut closed = false;
            while j < n
                invariant
                    i < j <= n,
                    n == s@.len(),
                decreases n - j,
            {
                let w = s.get_char(j);
                if w == '\\' {
                    if n - j >= 2 {
                        j = j + 2;
                    } else {
                        j = n;
                    }
                } else if w == quote {
                    j = j + 1;
                    closed = true;
                    break;
                } else {
                    j = j + 1;
                }
            }
            let tok = if closed {
                Token::Str
            } else {
                Token::LexError
            };
            out.push(RawTok { token: tok, start: i, end: j });
            i = j;
        } else if is_digit(c) || (c == '-' && i + 1 < n && is_digit(s.get_char(i + 1))) {
            let mut j = if c == '-' {
                i + 1
            } else {
                i
            };
            j = scan_digits(s, n, j);
            if n - j > 1 && s.get_char(j) == '.' && is_digit(s.get_char(j + 1)) {
                j = scan_digits(s, n, j + 1);
            }
            out.push(RawTok { token: Token::Number, start: i, end: j });
            i = if j > i {
                j
            } else {
                i + 1
            };
        } else if is_id_start(c) {
            let j = scan_word(s, n, i);
            let word = s.substring_char(i, j).to_owned();
            let tok = keyword_token(&word);
            if tok == Token::Else {
                let mut k = j;
                while k < n
                    invariant
                        j <= k <= n,
                        n == s@.len(),
                    decreases n - k,
                {
                    let w = s.get_char(k);
                    if w == ' ' || w == '\t' {
                        k = k + 1;
                    } else {
                        break;
                    }
                }
                if k > j && k < n && is_id_start(s.get_char(k)) {
                    let m = scan_word(s, n, k);
                    let next_word = s.substring_char(k, m).to_owned();
                    if keyword_token(&next_word) == Token::If {
                        out.push(RawTok { token: Token::ElseIf, start: i, end: m });
                        i = m;
                        continue;
                    }
                }
                out.push(RawTok { token: Token::Else, start: i, end: j });
                i = j;
            } else {
                out.push(RawTok { token: tok, start: i, end: j });
                i = j;
            }
        } else if c == '.' {
            if i + 1 < n && s.get_char(i + 1) == '.' {
                if i + 2 < n && s.get_char(i + 2) == '=' {
                    out.push(RawTok { token: Token::RangeInclusive, start: i, end: i + 3 });
                    i = i + 3;
                } else {
                    out.push(RawTok { token: Token::Range, start: i, end: i + 2 });
                    i = i + 2;
                }
            } else {
                out.push(RawTok { token: Token::Dot, start: i, end: i + 1 });
                i = i + 1;
            }
        } else if c == '=' {
            if i + 1 < n && s.get_char(i + 1) == '=' {
                out.push(RawTok { token: Token::Equal, start: i, end: i + 2 });
                i = i + 2;
            } else {
                out.push(RawTok { token: Token::Assign, start: i, end: i + 1 });
                i = i + 1;
            }
        } else if c == '!' {
            if i + 1 < n && s.get_char(i + 1) == '=' {
                out.push(RawTok { token: Token::NotEqual, start: i, end: i + 2 });
                i = i + 2;
            } else {
                out.push(RawTok { token: Token::LexError, start: i, end: i + 1 });
                i = i + 1;
            }
        } else if c == '<' {
            if i + 1 < n && s.get_char(i + 1) == '=' {
                out.push(RawTok { token: Token::LessOrEqual, start: i, end: i + 2 });
                i = i + 2;
            } else {
                out.push(RawTok { token: Token::Less, start: i, end: i + 1 });
                i = i + 1;
            }
        } else if c == '>' {
            if i + 1 < n && s.get_char(i + 1) == '=' {
                out.push(RawTok { token: Token::GreaterOrEqual, start: i, end: i + 2 });
                i = i + 2;
            } else {
                out.push(RawTok { token: Token::Greater, start: i, end: i + 1 });
                i = i + 1;
            }
        } else if c == '+' {
            if i + 1 < n && s.get_char(i + 1) == '=' {
                out.push(RawTok { token: Token::AssignAdd, start: i, end: i + 2 });
                i = i + 2;
            } else {
                out.push(RawTok { token: Token::Add, start: i, end: i + 1 });
                i = i + 1;
            }
        } else if c == '-' {
            if i + 1 < n && s.get_char(i + 1) == '=' {
                out.push(RawTok { token: Token::AssignSubtract, start: i, end: i + 2 });
                i = i + 2;
            } else {
                out.push(RawTok { token: Token::Subtract, start: i, end: i + 1 });
                i = i + 1;
            }
        } else if c == '*' {
            if i + 1 < n && s.get_char(i + 1) == '=' {
                out.push(RawTok { token: Token::AssignMultiply, start: i, end: i + 2 });
                i = i + 2;
            } else {
                out.push(RawTok { token: Token::Multiply, start: i, end: i + 1 });
                i = i + 1;
            }
        } else if c == '/' {
            if i + 1 < n && s.get_char(i + 1) == '=' {
                out.push(RawTok { token: Token::AssignDivide, start: i, end: i + 2 });
                i = i + 2;
            } else {
                out.push(RawTok { token: Token::Divide, start: i, end: i + 1 });
                i = i + 1;
            }
        } else if c == '%' {
            if i + 1 < n && s.get_char(i + 1) == '=' {
                out.push(RawTok { token: Token::AssignModulo, start: i, end: i + 2 });
                i = i + 2;
            } else {
                out.push(RawTok { token: Token::Modulo, start: i, end: i + 1 });
                i = i + 1;
            }
        } else if c == '(' {
            out.push(RawTok { token: Token::ParenOpen, start: i, end: i + 1 });
            i = i + 1;
        } else if c == ')' {
            out.push(RawTok { token: Token::ParenClose, start: i, end: i + 1 });
            i = i + 1;
        } else if c == '[' {
            out.push(RawTok { token: Token::ListStart, start: i, end: i + 1 });
            i = i + 1;
        } else if c == ']' {
            out.push(RawTok { token: Token::ListEnd, start: i, end: i + 1 });
            i = i + 1;
        } else if c == '{' {
            out.push(RawTok { token: Token::MapStart, start: i, end: i + 1 });
            i = i + 1;
        } else if c == '}' {
            out.push(RawTok { token: Token::MapEnd, start: i, end: i + 1 });
            i = i + 1;
        } else if c == ',' {
            out.push(RawTok { token: Token::Separator, start: i, end: i + 1 });
            i = i + 1;
        } else if c == ':' {
            out.push(RawTok { token: Token::Colon, start: i, end: i + 1 });
            i = i + 1;
        } else if c == '|' {
            out.push(RawTok { token: Token::Function, start: i, end: i + 1 });
            i = i + 1;
        } else {
            out.push(RawTok { token: Token::LexError, start: i, end: i + 1 });
            i = i + 1;
        }
    }
    out
}

/// The token stream over a source text, with a cursor, position
/// save/restore for backtracking, and line/indent queries.
#[derive(Debug)]
pub struct Lexer {
    pub tokens: Vec<TokenInfo>,
    pub pos: usize,
    pub source: String,
    pub source_len: usize,
    pub init_indent: usize,
    pub empty_text: String,
}

fn is_trivia(t: Token) -> bool {
    t == Token::Whitespace || t == Token::NewLine || t == Token::NewLineIndented || t
        == Token::NewLineSkipped || t == Token::CommentSingle || t == Token::CommentMulti
}

impl Lexer {
    /// Tokenizes the whole source up front. An empty source has no
    /// tokens.
    pub fn new(source: &str) -> (r: Lexer)
        ensures
            r.pos == 0,
            source@.len() == 0 ==> r.tokens@.len() == 0,
    {
        let n = source.unicode_len();
        let raw = raw_tokenize(source);
        let m = raw.len();
        let init_indent: usize = if m > 0 && raw[0].token == Token::Whitespace && raw[0].end
            >= raw[0].start {
            raw[0].end - raw[0].start
        } else {
            0
        };
        let mut tokens: Vec<TokenInfo> = Vec::new();
        let mut line: usize = 1;
        let mut indent: usize = init_indent;
        let mut k: usize = 0;
        while k < m
            invariant
                k <= m,
                m == raw@.len(),
                n == source@.len(),
                m == 0 ==> tokens@.len() == 0,
            decreases m - k,
        {
            let t = &raw[k];
            let start = if t.start <= n {
                t.start
            } else {
                n
            };
            let end = if t.end <= n && t.end >= start {
                t.end
            } else {
                start
            };
            let text = source.substring_char(start, end).to_owned();
            if t.token == Token::NewLine || t.token == Token::NewLineSkipped {
                if line < usize::MAX {
                    line = line + 1;
                }
                let next_indent: usize = if k + 1 < m && raw[k + 1].token == Token::Whitespace
                    && raw[k + 1].end >= raw[k + 1].start {
                    raw[k + 1].end - raw[k + 1].start
                } else {
                    0
                };
                indent = next_indent;
                let tok = if t.token == Token::NewLine {
                    if next_indent > 0 {
                        Token::NewLineIndented
                    } else {
                        Token::NewLine
                    }
                } else {
                    Token::NewLineSkipped
                };
                tokens.push(TokenInfo { token: tok, start, end, text, line, indent });
            } else {
                tokens.push(TokenInfo { token: t.token, start, end, text, line, indent });
            }
            k = k + 1;
        }
        Lexer {
            tokens,
            pos: 0,
            source: source.to_owned(),
            source_len: n,
            init_indent,
            empty_text: String::new(),
        }
    }

    /// The next unconsumed token, if any.
    pub fn peek(&self) -> (r: Option<Token>)
        ensures
            r is Some <==> self.pos < self.tokens@.len(),
    {
        if self.pos < self.tokens.len() {
            Some(self.tokens[self.pos].token)
        } else {
            None
        }
    }

    /// The token `n` places past the next unconsumed one.
    pub fn peek_n(&self, n: usize) -> (r: Option<Token>)
        ensures
            r is Some ==> self.pos + n < self.tokens@.len(),
    {
        if n < usize::MAX - self.pos && self.pos + n < self.tokens.len() {
            Some(self.tokens[self.pos + n].token)
        } else {
            None
        }
    }

    /// Consumes and returns the next token.
    pub fn advance(&mut self) -> (r: Option<Token>)
        ensures
            final(self).tokens == old(self).tokens,
            final(self).source == old(self).source,
            r is Some ==> old(self).pos < old(self).tokens@.len() && final(self).pos == old(
                self,
            ).pos + 1,
            r is None ==> *final(self) == *old(self),
            old(self).pos < old(self).tokens@.len() ==> r is Some,
    {
        if self.pos < self.tokens.len() {
            let t = self.tokens[self.pos].token;
            self.pos = self.pos + 1;
            Some(t)
        } else {
            None
        }
    }

    /// The cursor, for backtracking.
    pub fn position(&self) -> (r: usize)
        ensures
            r == self.pos,
    {
        self.pos
    }

    /// Restores a previously saved cursor.
    pub fn set_position(&mut self, p: usize)
        ensures
            final(self).tokens == old(self).tokens,
            final(self).source == old(self).source,
            p <= old(self).tokens@.len() ==> final(self).pos == p,
            p > old(self).tokens@.len() ==> final(self).pos == old(self).pos,
    {
        if p <= self.tokens.len() {
            self.pos = p;
        }
    }

    /// The text of the most recently consumed token.
    pub fn slice(&self) -> &String {
        if 0 < self.pos && self.pos <= self.tokens.len() {
            &self.tokens[self.pos - 1].text
        } else {
            &self.empty_text
        }
    }

    /// The span of the most recently consumed token.
    pub fn span(&self) -> Span {
        if 0 < self.pos && self.pos <= self.tokens.len() {
            Span { start: self.tokens[self.pos - 1].start, end: self.tokens[self.pos - 1].end }
        } else {
            Span::zero()
        }
    }

    /// The character position of the cursor: the end of the most recently
    /// consumed token.
    pub fn source_position(&self) -> usize {
        if 0 < self.pos && self.pos <= self.tokens.len() {
            self.tokens[self.pos - 1].end
        } else {
            0
        }
    }

    /// The source text between two character positions.
    pub fn source_slice(&self, from: usize, to: usize) -> String {
        let n = self.source.as_str().unicode_len();
        let a = if from <= n {
            from
        } else {
            n
        };
        let b = if to <= n && to >= a {
            to
        } else {
            a
        };
        self.source.as_str().substring_char(a, b).to_owned()
    }

    /// The line the cursor is on, starting at one.
    pub fn line_number(&self) -> usize {
        if 0 < self.pos && self.pos <= self.tokens.len() {
            self.tokens[self.pos - 1].line
        } else {
            1
        }
    }

    /// The indentation of the line the cursor is on.
    pub fn current_indent(&self) -> usize {
        if 0 < self.pos && self.pos <= self.tokens.len() {
            self.tokens[self.pos - 1].indent
        } else {
            self.init_indent
        }
    }

    /// The indentation of the line holding the next token that is not
    /// spacing or a comment; zero when none is left.
    pub fn next_indent(&self) -> usize {
        let m = self.tokens.len();
        let mut k = if self.pos <= m {
            self.pos
        } else {
            m
        };
        while k < m
            invariant
                k <= m,
                m == self.tokens.len(),
            decreases m - k,
        {
            if !is_trivia(self.tokens[k].token) {
                return self.tokens[k].indent;
            }
            k = k + 1;
        }
        0
    }
}

} // verus!
