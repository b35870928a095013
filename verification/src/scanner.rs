use crate::text::{decimal, decimal_text, optional, string_views};
use crate::token::{token_views, LiteralView, Token, TokenLiteral, TokenType, TokenView};
use vstd::prelude::*;
use vstd::string::{StrSliceExecFns, StringExecFns};

verus! {

/// The kind of a token that is one character whatever follows it.
pub open spec fn lone(c: char) -> Option<TokenType> {
    if c == '(' {
        Some(TokenType::LEFTPAREN)
    } else if c == ')' {
        Some(TokenType::RIGHTPAREN)
    } else if c == '{' {
        Some(TokenType::LEFTBRACE)
    } else if c == '}' {
        Some(TokenType::RIGHTBRACE)
    } else if c == ',' {
        Some(TokenType::COMMA)
    } else if c == '.' {
        Some(TokenType::DOT)
    } else if c == '-' {
        Some(TokenType::MINUS)
    } else if c == '+' {
        Some(TokenType::PLUS)
    } else if c == ';' {
        Some(TokenType::SEMICOLON)
    } else if c == '*' {
        Some(TokenType::STAR)
    } else {
        None
    }
}

/// The kind of a token that begins with `c` and takes a following `=` with
/// it: `followed` says whether one is there.
pub open spec fn paired(c: char, followed: bool) -> Option<TokenType> {
    if c == '!' {
        Some(if followed { TokenType::NOTEQUAL } else { TokenType::BANG })
    } else if c == '=' {
        Some(if followed { TokenType::EQUAL } else { TokenType::ASSIGN })
    } else if c == '<' {
        Some(if followed { TokenType::LESSEQUAL } else { TokenType::LESS })
    } else if c == '>' {
        Some(if followed { TokenType::GREATEREQUAL } else { TokenType::GREATER })
    } else {
        None
    }
}

/// How many characters stand between position `from` and the first `stop`
/// at or after it, or the end of the source where there is none.
pub open spec fn run(src: Seq<char>, stop: char, from: int) -> nat
    decreases src.len() - from,
{
    if 0 <= from < src.len() && src[from] != stop {
        1 + run(src, stop, from + 1)
    } else {
        0
    }
}

/// How many newlines stand in `src` from `from` up to, not including, `to`.
pub open spec fn newlines(src: Seq<char>, from: int, to: int) -> nat
    decreases to - from,
{
    if from < to {
        newlines(src, from, to - 1) + if src[to - 1] == '\n' {
            1nat
        } else {
            0nat
        }
    } else {
        0
    }
}

/// The line counter after it has passed `count` newlines. It stops at the
/// largest number it can hold.
pub open spec fn line_after(line: usize, count: nat) -> usize {
    if line + count > usize::MAX {
        usize::MAX
    } else {
        (line + count) as usize
    }
}

/// A token without a payload, read from `src` between `from` and `to`.
pub open spec fn plain_token(
    src: Seq<char>,
    from: int,
    to: int,
    kind: TokenType,
    line: usize,
) -> TokenView {
    TokenView { kind, lexeme: src.subrange(from, to), literal: None, line }
}

/// The token that ends every scan.
pub open spec fn end_of_input(line: usize) -> TokenView {
    TokenView { kind: TokenType::EOF, lexeme: Seq::empty(), literal: None, line }
}

/// The diagnostic for a character that begins no lexical unit.
pub open spec fn unexpected_character(line: usize, c: char) -> Seq<char> {
    "[line "@ + decimal(line as nat) + "] Error: Unexpected character: "@ + seq![c]
}

/// The diagnostic for a string literal that the source ends in.
pub open spec fn unterminated_string(line: usize) -> Seq<char> {
    "[line "@ + decimal(line as nat) + "] Error: Unterminated string."@
}

/// One step of the scanner: how many characters it takes beyond the first,
/// the line counter after it, and the token or the diagnostic it yields.
pub struct Lexed {
    pub extra: nat,
    pub line: usize,
    pub token: Option<TokenView>,
    pub error: Option<Seq<char>>,
}

/// The lexical unit that begins at position `pos` of `src`, a position
/// inside the source, with the line counter at `line`.
pub open spec fn lex(src: Seq<char>, pos: int, line: usize) -> Lexed {
    let c = src[pos];
    let followed = pos + 1 < src.len() && src[pos + 1] == '=';
    if lone(c) is Some {
        Lexed {
            extra: 0,
            line,
            token: Some(plain_token(src, pos, pos + 1, lone(c)->0, line)),
            error: None,
        }
    } else if paired(c, followed) is Some {
        let extra = if followed {
            1nat
        } else {
            0nat
        };
        Lexed {
            extra,
            line,
            token: Some(plain_token(src, pos, pos + 1 + extra, paired(c, followed)->0, line)),
            error: None,
        }
    } else if c == '/' {
        if pos + 1 < src.len() && src[pos + 1] == '/' {
            Lexed { extra: 1 + run(src, '\n', pos + 2), line, token: None, error: None }
        } else {
            Lexed {
                extra: 0,
                line,
                token: Some(plain_token(src, pos, pos + 1, TokenType::SLASH, line)),
                error: None,
            }
        }
    } else if c == ' ' || c == '\r' || c == '\t' {
        Lexed { extra: 0, line, token: None, error: None }
    } else if c == '\n' {
        Lexed { extra: 0, line: line_after(line, 1), token: None, error: None }
    } else if c == '"' {
        let body = run(src, '"', pos + 1);
        let close = pos + 1 + body;
        let ended = line_after(line, newlines(src, pos + 1, close));
        if close < src.len() {
            Lexed {
                extra: body + 1,
                line: ended,
                token: Some(
                    TokenView {
                        kind: TokenType::STRING,
                        lexeme: src.subrange(pos, close + 1),
                        literal: Some(LiteralView::Text(src.subrange(pos + 1, close))),
                        line: ended,
                    },
                ),
                error: None,
            }
        } else {
            Lexed { extra: body, line: ended, token: None, error: Some(unterminated_string(ended)) }
        }
    } else {
        Lexed { extra: 0, line, token: None, error: Some(unexpected_character(line, c)) }
    }
}

/// A run ends inside the source, at a `stop` or at the end, and holds no `stop`.
pub proof fn run_ends_at_stop(src: Seq<char>, stop: char, from: int)
    requires
        0 <= from <= src.len(),
    ensures
        from + run(src, stop, from) <= src.len(),
        from + run(src, stop, from) < src.len() ==> src[from + run(src, stop, from)] == stop,
        forall|k: int| from <= k < from + run(src, stop, from) ==> src[k] != stop,
    decreases src.len() - from,
{
    if from < src.len() && src[from] != stop {
        run_ends_at_stop(src, stop, from + 1);
    }
}

/// A lexical unit ends inside the source.
pub proof fn lex_ends_inside(src: Seq<char>, pos: int, line: usize)
    requires
        0 <= pos < src.len(),
    ensures
        pos + 1 + lex(src, pos, line).extra <= src.len(),
{
    if pos + 1 < src.len() {
        run_ends_at_stop(src, '\n', pos + 2);
    }
    run_ends_at_stop(src, '"', pos + 1);
}

/// What a scan yields: the tokens and the diagnostics, each in source order.
pub struct Scan {
    pub tokens: Seq<TokenView>,
    pub errors: Seq<Seq<char>>,
}

/// The scan of `src` from position `pos` on, with the line counter at
/// `line`: one lexical unit after the other, then the end-of-input token.
pub open spec fn scan_from(src: Seq<char>, pos: int, line: usize) -> Scan
    decreases src.len() - pos,
{
    if 0 <= pos < src.len() {
        let step = lex(src, pos, line);
        proof {
            lex_ends_inside(src, pos, line);
        }
        let rest = scan_from(src, pos + 1 + step.extra, step.line);
        Scan {
            tokens: optional(step.token) + rest.tokens,
            errors: optional(step.error) + rest.errors,
        }
    } else {
        Scan { tokens: seq![end_of_input(line)], errors: Seq::empty() }
    }
}

/// The scan of a whole source text. Lines are counted from 1.
pub open spec fn scan(src: Seq<char>) -> Scan {
    scan_from(src, 0, 1)
}

/// A scanner over one source text. `current` counts the characters read,
/// `start` is where the lexical unit at hand began, and `line` is the line
/// that `current` stands on.
pub struct Scanner {
    pub source: String,
    pub tokens: Vec<Token>,
    pub errors: Vec<String>,
    pub start: usize,
    pub current: usize,
    pub line: usize,
}

impl Scanner {
    /// A scanner at the start of `source`, on line 1.
    pub fn new(source: String) -> (r: Self)
        ensures
            r.source == source,
            r.tokens@ == Seq::<Token>::empty(),
            r.errors@ == Seq::<String>::empty(),
            r.start == 0,
            r.current == 0,
            r.line == 1,
    {
        Scanner { source, tokens: Vec::new(), errors: Vec::new(), start: 0, current: 0, line: 1 }
    }

    /// Scans what is left of the source, then appends the end-of-input token.
    pub fn scan_tokens(&mut self)
        ensures
            final(self).source == old(self).source,
            final(self).current >= final(self).source@.len(),
            final(self).tokens@.len() > 0,
            final(self).tokens@.last()@ == end_of_input(final(self).line),
            token_views(final(self).tokens@) == token_views(old(self).tokens@) + scan_from(
                old(self).source@,
                old(self).current as int,
                old(self).line,
            ).tokens,
            string_views(final(self).errors@) == string_views(old(self).errors@) + scan_from(
                old(self).source@,
                old(self).current as int,
                old(self).line,
            ).errors,
            old(self).tokens@.len() == 0 && old(self).errors@.len() == 0 ==> token_views(
                final(self).tokens@,
            ) == scan_from(old(self).source@, old(self).current as int, old(self).line).tokens
                && string_views(final(self).errors@) == scan_from(
                old(self).source@,
                old(self).current as int,
                old(self).line,
            ).errors,
    {
        let ghost src = self.source@;
        let ghost whole = scan_from(src, self.current as int, self.line);
        while !self.is_at_end()
            invariant
                self.source == old(self).source,
                src == self.source@,
                whole == scan_from(src, old(self).current as int, old(self).line),
                token_views(old(self).tokens@) + whole.tokens == token_views(self.tokens@)
                    + scan_from(src, self.current as int, self.line).tokens,
                string_views(old(self).errors@) + whole.errors == string_views(self.errors@)
                    + scan_from(src, self.current as int, self.line).errors,
            decreases src.len() - self.current,
        {
            let ghost before = *self;
            self.start = self.current;
            self.scan_token();
            proof {
                let step = lex(src, before.current as int, before.line);
                let rest = scan_from(src, self.current as int, self.line);
                assert(token_views(self.tokens@) + rest.tokens =~= token_views(before.tokens@) + (
                optional(step.token) + rest.tokens));
                assert(string_views(self.errors@) + rest.errors =~= string_views(before.errors@)
                    + (optional(step.error) + rest.errors));
            }
        }
        let end = Token::new(TokenType::EOF, "".to_owned(), None, self.line);
        proof {
            reveal_strlit("");
            assert(end@ == end_of_input(self.line)) by {
                assert(end.lexeme@ =~= Seq::<char>::empty());
            }
            assert(token_views(self.tokens@.push(end)) =~= token_views(self.tokens@).push(end@));
            assert(token_views(self.tokens@).push(end@) =~= token_views(self.tokens@) + seq![
                end_of_input(self.line),
            ]);
            assert(string_views(self.errors@) + Seq::<Seq<char>>::empty() =~= string_views(
                self.errors@,
            ));
            if old(self).tokens@.len() == 0 && old(self).errors@.len() == 0 {
                assert(token_views(old(self).tokens@) + whole.tokens =~= whole.tokens);
                assert(string_views(old(self).errors@) + whole.errors =~= whole.errors);
            }
        }
        self.tokens.push(end);
    }

    /// Scans the lexical unit at the current position: it appends the token
    /// or the diagnostic that the unit yields and moves past it. At the end
    /// of the source it does nothing.
    pub fn scan_token(&mut self)
        ensures
            final(self).source == old(self).source,
            old(self).current >= old(self).source@.len() ==> *final(self) == *old(self),
            old(self).current < old(self).source@.len() ==> ({
                let step = lex(old(self).source@, old(self).current as int, old(self).line);
                &&& final(self).current <= final(self).source@.len()
                &&& final(self).start == old(self).current
                &&& final(self).current == old(self).current + 1 + step.extra
                &&& final(self).line == step.line
                &&& token_views(final(self).tokens@) == token_views(old(self).tokens@) + optional(
                    step.token,
                )
                &&& string_views(final(self).errors@) == string_views(old(self).errors@) + optional(
                    step.error,
                )
            }),
    {
        if self.is_at_end() {
            return ;
        }
        self.start = self.current;
        let ghost src = self.source@;
        let ghost pos = self.current as int;
        proof {
            lex_ends_inside(src, pos, self.line);
        }
        let c = self.advance();
        match c {
            '(' => self.add_token(TokenType::LEFTPAREN, None),
            ')' => self.add_token(TokenType::RIGHTPAREN, None),
            '{' => self.add_token(TokenType::LEFTBRACE, None),
            '}' => self.add_token(TokenType::RIGHTBRACE, None),
            ',' => self.add_token(TokenType::COMMA, None),
            '.' => self.add_token(TokenType::DOT, None),
            '-' => self.add_token(TokenType::MINUS, None),
            '+' => self.add_token(TokenType::PLUS, None),
            ';' => self.add_token(TokenType::SEMICOLON, None),
            '*' => self.add_token(TokenType::STAR, None),
            '!' => match self.operator_match('=') {
                true => self.add_token(TokenType::NOTEQUAL, None),
                false => self.add_token(TokenType::BANG, None),
            },
            '=' => match self.operator_match('=') {
                true => self.add_token(TokenType::EQUAL, None),
                false => self.add_token(TokenType::ASSIGN, None),
            },
            '<' => match self.operator_match('=') {
                true => self.add_token(TokenType::LESSEQUAL, None),
                false => self.add_token(TokenType::LESS, None),
            },
            '>' => match self.operator_match('=') {
                true => self.add_token(TokenType::GREATEREQUAL, None),
                false => self.add_token(TokenType::GREATER, None),
            },
            '/' => {
                if self.operator_match('/') {
                    while self.peek() != '\n' && !self.is_at_end()
                        invariant
                            self.source@ == src,
                            self.source == old(self).source,
                            self.tokens == old(self).tokens,
                            self.errors == old(self).errors,
                            self.line == old(self).line,
                            self.start == pos,
                            pos + 2 <= self.current <= src.len(),
                            run(src, '\n', pos + 2) == (self.current - (pos + 2)) + run(
                                src,
                                '\n',
                                self.current as int,
                            ),
                        decreases src.len() - self.current,
                    {
                        self.advance();
                    }
                    proof {
                        assert(token_views(self.tokens@) + Seq::<TokenView>::empty() =~= token_views(
                            self.tokens@,
                        ));
                        assert(string_views(self.errors@) + Seq::<Seq<char>>::empty()
                            =~= string_views(self.errors@));
                    }
                } else {
                    self.add_token(TokenType::SLASH, None)
                }
            },
            ' ' | '\r' | '\t' => {
                proof {
                    assert(token_views(self.tokens@) + Seq::<TokenView>::empty() =~= token_views(
                        self.tokens@,
                    ));
                    assert(string_views(self.errors@) + Seq::<Seq<char>>::empty() =~= string_views(
                        self.errors@,
                    ));
                }
            },
            '\n' => {
                self.next_line();
                proof {
                    assert(token_views(self.tokens@) + Seq::<TokenView>::empty() =~= token_views(
                        self.tokens@,
                    ));
                    assert(string_views(self.errors@) + Seq::<Seq<char>>::empty() =~= string_views(
                        self.errors@,
                    ));
                }
            },
            '"' => self.string(),
            _ => {
                let mut message = "[line ".to_owned();
                message.append(decimal_text(self.line).as_str());
                message.append("] Error: Unexpected character: ");
                message.append(self.source.as_str().substring_char(self.start, self.current));
                proof {
                    assert(src.subrange(pos, pos + 1) =~= seq![c]);
                    assert(message@ =~= unexpected_character(self.line, c));
                    assert(string_views(self.errors@.push(message)) =~= string_views(self.errors@)
                        + seq![message@]);
                    assert(token_views(self.tokens@) + Seq::<TokenView>::empty() =~= token_views(
                        self.tokens@,
                    ));
                }
                self.errors.push(message);
            },
        }
    }

    /// Moves the line counter to the next line.
    fn next_line(&mut self)
        ensures
            final(self).line == line_after(old(self).line, 1),
            final(self).source == old(self).source,
            final(self).tokens == old(self).tokens,
            final(self).errors == old(self).errors,
            final(self).start == old(self).start,
            final(self).current == old(self).current,
    {
        if self.line < usize::MAX {
            self.line += 1;
        }
    }

    /// Reads a string literal whose opening quote was just read.
    fn string(&mut self)
        requires
            old(self).start < old(self).source@.len(),
            old(self).current == old(self).start + 1,
            old(self).source@[old(self).start as int] == '"',
        ensures
            final(self).source == old(self).source,
            final(self).start == old(self).start,
            ({
                let step = lex(old(self).source@, old(self).start as int, old(self).line);
                &&& final(self).current == old(self).start + 1 + step.extra
                &&& final(self).line == step.line
                &&& token_views(final(self).tokens@) == token_views(old(self).tokens@) + optional(
                    step.token,
                )
                &&& string_views(final(self).errors@) == string_views(old(self).errors@) + optional(
                    step.error,
                )
            }),
    {
        let ghost src = self.source@;
        let ghost from = self.current as int;
        while self.peek() != '"' && !self.is_at_end()
            invariant
                self.source@ == src,
                self.source == old(self).source,
                self.tokens == old(self).tokens,
                self.errors == old(self).errors,
                self.start == old(self).start,
                from == old(self).start + 1,
                from <= self.current <= src.len(),
                run(src, '"', from) == (self.current - from) + run(src, '"', self.current as int),
                self.line == line_after(old(self).line, newlines(src, from, self.current as int)),
            decreases src.len() - self.current,
        {
            if self.peek() == '\n' {
                self.next_line();
            }
            self.advance();
        }

        if self.is_at_end() {
            let mut message = "[line ".to_owned();
            message.append(decimal_text(self.line).as_str());
            message.append("] Error: Unterminated string.");
            proof {
                assert(message@ =~= unterminated_string(self.line));
                assert(string_views(self.errors@.push(message)) =~= string_views(self.errors@)
                    + seq![message@]);
                assert(token_views(self.tokens@) + Seq::<TokenView>::empty() =~= token_views(
                    self.tokens@,
                ));
            }
            self.errors.push(message);
            return ;
        }
        self.advance();

        let literal = self.source.as_str().substring_char(self.start + 1, self.current - 1);
        let literal = literal.to_owned();
        proof {
            assert(string_views(self.errors@) + Seq::<Seq<char>>::empty() =~= string_views(
                self.errors@,
            ));
        }
        self.add_token(TokenType::STRING, Some(TokenLiteral::String(literal)));
    }

    /// Takes the next character when it is the expected one.
    fn operator_match(&mut self, expected: char) -> (r: bool)
        ensures
            r == (old(self).current < old(self).source@.len() && old(self).source@[old(
                self,
            ).current as int] == expected),
            final(self).current == if r {
                old(self).current + 1
            } else {
                old(self).current as int
            },
            final(self).source == old(self).source,
            final(self).tokens == old(self).tokens,
            final(self).errors == old(self).errors,
            final(self).start == old(self).start,
            final(self).line == old(self).line,
    {
        if self.is_at_end() {
            return false;
        }
        if self.source.as_str().get_char(self.current) != expected {
            return false;
        }
        self.current += 1;
        true
    }

    /// The next character, or NUL at the end of the source.
    fn peek(&self) -> (c: char)
        ensures
            c == if self.current < self.source@.len() {
                self.source@[self.current as int]
            } else {
                '\0'
            },
    {
        if self.is_at_end() {
            '\0'
        } else {
            self.source.as_str().get_char(self.current)
        }
    }

    /// Takes the next character.
    fn advance(&mut self) -> (c: char)
        requires
            old(self).current < old(self).source@.len() <= usize::MAX,
        ensures
            c == old(self).source@[old(self).current as int],
            final(self).current == old(self).current + 1,
            final(self).source == old(self).source,
            final(self).tokens == old(self).tokens,
            final(self).errors == old(self).errors,
            final(self).start == old(self).start,
            final(self).line == old(self).line,
    {
        let c = self.source.as_str().get_char(self.current);
        self.current += 1;
        c
    }

    /// Appends a token whose lexeme is the source between `start` and
    /// `current`.
    fn add_token(&mut self, token_type: TokenType, literal: Option<TokenLiteral>)
        requires
            old(self).start <= old(self).current <= old(self).source@.len(),
        ensures
            final(self).source == old(self).source,
            final(self).errors == old(self).errors,
            final(self).start == old(self).start,
            final(self).current == old(self).current,
            final(self).line == old(self).line,
            token_views(final(self).tokens@) == token_views(old(self).tokens@) + seq![
                TokenView {
                    kind: token_type,
                    lexeme: old(self).source@.subrange(
                        old(self).start as int,
                        old(self).current as int,
                    ),
                    literal: match literal {
                        Some(l) => Some(l@),
                        None => None,
                    },
                    line: old(self).line,
                },
            ],
    {
        let text = self.source.as_str().substring_char(self.start, self.current);
        let token = Token::new(token_type, text.to_owned(), literal, self.line);
        proof {
            assert(token_views(self.tokens@.push(token)) =~= token_views(self.tokens@) + seq![
                token@,
            ]);
        }
        self.tokens.push(token);
    }

    /// Whether every character of the source has been read.
    pub fn is_at_end(&self) -> (r: bool)
        ensures
            r == (self.current >= self.source@.len()),
            self.source@.len() <= usize::MAX,
    {
        self.current >= self.source.as_str().unicode_len()
    }
}

} // verus!

verus! {

/// A scan ends in the end-of-input token, and holds no other token of that
/// kind.
pub proof fn scan_ends_in_end_of_input(src: Seq<char>, pos: int, line: usize)
    ensures
        ({
            let tokens = scan_from(src, pos, line).tokens;
            &&& tokens.len() > 0
            &&& tokens.last() == end_of_input(tokens.last().line)
            &&& forall|i: int| 0 <= i < tokens.len() - 1 ==> (#[trigger] tokens[i]).kind != TokenType::EOF
        }),
    decreases src.len() - pos,
{
    if 0 <= pos < src.len() {
        let step = lex(src, pos, line);
        lex_ends_inside(src, pos, line);
        scan_ends_in_end_of_input(src, pos + 1 + step.extra, step.line);
    }
}

/// A string literal that the source ends in yields one diagnostic and no
/// token: from its opening quote on, the scan holds the diagnostic and the
/// end-of-input token and nothing else, both on the line of the last
/// character.
pub proof fn unterminated_string_is_one_error(src: Seq<char>, pos: int, line: usize)
    requires
        0 <= pos < src.len(),
        src[pos] == '"',
        forall|k: int| pos < k < src.len() ==> src[k] != '"',
    ensures
        ({
            let ended = line_after(line, newlines(src, pos + 1, src.len() as int));
            &&& lex(src, pos, line).token is None
            &&& lex(src, pos, line).error == Some(unterminated_string(ended))
            &&& scan_from(src, pos, line) == Scan {
                tokens: seq![end_of_input(ended)],
                errors: seq![unterminated_string(ended)],
            }
        }),
{
    run_ends_at_stop(src, '"', pos + 1);
    let step = lex(src, pos, line);
    let rest = scan_from(src, pos + 1 + step.extra, step.line);
    assert(pos + 1 + step.extra == src.len());
    assert(optional(step.token) + rest.tokens =~= rest.tokens);
    assert(optional(step.error) + rest.errors =~= seq![step.error->0]);
}

} // verus!

verus! {

/// Newlines are counted piece by piece: the count over a stretch is the sum
/// of the counts over its two parts.
pub proof fn newlines_add_up(src: Seq<char>, from: int, mid: int, to: int)
    requires
        from <= mid <= to,
    ensures
        newlines(src, from, to) == newlines(src, from, mid) + newlines(src, mid, to),
    decreases to - mid,
{
    if mid < to {
        newlines_add_up(src, from, mid, to - 1);
    }
}

/// A stretch without a newline counts as none.
proof fn lemma_no_newlines(src: Seq<char>, from: int, to: int)
    requires
        forall|k: int| from <= k < to ==> src[k] != '\n',
    ensures
        newlines(src, from, to) == 0,
    decreases to - from,
{
    if from < to {
        lemma_no_newlines(src, from, to - 1);
    }
}

/// The lexeme of a token is the exact slice of the source that the scanner
/// took for it, and the line counter moves by the newlines in what it took.
pub proof fn lex_takes_a_slice(src: Seq<char>, pos: int, line: usize)
    requires
        0 <= pos < src.len(),
    ensures
        ({
            let step = lex(src, pos, line);
            &&& pos + 1 + step.extra <= src.len()
            &&& step.token is Some ==> step.token->0.lexeme == src.subrange(
                pos,
                pos + 1 + step.extra,
            ) && step.token->0.line == step.line
            &&& step.line == line_after(line, newlines(src, pos, pos + 1 + step.extra))
            &&& !(step.token is Some && step.error is Some)
        }),
{
    let step = lex(src, pos, line);
    let end = pos + 1 + step.extra;
    lex_ends_inside(src, pos, line);
    let c = src[pos];
    assert(newlines(src, pos, pos + 1) == if c == '\n' {
        1nat
    } else {
        0nat
    }) by {
        assert(newlines(src, pos, pos) == 0);
    }
    newlines_add_up(src, pos, pos + 1, end);
    let followed = pos + 1 < src.len() && src[pos + 1] == '=';
    if lone(c) is Some {
    } else if paired(c, followed) is Some {
        lemma_no_newlines(src, pos + 1, end);
    } else if c == '/' {
        if pos + 1 < src.len() && src[pos + 1] == '/' {
            run_ends_at_stop(src, '\n', pos + 2);
            lemma_no_newlines(src, pos + 1, end);
        }
    } else if c == '"' {
        run_ends_at_stop(src, '"', pos + 1);
        let close = pos + 1 + run(src, '"', pos + 1);
        if close < src.len() {
            newlines_add_up(src, pos + 1, close, end);
            lemma_no_newlines(src, close, end);
        }
    }
}

/// The line counter after two stretches is the counter after the second,
/// begun where the first left it.
proof fn lemma_line_after_twice(line: usize, a: nat, b: nat)
    ensures
        line_after(line_after(line, a), b) == line_after(line, a + b),
{
}

/// The end-of-input token stands on the line that the source ends on: the
/// line the scan began on, moved by every newline from there to the end.
pub proof fn scan_counts_lines(src: Seq<char>, pos: int, line: usize)
    requires
        0 <= pos <= src.len(),
    ensures
        scan_from(src, pos, line).tokens.last() == end_of_input(
            line_after(line, newlines(src, pos, src.len() as int)),
        ),
    decreases src.len() - pos,
{
    if pos < src.len() {
        let step = lex(src, pos, line);
        let next = pos + 1 + step.extra;
        lex_takes_a_slice(src, pos, line);
        scan_counts_lines(src, next, step.line);
        scan_ends_in_end_of_input(src, next, step.line);
        newlines_add_up(src, pos, next, src.len() as int);
        lemma_line_after_twice(line, newlines(src, pos, next), newlines(src, next, src.len() as int));
        let rest = scan_from(src, next, step.line);
        assert((optional(step.token) + rest.tokens).last() == rest.tokens.last());
    }
}

} // verus!
