//! The lexer: from the characters of a program text to its tokens, one at a
//! time.
use vstd::prelude::*;
use char_stream::CharStream;
use crate::text::digits_value;
use crate::text::is_digit;

verus! {

/// The stream of characters that the lexer reads from.
#[verifier::external_type_specification]
#[verifier::external_body]
pub struct ExCharStream(char_stream::CharStream);

/// The characters that a stream has not handed out yet.
pub uninterp spec fn stream_rest(stream: CharStream) -> Seq<char>;

/// Whether a stream holds its characters in memory, that is, reads neither a
/// file nor the standard input.
pub uninterp spec fn stream_in_memory(stream: CharStream) -> bool;

/// `CharStream::from_string`: the stream that holds the characters of `input`
/// in memory and has handed out none of them.
#[verifier::external_body]
fn stream_from_string(input: String) -> (stream: CharStream)
    ensures
        stream_in_memory(stream),
        stream_rest(stream) == input@,
{
    CharStream::from_string(input)
}

/// `CharStream::peek`: the next character of a stream in memory, if there is
/// one; the stream is left as it was.
#[verifier::external_body]
fn stream_peek(stream: &mut CharStream) -> (next: Option<char>)
    requires
        stream_in_memory(*old(stream)),
    ensures
        stream_in_memory(*final(stream)),
        stream_rest(*final(stream)) == stream_rest(*old(stream)),
        next == if stream_rest(*old(stream)).len() > 0 {
            Some(stream_rest(*old(stream))[0])
        } else {
            None
        },
{
    stream.peek()
}

/// `CharStream::next`: the next character of a stream in memory, if there is
/// one, which the stream has then handed out.
#[verifier::external_body]
fn stream_next(stream: &mut CharStream) -> (next: Option<char>)
    requires
        stream_in_memory(*old(stream)),
    ensures
        stream_in_memory(*final(stream)),
        stream_rest(*final(stream)) == if stream_rest(*old(stream)).len() > 0 {
            stream_rest(*old(stream)).drop_first()
        } else {
            stream_rest(*old(stream))
        },
        next == if stream_rest(*old(stream)).len() > 0 {
            Some(stream_rest(*old(stream))[0])
        } else {
            None
        },
{
    stream.next()
}

/// What is wrong with a program text.
#[derive(Debug, Clone, Copy, PartialEq, Eq, Structural)]
pub enum SyntaxError {
    /// A character that starts no token, or a `=` or `!` that no `=` follows.
    BadChar,
    /// A number that does not fit a cell.
    BadNumber,
    /// A token where the grammar has no place for it.
    BadToken,
}

#[derive(Debug, PartialEq, Eq)]
pub enum Token {
    TokIden(String),
    TokInt(i64),
    TokFunc,
    TokLabel,
    TokIf,
    TokGoto,
    TokReturn,
    TokDec,
    TokArg,
    TokCall,
    TokParam,
    TokRead,
    TokWrite,
    TokColon,
    TokLT,
    TokLE,
    TokGT,
    TokGE,
    TokEQ,
    TokNE,
    TokSharp,
    TokAssign,
    TokAdd,
    TokSub,
    TokStar,
    TokDiv,
    TokAmp,
    TokEOF,
}

/// What a token stands for.
pub enum TokenView {
    TokIden(Seq<char>),
    TokInt(i64),
    TokFunc,
    TokLabel,
    TokIf,
    TokGoto,
    TokReturn,
    TokDec,
    TokArg,
    TokCall,
    TokParam,
    TokRead,
    TokWrite,
    TokColon,
    TokLT,
    TokLE,
    TokGT,
    TokGE,
    TokEQ,
    TokNE,
    TokSharp,
    TokAssign,
    TokAdd,
    TokSub,
    TokStar,
    TokDiv,
    TokAmp,
    TokEOF,
}

impl View for Token {
    type V = TokenView;

    open spec fn view(&self) -> TokenView {
        match *self {
            Token::TokIden(name) => TokenView::TokIden(name@),
            Token::TokInt(i) => TokenView::TokInt(i),
            Token::TokFunc => TokenView::TokFunc,
            Token::TokLabel => TokenView::TokLabel,
            Token::TokIf => TokenView::TokIf,
            Token::TokGoto => TokenView::TokGoto,
            Token::TokReturn => TokenView::TokReturn,
            Token::TokDec => TokenView::TokDec,
            Token::TokArg => TokenView::TokArg,
            Token::TokCall => TokenView::TokCall,
            Token::TokParam => TokenView::TokParam,
            Token::TokRead => TokenView::TokRead,
            Token::TokWrite => TokenView::TokWrite,
            Token::TokColon => TokenView::TokColon,
            Token::TokLT => TokenView::TokLT,
            Token::TokLE => TokenView::TokLE,
            Token::TokGT => TokenView::TokGT,
            Token::TokGE => TokenView::TokGE,
            Token::TokEQ => TokenView::TokEQ,
            Token::TokNE => TokenView::TokNE,
            Token::TokSharp => TokenView::TokSharp,
            Token::TokAssign => TokenView::TokAssign,
            Token::TokAdd => TokenView::TokAdd,
            Token::TokSub => TokenView::TokSub,
            Token::TokStar => TokenView::TokStar,
            Token::TokDiv => TokenView::TokDiv,
            Token::TokAmp => TokenView::TokAmp,
            Token::TokEOF => TokenView::TokEOF,
        }
    }
}

impl Clone for Token {
    fn clone(&self) -> (copy: Token)
        ensures
            copy == *self,
    {
        match self {
            Token::TokIden(name) => Token::TokIden(name.clone()),
            Token::TokInt(i) => Token::TokInt(*i),
            Token::TokFunc => Token::TokFunc,
            Token::TokLabel => Token::TokLabel,
            Token::TokIf => Token::TokIf,
            Token::TokGoto => Token::TokGoto,
            Token::TokReturn => Token::TokReturn,
            Token::TokDec => Token::TokDec,
            Token::TokArg => Token::TokArg,
            Token::TokCall => Token::TokCall,
            Token::TokParam => Token::TokParam,
            Token::TokRead => Token::TokRead,
            Token::TokWrite => Token::TokWrite,
            Token::TokColon => Token::TokColon,
            Token::TokLT => Token::TokLT,
            Token::TokLE => Token::TokLE,
            Token::TokGT => Token::TokGT,
            Token::TokGE => Token::TokGE,
            Token::TokEQ => Token::TokEQ,
            Token::TokNE => Token::TokNE,
            Token::TokSharp => Token::TokSharp,
            Token::TokAssign => Token::TokAssign,
            Token::TokAdd => Token::TokAdd,
            Token::TokSub => Token::TokSub,
            Token::TokStar => Token::TokStar,
            Token::TokDiv => Token::TokDiv,
            Token::TokAmp => Token::TokAmp,
            Token::TokEOF => Token::TokEOF,
        }
    }
}

/// Whether `c` separates tokens: a space, a tab, a line feed or a carriage
/// return.
pub open spec fn is_blank(c: char) -> bool {
    c == ' ' || c == '\t' || c == '\n' || c == '\r'
}

/// Whether `c` can start a name: a letter of the Latin alphabet or `_`.
pub open spec fn is_name_start(c: char) -> bool {
    ('a' <= c <= 'z') || ('A' <= c <= 'Z') || c == '_'
}

/// Whether `c` can stand in a name: a letter of the Latin alphabet, a decimal
/// digit or `_`.
pub open spec fn is_name_char(c: char) -> bool {
    is_name_start(c) || is_digit(c)
}

/// `s` without the blanks at its start.
pub open spec fn skip_blanks(s: Seq<char>) -> Seq<char>
    decreases s.len(),
{
    if s.len() > 0 && is_blank(s.first()) {
        skip_blanks(s.drop_first())
    } else {
        s
    }
}

/// The length of the longest prefix of `s` that holds decimal digits only.
pub open spec fn digits_len(s: Seq<char>) -> nat
    decreases s.len(),
{
    if s.len() > 0 && is_digit(s.first()) {
        1 + digits_len(s.drop_first())
    } else {
        0
    }
}

/// The length of the longest prefix of `s` that holds characters of names
/// only.
pub open spec fn name_len(s: Seq<char>) -> nat
    decreases s.len(),
{
    if s.len() > 0 && is_name_char(s.first()) {
        1 + name_len(s.drop_first())
    } else {
        0
    }
}

/// The token that the word `name` is: a keyword, or else a name.
pub open spec fn word_token(name: Seq<char>) -> TokenView {
    if name == "FUNCTION"@ {
        TokenView::TokFunc
    } else if name == "LABEL"@ {
        TokenView::TokLabel
    } else if name == "IF"@ {
        TokenView::TokIf
    } else if name == "GOTO"@ {
        TokenView::TokGoto
    } else if name == "RETURN"@ {
        TokenView::TokReturn
    } else if name == "DEC"@ {
        TokenView::TokDec
    } else if name == "ARG"@ {
        TokenView::TokArg
    } else if name == "CALL"@ {
        TokenView::TokCall
    } else if name == "PARAM"@ {
        TokenView::TokParam
    } else if name == "READ"@ {
        TokenView::TokRead
    } else if name == "WRITE"@ {
        TokenView::TokWrite
    } else {
        TokenView::TokIden(name)
    }
}

/// A token read, or what was wrong, and the characters that are left.
pub struct Scan {
    pub token: Result<TokenView, SyntaxError>,
    pub rest: Seq<char>,
}

/// The token that one or two characters at the start of `t` make, where its
/// first character is neither a digit nor the start of a name.
pub open spec fn scan_sign(t: Seq<char>) -> Scan
    recommends
        t.len() > 0,
{
    let c = t[0];
    let pair = t.len() > 1 && t[1] == '=';
    if c == '#' {
        Scan { token: Ok(TokenView::TokSharp), rest: t.skip(1) }
    } else if c == '+' {
        Scan { token: Ok(TokenView::TokAdd), rest: t.skip(1) }
    } else if c == '-' {
        Scan { token: Ok(TokenView::TokSub), rest: t.skip(1) }
    } else if c == '*' {
        Scan { token: Ok(TokenView::TokStar), rest: t.skip(1) }
    } else if c == '/' {
        Scan { token: Ok(TokenView::TokDiv), rest: t.skip(1) }
    } else if c == '&' {
        Scan { token: Ok(TokenView::TokAmp), rest: t.skip(1) }
    } else if c == '=' {
        if pair {
            Scan { token: Ok(TokenView::TokEQ), rest: t.skip(2) }
        } else {
            Scan { token: Err(SyntaxError::BadChar), rest: t.skip(1) }
        }
    } else if c == '!' {
        if pair {
            Scan { token: Ok(TokenView::TokNE), rest: t.skip(2) }
        } else {
            Scan { token: Err(SyntaxError::BadChar), rest: t.skip(1) }
        }
    } else if c == '<' {
        if pair {
            Scan { token: Ok(TokenView::TokLE), rest: t.skip(2) }
        } else {
            Scan { token: Ok(TokenView::TokLT), rest: t.skip(1) }
        }
    } else if c == '>' {
        if pair {
            Scan { token: Ok(TokenView::TokGE), rest: t.skip(2) }
        } else {
            Scan { token: Ok(TokenView::TokGT), rest: t.skip(1) }
        }
    } else if c == ':' {
        if pair {
            Scan { token: Ok(TokenView::TokAssign), rest: t.skip(2) }
        } else {
            Scan { token: Ok(TokenView::TokColon), rest: t.skip(1) }
        }
    } else {
        Scan { token: Err(SyntaxError::BadChar), rest: t }
    }
}

/// The number at the start of `t`: its longest prefix of digits, which must
/// write a number that fits a cell.
pub open spec fn scan_number(t: Seq<char>) -> Scan {
    let n = digits_len(t) as int;
    let value = digits_value(t.take(n));
    Scan {
        token: if value <= i64::MAX {
            Ok(TokenView::TokInt(value as i64))
        } else {
            Err(SyntaxError::BadNumber)
        },
        rest: t.skip(n),
    }
}

/// The word at the start of `t`: its longest prefix of characters of names.
pub open spec fn scan_word(t: Seq<char>) -> Scan {
    let n = name_len(t) as int;
    Scan { token: Ok(word_token(t.take(n))), rest: t.skip(n) }
}

/// The first token of `s`, after blanks, and the characters after it. Where
/// nothing but blanks is left, the token is the end of the text.
pub open spec fn scan(s: Seq<char>) -> Scan {
    let t = skip_blanks(s);
    if t.len() == 0 {
        Scan { token: Ok(TokenView::TokEOF), rest: t }
    } else if is_digit(t[0]) {
        scan_number(t)
    } else if is_name_start(t[0]) {
        scan_word(t)
    } else {
        scan_sign(t)
    }
}

/// Skipping blanks makes a text no longer.
pub proof fn lemma_skip_blanks_len(s: Seq<char>)
    ensures
        skip_blanks(s).len() <= s.len(),
    decreases s.len(),
{
    if s.len() > 0 && is_blank(s.first()) {
        lemma_skip_blanks_len(s.drop_first());
    }
}

/// A prefix of digits, and one of characters of names, is no longer than the
/// text.
pub proof fn lemma_prefix_len(s: Seq<char>)
    ensures
        digits_len(s) <= s.len(),
        name_len(s) <= s.len(),
    decreases s.len(),
{
    if s.len() > 0 {
        lemma_prefix_len(s.drop_first());
    }
}

/// Reading a token makes the text no longer, and shorter unless the token is
/// the end of the text.
pub proof fn lemma_scan_shrinks(s: Seq<char>)
    ensures
        scan(s).rest.len() <= s.len(),
        scan(s).token is Ok && scan(s).token != Ok::<TokenView, SyntaxError>(TokenView::TokEOF)
            ==> scan(s).rest.len() < s.len(),
{
    lemma_skip_blanks_len(s);
    lemma_prefix_len(skip_blanks(s));
}

/// The lexer: a stream of characters and the token that was read last from
/// it and not taken yet.
#[derive(Debug)]
pub struct Lexer {
    char_stream: CharStream,
    curr: Token,
}

/// What a lexer stands for: the token that is next to be taken, and the
/// characters after it.
pub struct LexerView {
    pub curr: TokenView,
    pub rest: Seq<char>,
}

impl LexerView {
    /// The number of characters that are left, and one more unless the token
    /// that is next is the end of the text: a measure of what is left to take.
    pub open spec fn weight(self) -> nat {
        self.rest.len() + if self.curr is TokEOF {
            0nat
        } else {
            1nat
        }
    }
}

impl View for Lexer {
    type V = LexerView;

    closed spec fn view(&self) -> LexerView {
        LexerView { curr: self.curr@, rest: stream_rest(self.char_stream) }
    }
}

/// Whether `name` is the word `word`.
fn is_word(name: &String, word: &str) -> (same: bool)
    ensures
        same == (name@ == word@),
{
    let owned = word.to_owned();
    *name == owned
}

impl Lexer {
    /// Whether the lexer reads from memory. Every lexer that `from` makes does,
    /// and goes on to.
    pub closed spec fn wf(&self) -> bool {
        stream_in_memory(self.char_stream)
    }

    /// The lexer of the text `input`, with the first token of the text read.
    pub fn from(input: String) -> (made: Result<Lexer, SyntaxError>)
        ensures
            match scan(input@).token {
                Ok(token) => made is Ok && made->Ok_0.wf() && made->Ok_0@ == (LexerView {
                    curr: token,
                    rest: scan(input@).rest,
                }),
                Err(error) => made is Err && made->Err_0 == error,
            },
    {
        let mut lexer = Lexer { char_stream: stream_from_string(input), curr: Token::TokEOF };
        match lexer.consume() {
            Ok(_) => Ok(lexer),
            Err(error) => Err(error),
        }
    }

    /// Takes the token that is next and reads the one after it. Where that one
    /// cannot be read, no token is taken; the characters that were read are
    /// gone.
    pub fn consume(&mut self) -> (taken: Result<Token, SyntaxError>)
        requires
            old(self).wf(),
        ensures
            final(self).wf(),
            final(self)@.rest == scan(old(self)@.rest).rest,
            taken is Ok ==> final(self)@.weight() <= old(self)@.rest.len(),
            match scan(old(self)@.rest).token {
                Ok(token) => taken is Ok && taken->Ok_0@ == old(self)@.curr && final(self)@.curr
                    == token,
                Err(error) => taken is Err && taken->Err_0 == error && final(self)@.curr == old(self)@.curr,
            },
    {
        proof {
            lemma_scan_shrinks(self@.rest);
        }
        let result = self.curr.clone();
        self.skip_blanks();
        let token = match stream_peek(&mut self.char_stream) {
            None => Ok(Token::TokEOF),
            Some(c) => {
                if '0' <= c && c <= '9' {
                    self.lex_int()
                } else if ('a' <= c && c <= 'z') || ('A' <= c && c <= 'Z') || c == '_' {
                    Ok(self.lex_iden())
                } else {
                    self.lex_sign()
                }
            },
        };
        match token {
            Ok(token) => {
                self.curr = token;
                Ok(result)
            },
            Err(error) => Err(error),
        }
    }

    /// The token that is next, which stays next.
    pub fn peek(&mut self) -> (token: Token)
        requires
            old(self).wf(),
        ensures
            final(self).wf(),
            final(self)@ == old(self)@,
            token@ == old(self)@.curr,
    {
        self.curr.clone()
    }

    /// Reads the blanks at the start of the stream.
    fn skip_blanks(&mut self)
        requires
            old(self).wf(),
        ensures
            final(self).wf(),
            final(self)@.curr == old(self)@.curr,
            final(self)@.rest == skip_blanks(old(self)@.rest),
    {
        loop
            invariant
                self.wf(),
                self.curr == old(self).curr,
                skip_blanks(stream_rest(self.char_stream)) == skip_blanks(old(self)@.rest),
            ensures
                self.wf(),
                self.curr == old(self).curr,
                stream_rest(self.char_stream) == skip_blanks(old(self)@.rest),
            decreases stream_rest(self.char_stream).len(),
        {
            match stream_peek(&mut self.char_stream) {
                Some(c) => {
                    if c == ' ' || c == '\t' || c == '\n' || c == '\r' {
                        let _ = stream_next(&mut self.char_stream);
                    } else {
                        break ;
                    }
                },
                None => {
                    break ;
                },
            }
        }
    }

    /// Reads a token that starts with neither a digit nor a letter.
    fn lex_sign(&mut self) -> (token: Result<Token, SyntaxError>)
        requires
            old(self).wf(),
            old(self)@.rest.len() > 0,
        ensures
            final(self).wf(),
            final(self)@.curr == old(self)@.curr,
            final(self)@.rest == scan_sign(old(self)@.rest).rest,
            match scan_sign(old(self)@.rest).token {
                Ok(view) => token is Ok && token->Ok_0@ == view,
                Err(error) => token is Err && token->Err_0 == error,
            },
    {
        let ghost t = self@.rest;
        let c = match stream_peek(&mut self.char_stream) {
            Some(c) => c,
            None => {
                return Err(SyntaxError::BadChar);
            },
        };
        let single = if c == '#' {
            Some(Token::TokSharp)
        } else if c == '+' {
            Some(Token::TokAdd)
        } else if c == '-' {
            Some(Token::TokSub)
        } else if c == '*' {
            Some(Token::TokStar)
        } else if c == '/' {
            Some(Token::TokDiv)
        } else if c == '&' {
            Some(Token::TokAmp)
        } else {
            None
        };
        match single {
            Some(token) => {
                let _ = stream_next(&mut self.char_stream);
                assert(t.drop_first() =~= t.skip(1));
                return Ok(token);
            },
            None => {},
        }
        if !(c == '=' || c == '!' || c == '<' || c == '>' || c == ':') {
            return Err(SyntaxError::BadChar);
        }
        let _ = stream_next(&mut self.char_stream);
        assert(t.drop_first() =~= t.skip(1));
        let pair = match stream_peek(&mut self.char_stream) {
            Some(d) => d == '=',
            None => false,
        };
        if pair {
            let _ = stream_next(&mut self.char_stream);
            assert(t.skip(1).drop_first() =~= t.skip(2));
        }
        if c == '=' {
            if pair {
                Ok(Token::TokEQ)
            } else {
                Err(SyntaxError::BadChar)
            }
        } else if c == '!' {
            if pair {
                Ok(Token::TokNE)
            } else {
                Err(SyntaxError::BadChar)
            }
        } else if c == '<' {
            if pair {
                Ok(Token::TokLE)
            } else {
                Ok(Token::TokLT)
            }
        } else if c == '>' {
            if pair {
                Ok(Token::TokGE)
            } else {
                Ok(Token::TokGT)
            }
        } else {
            if pair {
                Ok(Token::TokAssign)
            } else {
                Ok(Token::TokColon)
            }
        }
    }

    /// Reads a number.
    fn lex_int(&mut self) -> (token: Result<Token, SyntaxError>)
        requires
            old(self).wf(),
        ensures
            final(self).wf(),
            final(self)@.curr == old(self)@.curr,
            final(self)@.rest == scan_number(old(self)@.rest).rest,
            match scan_number(old(self)@.rest).token {
                Ok(view) => token is Ok && token->Ok_0@ == view,
                Err(error) => token is Err && token->Err_0 == error,
            },
    {
        let ghost t = self@.rest;
        let ghost mut n: int = 0;
        let mut number: Option<i64> = Some(0);
        assert(t.skip(0) =~= t);
        assert(t.take(0) =~= Seq::<char>::empty());
        loop
            invariant
                self.wf(),
                self.curr == old(self).curr,
                t == old(self)@.rest,
                0 <= n <= t.len(),
                stream_rest(self.char_stream) == t.skip(n),
                digits_len(t) == n + digits_len(t.skip(n)),
                match number {
                    Some(value) => 0 <= value == digits_value(t.take(n)),
                    None => digits_value(t.take(n)) > i64::MAX,
                },
            ensures
                self.wf(),
                self.curr == old(self).curr,
                n == digits_len(t),
                stream_rest(self.char_stream) == t.skip(n),
                match number {
                    Some(value) => value == digits_value(t.take(n)),
                    None => digits_value(t.take(n)) > i64::MAX,
                },
            decreases t.len() - n,
        {
            let c = match stream_peek(&mut self.char_stream) {
                Some(c) => c,
                None => {
                    break ;
                },
            };
            if !('0' <= c && c <= '9') {
                break ;
            }
            let _ = stream_next(&mut self.char_stream);
            let digit = (c as u32 - 48) as i64;
            proof {
                assert(t.skip(n).drop_first() =~= t.skip(n + 1));
                assert(t.take(n + 1).drop_last() =~= t.take(n));
                assert(t.take(n + 1).last() == c);
                assert(digits_value(t.take(n + 1)) == digits_value(t.take(n)) * 10 + digit);
            }
            number = match number {
                Some(value) => match value.checked_mul(10) {
                    Some(tens) => tens.checked_add(digit),
                    None => None,
                },
                None => None,
            };
            proof {
                n = n + 1;
            }
        }
        match number {
            Some(value) => Ok(Token::TokInt(value)),
            None => Err(SyntaxError::BadNumber),
        }
    }

    /// Reads a word: a keyword or a name.
    fn lex_iden(&mut self) -> (token: Token)
        requires
            old(self).wf(),
        ensures
            final(self).wf(),
            final(self)@.curr == old(self)@.curr,
            final(self)@.rest == scan_word(old(self)@.rest).rest,
            token@ == scan_word(old(self)@.rest).token->Ok_0,
    {
        let ghost t = self@.rest;
        let ghost mut n: int = 0;
        let mut iden = String::new();
        assert(t.skip(0) =~= t);
        assert(t.take(0) =~= Seq::<char>::empty());
        loop
            invariant
                self.wf(),
                self.curr == old(self).curr,
                t == old(self)@.rest,
                0 <= n <= t.len(),
                stream_rest(self.char_stream) == t.skip(n),
                name_len(t) == n + name_len(t.skip(n)),
                iden@ == t.take(n),
            ensures
                self.wf(),
                self.curr == old(self).curr,
                n == name_len(t),
                stream_rest(self.char_stream) == t.skip(n),
                iden@ == t.take(n),
            decreases t.len() - n,
        {
            let c = match stream_peek(&mut self.char_stream) {
                Some(c) => c,
                None => {
                    break ;
                },
            };
            if !(('a' <= c && c <= 'z') || ('A' <= c && c <= 'Z') || c == '_' || ('0' <= c && c
                <= '9')) {
                break ;
            }
            let _ = stream_next(&mut self.char_stream);
            iden.push(c);
            proof {
                assert(t.skip(n).drop_first() =~= t.skip(n + 1));
                assert(t.take(n + 1) =~= t.take(n).push(c));
                n = n + 1;
            }
        }
        if is_word(&iden, "FUNCTION") {
            Token::TokFunc
        } else if is_word(&iden, "LABEL") {
            Token::TokLabel
        } else if is_word(&iden, "IF") {
            Token::TokIf
        } else if is_word(&iden, "GOTO") {
            Token::TokGoto
        } else if is_word(&iden, "RETURN") {
            Token::TokReturn
        } else if is_word(&iden, "DEC") {
            Token::TokDec
        } else if is_word(&iden, "ARG") {
            Token::TokArg
        } else if is_word(&iden, "CALL") {
            Token::TokCall
        } else if is_word(&iden, "PARAM") {
            Token::TokParam
        } else if is_word(&iden, "READ") {
            Token::TokRead
        } else if is_word(&iden, "WRITE") {
            Token::TokWrite
        } else {
            Token::TokIden(iden)
        }
    }
}

} // verus!
