//! The tokens of a schema file: words, quoted texts and symbols, with blank
//! space and comments dropped.

use vstd::prelude::*;
use vstd::string::*;
use crate::text::chars_of;

verus! {

/// One token of a schema file.
#[derive(Debug, Clone)]
pub enum Token {
    /// A name, a number or a keyword.
    Word(String),
    /// What stands between two quotes, escapes as they are written.
    Text(String),
    /// Any other character.
    Symbol(char),
}

/// Mathematical value of a [`Token`].
pub enum TokenView {
    Word(Seq<char>),
    Text(Seq<char>),
    Symbol(char),
}

impl View for Token {
    type V = TokenView;

    open spec fn view(&self) -> TokenView {
        match self {
            Token::Word(w) => TokenView::Word(w@),
            Token::Text(t) => TokenView::Text(t@),
            Token::Symbol(c) => TokenView::Symbol(*c),
        }
    }
}

/// A token and the position of its first character in the file.
#[derive(Debug, Clone)]
pub struct Lexeme {
    pub token: Token,
    pub offset: usize,
}

/// Mathematical value of a [`Lexeme`].
pub struct LexemeView {
    pub token: TokenView,
    pub offset: int,
}

impl View for Lexeme {
    type V = LexemeView;

    open spec fn view(&self) -> LexemeView {
        LexemeView { token: self.token@, offset: self.offset as int }
    }
}

/// Views of a list of lexemes, in order.
pub open spec fn lexemes_view(v: Seq<Lexeme>) -> Seq<LexemeView> {
    v.map_values(|l: Lexeme| l@)
}

/// Blank space: space, tabulator, line feed, carriage return.
pub open spec fn is_space(c: char) -> bool {
    c == ' ' || c == '\t' || c == '\n' || c == '\r'
}

/// The characters of words: letters, digits, underscore, dot, minus and plus.
pub open spec fn is_word_char(c: char) -> bool {
    ('a' <= c && c <= 'z') || ('A' <= c && c <= 'Z') || ('0' <= c && c <= '9') || c == '_' || c
        == '.' || c == '-' || c == '+'
}

/// The end of the word that stands at `at`: the first position from `at`
/// on that holds no character of a word.
pub open spec fn word_end(s: Seq<char>, at: int) -> int
    decreases s.len() - at,
{
    if at < 0 || at >= s.len() || !is_word_char(s[at]) {
        at
    } else {
        word_end(s, at + 1)
    }
}

/// The end of the line that `at` stands in: the position of the next line
/// feed, or the end of the text.
pub open spec fn line_end(s: Seq<char>, at: int) -> int
    decreases s.len() - at,
{
    if at < 0 || at >= s.len() || s[at] == '\n' {
        at
    } else {
        line_end(s, at + 1)
    }
}

/// The end of the comment whose text begins at `at`: the position after
/// the next `*/`, or the end of the text.
pub open spec fn comment_end(s: Seq<char>, at: int) -> int
    decreases s.len() - at,
{
    if at < 0 || at + 1 >= s.len() {
        if at < 0 {
            at
        } else {
            s.len() as int
        }
    } else if s[at] == '*' && s[at + 1] == '/' {
        at + 2
    } else {
        comment_end(s, at + 1)
    }
}

/// The position of the quote that closes the text that begins at `at`. A
/// backslash takes the character after it along. Without a closing quote
/// there is no such position.
pub open spec fn text_end(s: Seq<char>, at: int, quote: char) -> Option<int>
    decreases s.len() - at,
{
    if at < 0 || at >= s.len() {
        None
    } else if s[at] == quote {
        Some(at)
    } else if s[at] == '\\' {
        if at + 2 <= s.len() {
            text_end(s, at + 2, quote)
        } else {
            None
        }
    } else {
        text_end(s, at + 1, quote)
    }
}

/// What lexing gives: the tokens, and the position at which it stopped.
/// It stops before the end of the text only at a quote that is not closed.
pub struct Lexed {
    pub tokens: Seq<LexemeView>,
    pub stop: int,
}

/// The tokens of the text from `at` on.
pub open spec fn lex(s: Seq<char>, at: int) -> Lexed
    decreases s.len() - at,
{
    if at < 0 || at >= s.len() {
        Lexed { tokens: Seq::empty(), stop: at }
    } else if is_space(s[at]) {
        lex(s, at + 1)
    } else if s[at] == '/' && at + 1 < s.len() && s[at + 1] == '/' {
        let end = line_end(s, at + 2);
        if at < end <= s.len() {
            lex(s, end)
        } else {
            Lexed { tokens: Seq::empty(), stop: at }
        }
    } else if s[at] == '/' && at + 1 < s.len() && s[at + 1] == '*' {
        let end = comment_end(s, at + 2);
        if at < end <= s.len() {
            lex(s, end)
        } else {
            Lexed { tokens: Seq::empty(), stop: at }
        }
    } else if s[at] == '"' || s[at] == '\'' {
        match text_end(s, at + 1, s[at]) {
            Some(end) => if at < end < s.len() {
                let rest = lex(s, end + 1);
                Lexed {
                    tokens: seq![
                        LexemeView { token: TokenView::Text(s.subrange(at + 1, end)), offset: at },
                    ] + rest.tokens,
                    stop: rest.stop,
                }
            } else {
                Lexed { tokens: Seq::empty(), stop: at }
            },
            None => Lexed { tokens: Seq::empty(), stop: at },
        }
    } else if is_word_char(s[at]) {
        let end = word_end(s, at + 1);
        if at < end <= s.len() {
            let rest = lex(s, end);
            Lexed {
                tokens: seq![LexemeView { token: TokenView::Word(s.subrange(at, end)), offset: at }]
                    + rest.tokens,
                stop: rest.stop,
            }
        } else {
            Lexed { tokens: Seq::empty(), stop: at }
        }
    } else {
        let rest = lex(s, at + 1);
        Lexed {
            tokens: seq![LexemeView { token: TokenView::Symbol(s[at]), offset: at }] + rest.tokens,
            stop: rest.stop,
        }
    }
}

/// The character itself.
fn same_char(c: char) -> (r: char)
    ensures
        r == c,
{
    c
}

/// Appends one character to a string, as `String::push` of the standard
/// library does: the string is then what it was, followed by the character.
#[verifier::external_body]
fn push_char(s: &mut String, c: char)
    ensures
        final(s)@ == old(s)@.push(c),
{
    s.push(c)
}

/// The characters of `chars[from..to]` as a string.
fn string_of(chars: &Vec<char>, from: usize, to: usize) -> (r: String)
    requires
        from <= to <= chars@.len(),
    ensures
        r@ == chars@.subrange(from as int, to as int),
{
    let mut out = String::new();
    let mut i: usize = from;
    assert(chars@.subrange(from as int, from as int) =~= Seq::<char>::empty());
    while i < to
        invariant
            from <= i <= to <= chars@.len(),
            out@ == chars@.subrange(from as int, i as int),
        decreases to - i,
    {
        push_char(&mut out, chars[i]);
        assert(chars@.subrange(from as int, i as int + 1) =~= chars@.subrange(
            from as int,
            i as int,
        ).push(chars@[i as int]));
        i += 1;
    }
    out
}

/// Whether a character is blank space.
pub fn space(c: char) -> (r: bool)
    ensures
        r == is_space(c),
{
    c == ' ' || c == '\t' || c == '\n' || c == '\r'
}

/// Whether a character is one of a word.
pub fn word_char(c: char) -> (r: bool)
    ensures
        r == is_word_char(c),
{
    ('a' <= c && c <= 'z') || ('A' <= c && c <= 'Z') || ('0' <= c && c <= '9') || c == '_' || c
        == '.' || c == '-' || c == '+'
}

/// The end of the word that stands at `at`.
fn find_word_end(s: &Vec<char>, at: usize) -> (r: usize)
    requires
        at <= s@.len(),
    ensures
        r == word_end(s@, at as int),
        at <= r <= s@.len(),
{
    let n = s.len();
    let mut i: usize = at;
    while i < n && word_char(s[i])
        invariant
            at <= i <= n,
            n == s@.len(),
            word_end(s@, i as int) == word_end(s@, at as int),
        decreases n - i,
    {
        i += 1;
    }
    i
}

/// The end of the line that `at` stands in.
fn find_line_end(s: &Vec<char>, at: usize) -> (r: usize)
    requires
        at <= s@.len(),
    ensures
        r == line_end(s@, at as int),
        at <= r <= s@.len(),
{
    let n = s.len();
    let mut i: usize = at;
    while i < n && s[i] != '\n'
        invariant
            at <= i <= n,
            n == s@.len(),
            line_end(s@, i as int) == line_end(s@, at as int),
        decreases n - i,
    {
        i += 1;
    }
    i
}

/// The end of the comment whose text begins at `at`.
fn find_comment_end(s: &Vec<char>, at: usize) -> (r: usize)
    requires
        at <= s@.len(),
    ensures
        r == comment_end(s@, at as int),
        at <= r <= s@.len(),
{
    let n = s.len();
    let mut i: usize = at;
    while i < n
        invariant
            at <= i <= n,
            n == s@.len(),
            comment_end(s@, i as int) == comment_end(s@, at as int),
        decreases n - i,
    {
        if i + 1 >= n {
            return n;
        }
        if s[i] == '*' && s[i + 1] == '/' {
            return i + 2;
        }
        i += 1;
    }
    n
}

/// The position of the quote that closes the text that begins at `at`.
fn find_text_end(s: &Vec<char>, at: usize, quote: char) -> (r: Option<usize>)
    requires
        at <= s@.len(),
    ensures
        r is Some <==> text_end(s@, at as int, quote) is Some,
        r is Some ==> r->0 as int == text_end(s@, at as int, quote)->0,
        r is Some ==> at <= r->0 < s@.len(),
{
    let n = s.len();
    let mut i: usize = at;
    while i < n
        invariant
            at <= i,
            n == s@.len(),
            text_end(s@, i as int, quote) == text_end(s@, at as int, quote),
        decreases n - i,
    {
        if s[i] == quote {
            return Some(i);
        }
        if s[i] == '\\' {
            if n - i < 2 {
                return None;
            }
            i += 2;
        } else {
            i += 1;
        }
    }
    None
}

/// The tokens of a text, and the position at which lexing stopped: the end
/// of the text, or a quote that is not closed.
pub fn tokenize(text: &str) -> (r: (Vec<Lexeme>, usize))
    ensures
        lexemes_view(r.0@) == lex(text@, 0).tokens,
        r.1 as int == lex(text@, 0).stop,
        r.1 <= text@.len(),
        forall|i: int| 0 <= i < r.0@.len() ==> (#[trigger] r.0@[i]).offset < text@.len(),
{
    let chars = chars_of(text);
    let ghost s = text@;
    let n = chars.len();
    let mut out: Vec<Lexeme> = Vec::new();
    let mut at: usize = 0;
    let mut done = false;
    assert(lexemes_view(out@) + lex(s, 0).tokens =~= lex(s, 0).tokens);
    while at < n && !done
        invariant
            at <= n,
            n == s.len(),
            chars@ == s,
            s == text@,
            lexemes_view(out@) + lex(s, at as int).tokens == lex(s, 0).tokens,
            lex(s, at as int).stop == lex(s, 0).stop,
            done ==> lex(s, at as int).stop == at && lex(s, at as int).tokens.len() == 0,
            forall|i: int| 0 <= i < out@.len() ==> (#[trigger] out@[i]).offset < n,
        decreases n - at, if done { 0int } else { 1int },
    {
        let c = chars[at];
        let ghost before = lexemes_view(out@);
        let ghost here = lex(s, at as int);
        let blank = space(c);
        let in_word = word_char(c);
        let next = if at + 1 < n {
            chars[at + 1]
        } else {
            ' '
        };
        if blank {
            at += 1;
        } else if c == '/' && at + 1 < n && next == '/' {
            let end = find_line_end(&chars, at + 2);
            at = end;
        } else if c == '/' && at + 1 < n && next == '*' {
            let end = find_comment_end(&chars, at + 2);
            at = end;
        } else if c == '"' || c == '\'' {
            match find_text_end(&chars, at + 1, c) {
                Some(end) => {
                    let content = string_of(&chars, at + 1, end);
                    out.push(Lexeme { token: Token::Text(content), offset: at });
                    proof {
                        let rest = lex(s, end as int + 1);
                        let one = LexemeView {
                            token: TokenView::Text(s.subrange(at as int + 1, end as int)),
                            offset: at as int,
                        };
                        assert(lexemes_view(out@) =~= before.push(one));
                        assert(here.tokens == seq![one] + rest.tokens);
                        assert(before.push(one) + rest.tokens =~= before + (seq![one]
                            + rest.tokens));
                    }
                    at = end + 1;
                },
                None => {
                    done = true;
                },
            }
        } else if in_word {
            let end = find_word_end(&chars, at + 1);
            let word = string_of(&chars, at, end);
            out.push(Lexeme { token: Token::Word(word), offset: at });
            proof {
                let rest = lex(s, end as int);
                let one = LexemeView {
                    token: TokenView::Word(s.subrange(at as int, end as int)),
                    offset: at as int,
                };
                assert(lexemes_view(out@) =~= before.push(one));
                assert(here.tokens == seq![one] + rest.tokens);
                assert(before.push(one) + rest.tokens =~= before + (seq![one] + rest.tokens));
            }
            at = end;
        } else {
            out.push(Lexeme { token: Token::Symbol(same_char(c)), offset: at });
            proof {
                let rest = lex(s, at as int + 1);
                let one = LexemeView { token: TokenView::Symbol(c), offset: at as int };
                assert(lexemes_view(out@) =~= before.push(one));
                assert(here.tokens == seq![one] + rest.tokens);
                assert(before.push(one) + rest.tokens =~= before + (seq![one] + rest.tokens));
            }
            at += 1;
        }
    }
    proof {
        if !done {
            assert(lex(s, at as int).tokens.len() == 0);
        }
        assert(lexemes_view(out@) + Seq::<LexemeView>::empty() =~= lexemes_view(out@));
    }
    (out, at)
}

} // verus!
