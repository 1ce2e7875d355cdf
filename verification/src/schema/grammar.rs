//! The grammar of fields: frequency, type, name, number and options.

use vstd::prelude::*;
use vstd::string::*;
use crate::model::{Field, FieldType, FieldView, Frequency, TypeView};
use crate::schema::lexer::{Lexeme, LexemeView, Token, TokenView, lexemes_view};
use crate::text::{chars_of, concat3};

verus! {

/// The token at a position, if there is one.
pub open spec fn token_at(tokens: Seq<LexemeView>, at: int) -> Option<TokenView> {
    if 0 <= at < tokens.len() {
        Some(tokens[at].token)
    } else {
        None
    }
}

/// The word at a position, if a word stands there.
pub open spec fn word_at(tokens: Seq<LexemeView>, at: int) -> Option<Seq<char>> {
    match token_at(tokens, at) {
        Some(TokenView::Word(w)) => Some(w),
        _ => None,
    }
}

/// The quoted text at a position, if one stands there.
pub open spec fn text_at(tokens: Seq<LexemeView>, at: int) -> Option<Seq<char>> {
    match token_at(tokens, at) {
        Some(TokenView::Text(t)) => Some(t),
        _ => None,
    }
}

/// Whether the symbol `c` stands at a position.
pub open spec fn symbol_at(tokens: Seq<LexemeView>, at: int, c: char) -> bool {
    token_at(tokens, at) == Some(TokenView::Symbol(c))
}

/// Whether the word `w` stands at a position.
pub open spec fn keyword_at(tokens: Seq<LexemeView>, at: int, w: Seq<char>) -> bool {
    word_at(tokens, at) == Some(w)
}

/// The position after the statement that begins at `at`: after the first
/// semicolon outside braces, or after the brace that closes the first
/// brace that was opened. `depth` counts the braces that are open.
pub open spec fn skip_statement(tokens: Seq<LexemeView>, at: int, depth: nat) -> Option<int>
    decreases tokens.len() - at,
{
    if at < 0 || at >= tokens.len() {
        None
    } else if symbol_at(tokens, at, '{') {
        skip_statement(tokens, at + 1, depth + 1)
    } else if symbol_at(tokens, at, '}') {
        if depth <= 1 {
            Some(at + 1)
        } else {
            skip_statement(tokens, at + 1, (depth - 1) as nat)
        }
    } else if symbol_at(tokens, at, ';') && depth == 0 {
        Some(at + 1)
    } else {
        skip_statement(tokens, at + 1, depth)
    }
}

/// The value of a digit in a base of ten or sixteen.
pub open spec fn digit_value(c: char, base: int) -> Option<int> {
    if '0' <= c && c <= '9' {
        Some(c as int - '0' as int)
    } else if base == 16 && 'a' <= c && c <= 'f' {
        Some(c as int - 'a' as int + 10)
    } else if base == 16 && 'A' <= c && c <= 'F' {
        Some(c as int - 'A' as int + 10)
    } else {
        None
    }
}

/// The value of a row of digits; that of no digits is zero.
pub open spec fn digits_value(s: Seq<char>, base: int) -> Option<int>
    decreases s.len(),
{
    if s.len() == 0 {
        Some(0)
    } else {
        match (digits_value(s.drop_last(), base), digit_value(s.last(), base)) {
            (Some(v), Some(d)) => Some(v * base + d),
            _ => None,
        }
    }
}

/// The value of a number as written: decimal digits, with a minus sign
/// before them or not, or `0x` and hexadecimal digits.
pub open spec fn written_value(word: Seq<char>) -> Option<int> {
    if word.len() > 2 && word[0] == '0' && word[1] == 'x' {
        digits_value(word.skip(2), 16)
    } else if word.len() > 1 && word[0] == '-' {
        match digits_value(word.skip(1), 10) {
            Some(v) => Some(-v),
            None => None,
        }
    } else if word.len() > 0 {
        digits_value(word, 10)
    } else {
        None
    }
}

/// The number that a word stands for, if it is one of 32 bits.
pub open spec fn number_value(word: Seq<char>) -> Option<i32> {
    match written_value(word) {
        Some(v) => if i32::MIN <= v <= i32::MAX {
            Some(v as i32)
        } else {
            None
        },
        None => None,
    }
}

/// The frequency that a word names.
pub open spec fn frequency_word(w: Seq<char>) -> Option<Frequency> {
    if w == "optional"@ {
        Some(Frequency::Optional)
    } else if w == "repeated"@ {
        Some(Frequency::Repeated)
    } else if w == "required"@ {
        Some(Frequency::Required)
    } else {
        None
    }
}

/// The type that a word names: one of the scalar types, else a message or
/// an enum that is yet to be found.
pub open spec fn named_type(w: Seq<char>) -> TypeView {
    if w == "int32"@ {
        TypeView::Int32
    } else if w == "int64"@ {
        TypeView::Int64
    } else if w == "uint32"@ {
        TypeView::Uint32
    } else if w == "uint64"@ {
        TypeView::Uint64
    } else if w == "sint32"@ {
        TypeView::Sint32
    } else if w == "sint64"@ {
        TypeView::Sint64
    } else if w == "bool"@ {
        TypeView::Bool
    } else if w == "fixed64"@ {
        TypeView::Fixed64
    } else if w == "sfixed64"@ {
        TypeView::Sfixed64
    } else if w == "double"@ {
        TypeView::Double
    } else if w == "string"@ {
        TypeView::StringCow
    } else if w == "bytes"@ {
        TypeView::BytesCow
    } else if w == "fixed32"@ {
        TypeView::Fixed32
    } else if w == "sfixed32"@ {
        TypeView::Sfixed32
    } else if w == "float"@ {
        TypeView::Float
    } else {
        TypeView::MessageOrEnum(w)
    }
}

/// The type that stands at `at`, and the position after it: a map of two
/// named types, or a named type.
pub open spec fn parse_type(tokens: Seq<LexemeView>, at: int) -> Option<(TypeView, int)> {
    if keyword_at(tokens, at, "map"@) {
        if symbol_at(tokens, at + 1, '<') && word_at(tokens, at + 2) is Some && symbol_at(
            tokens,
            at + 3,
            ',',
        ) && word_at(tokens, at + 4) is Some && symbol_at(tokens, at + 5, '>') {
            Some(
                (
                    TypeView::Map_(
                        Box::new(named_type(word_at(tokens, at + 2)->0)),
                        Box::new(named_type(word_at(tokens, at + 4)->0)),
                    ),
                    at + 6,
                ),
            )
        } else {
            None
        }
    } else {
        match word_at(tokens, at) {
            Some(w) => Some((named_type(w), at + 1)),
            None => None,
        }
    }
}

/// The value of an option as text: a word as it is, a quoted text between
/// quotes.
pub open spec fn option_value(tokens: Seq<LexemeView>, at: int) -> Option<Seq<char>> {
    match token_at(tokens, at) {
        Some(TokenView::Word(w)) => Some(w),
        Some(TokenView::Text(t)) => Some("\""@ + t + "\""@),
        _ => None,
    }
}

/// The field with one option applied: `default` sets the literal default,
/// `packed` the packed setting if the value is a boolean, `deprecated`
/// marks the field if the value is `true`; any other option is dropped.
pub open spec fn with_option(f: FieldView, key: Seq<char>, value: Seq<char>) -> FieldView {
    if key == "default"@ {
        FieldView { default: Some(value), ..f }
    } else if key == "packed"@ {
        FieldView {
            packed: if value == "true"@ {
                Some(true)
            } else if value == "false"@ {
                Some(false)
            } else {
                None
            },
            ..f
        }
    } else if key == "deprecated"@ {
        FieldView { deprecated: value == "true"@, ..f }
    } else {
        f
    }
}

/// The field with the options that stand from `at` on, up to the closing
/// bracket, and the position after the bracket.
pub open spec fn parse_options(tokens: Seq<LexemeView>, at: int, f: FieldView) -> Option<
    (FieldView, int),
>
    decreases tokens.len() - at,
{
    if at < 0 || at + 3 >= tokens.len() {
        None
    } else if word_at(tokens, at) is Some && symbol_at(tokens, at + 1, '=') && option_value(
        tokens,
        at + 2,
    ) is Some {
        let next = with_option(f, word_at(tokens, at)->0, option_value(tokens, at + 2)->0);
        if symbol_at(tokens, at + 3, ',') {
            parse_options(tokens, at + 4, next)
        } else if symbol_at(tokens, at + 3, ']') {
            Some((next, at + 4))
        } else {
            None
        }
    } else {
        None
    }
}

/// A field as it is declared, before any option.
pub open spec fn plain_field(name: Seq<char>, frequency: Frequency, typ: TypeView, number: i32) -> FieldView {
    FieldView {
        name,
        frequency,
        typ,
        number,
        default: None,
        packed: None,
        boxed: false,
        deprecated: false,
        attributes: Seq::empty(),
    }
}

/// The field that stands at `at`, and the position after its semicolon.
pub open spec fn parse_field(tokens: Seq<LexemeView>, at: int) -> Option<(FieldView, int)> {
    match word_at(tokens, at) {
        None => None,
        Some(first) => {
            let frequency = match frequency_word(first) {
                Some(f) => f,
                None => Frequency::Optional,
            };
            let from = if frequency_word(first) is Some {
                at + 1
            } else {
                at
            };
            match parse_type(tokens, from) {
                None => None,
                Some((typ, after)) => if word_at(tokens, after) is Some && symbol_at(
                    tokens,
                    after + 1,
                    '=',
                ) && word_at(tokens, after + 2) is Some && number_value(
                    word_at(tokens, after + 2)->0,
                ) is Some {
                    let f = plain_field(
                        word_at(tokens, after)->0,
                        frequency,
                        typ,
                        number_value(word_at(tokens, after + 2)->0)->0,
                    );
                    if symbol_at(tokens, after + 3, '[') {
                        match parse_options(tokens, after + 4, f) {
                            Some((g, end)) => if symbol_at(tokens, end, ';') {
                                Some((g, end + 1))
                            } else {
                                None
                            },
                            None => None,
                        }
                    } else if symbol_at(tokens, after + 3, ';') {
                        Some((f, after + 4))
                    } else {
                        None
                    }
                } else {
                    None
                },
            }
        },
    }
}

/// The word at a position, if a word stands there.
pub fn get_word<'a>(tokens: &'a Vec<Lexeme>, at: usize) -> (r: Option<&'a String>)
    ensures
        r is Some <==> word_at(lexemes_view(tokens@), at as int) is Some,
        r is Some ==> r->0@ == word_at(lexemes_view(tokens@), at as int)->0,
        r is Some ==> at < tokens@.len(),
{
    if at >= tokens.len() {
        return None;
    }
    assert(lexemes_view(tokens@)[at as int] == tokens@[at as int]@);
    match &tokens[at].token {
        Token::Word(w) => Some(w),
        _ => None,
    }
}

/// The quoted text at a position, if one stands there.
pub fn get_text<'a>(tokens: &'a Vec<Lexeme>, at: usize) -> (r: Option<&'a String>)
    ensures
        r is Some <==> text_at(lexemes_view(tokens@), at as int) is Some,
        r is Some ==> r->0@ == text_at(lexemes_view(tokens@), at as int)->0,
        r is Some ==> at < tokens@.len(),
{
    if at >= tokens.len() {
        return None;
    }
    assert(lexemes_view(tokens@)[at as int] == tokens@[at as int]@);
    match &tokens[at].token {
        Token::Text(t) => Some(t),
        _ => None,
    }
}

/// Whether the symbol `c` stands at a position.
pub fn is_symbol(tokens: &Vec<Lexeme>, at: usize, c: char) -> (r: bool)
    ensures
        r == symbol_at(lexemes_view(tokens@), at as int, c),
        r ==> at < tokens@.len(),
{
    if at >= tokens.len() {
        return false;
    }
    assert(lexemes_view(tokens@)[at as int] == tokens@[at as int]@);
    match &tokens[at].token {
        Token::Symbol(s) => *s == c,
        _ => false,
    }
}

/// Whether a string is the given text.
pub fn is_text(s: &String, wanted: &str) -> (r: bool)
    ensures
        r == (s@ == wanted@),
{
    let other = String::from_str(wanted);
    *s == other
}

/// Whether the word `w` stands at a position.
pub fn is_keyword(tokens: &Vec<Lexeme>, at: usize, w: &str) -> (r: bool)
    ensures
        r == keyword_at(lexemes_view(tokens@), at as int, w@),
        r ==> at < tokens@.len(),
{
    match get_word(tokens, at) {
        Some(word) => is_text(word, w),
        None => false,
    }
}

/// The position after the statement that begins at `at`.
pub fn skip(tokens: &Vec<Lexeme>, at: usize) -> (r: Option<usize>)
    ensures
        r is Some <==> skip_statement(lexemes_view(tokens@), at as int, 0) is Some,
        r is Some ==> r->0 as int == skip_statement(lexemes_view(tokens@), at as int, 0)->0,
        r is Some ==> at < r->0 <= tokens@.len(),
{
    let ghost all = lexemes_view(tokens@);
    let n = tokens.len();
    let mut i: usize = at;
    let mut depth: usize = 0;
    while i < n
        invariant
            at <= i,
            n == tokens@.len(),
            all == lexemes_view(tokens@),
            depth <= i - at,
            skip_statement(all, i as int, depth as nat) == skip_statement(all, at as int, 0),
        decreases n - i,
    {
        if is_symbol(tokens, i, '{') {
            depth += 1;
        } else if is_symbol(tokens, i, '}') {
            if depth <= 1 {
                return Some(i + 1);
            }
            depth -= 1;
        } else if is_symbol(tokens, i, ';') && depth == 0 {
            return Some(i + 1);
        }
        i += 1;
    }
    None
}

/// The value of a digit in a base of ten or sixteen.
fn digit_of(c: char, hex: bool) -> (r: Option<i64>)
    ensures
        r is Some <==> digit_value(c, if hex { 16 } else { 10 }) is Some,
        r is Some ==> r->0 as int == digit_value(c, if hex { 16 } else { 10 })->0,
        r is Some ==> 0 <= r->0 < 16,
{
    if '0' <= c && c <= '9' {
        Some((c as u32 - '0' as u32) as i64)
    } else if hex && 'a' <= c && c <= 'f' {
        Some((c as u32 - 'a' as u32 + 10) as i64)
    } else if hex && 'A' <= c && c <= 'F' {
        Some((c as u32 - 'A' as u32 + 10) as i64)
    } else {
        None
    }
}

/// The value of the digits `chars[from..]`, capped at a bound beyond the
/// numbers of 32 bits.
fn digits_of(chars: &Vec<char>, from: usize, hex: bool) -> (r: Option<i64>)
    requires
        from <= chars@.len(),
    ensures
        r is Some <==> digits_value(chars@.skip(from as int), if hex { 16 } else { 10 }) is Some,
        r is Some ==> {
            let v = digits_value(chars@.skip(from as int), if hex { 16 } else { 10 })->0;
            0 <= v && r->0 == if v > 0x100_0000_0000 {
                0x100_0000_0000
            } else {
                v
            }
        },
{
    let ghost base: int = if hex {
        16
    } else {
        10
    };
    let ghost s = chars@.skip(from as int);
    let n = chars.len();
    let step: i64 = if hex {
        16
    } else {
        10
    };
    let mut acc: i64 = 0;
    let mut i: usize = from;
    assert(s.take(0) =~= Seq::<char>::empty());
    while i < n
        invariant
            from <= i <= n,
            n == chars@.len(),
            s == chars@.skip(from as int),
            base == if hex { 16int } else { 10int },
            step == base,
            digits_value(s.take(i - from), base) is Some,
            0 <= digits_value(s.take(i - from), base)->0,
            0 <= acc <= 0x100_0000_0000,
            acc == if digits_value(s.take(i - from), base)->0 > 0x100_0000_0000 {
                0x100_0000_0000
            } else {
                digits_value(s.take(i - from), base)->0
            },
        decreases n - i,
    {
        proof {
            assert(s.take(i - from + 1).drop_last() =~= s.take(i - from));
            assert(s.take(i - from + 1).last() == chars@[i as int]);
        }
        let ghost v = digits_value(s.take(i - from), base)->0;
        match digit_of(chars[i], hex) {
            Some(d) => {
                let next = acc * step + d;
                proof {
                    assert(v * base + d >= v) by (nonlinear_arith)
                        requires
                            v >= 0,
                            base >= 10,
                            d >= 0,
                    ;
                    if v > 0x100_0000_0000 {
                        assert(acc * step + d >= 0x100_0000_0000) by (nonlinear_arith)
                            requires
                                acc == 0x100_0000_0000,
                                step >= 10,
                                d >= 0,
                        ;
                    } else {
                        assert(acc * step == v * base);
                    }
                }
                acc = if next > 0x100_0000_0000 {
                    0x100_0000_0000
                } else {
                    next
                };
            },
            None => {
                proof {
                    lemma_digits_fail(s, i - from + 1, base);
                }
                return None;
            },
        }
        i += 1;
    }
    assert(s.take(n - from) =~= s);
    Some(acc)
}

/// Once a row of digits has no value, no longer row has one.
pub proof fn lemma_digits_fail(s: Seq<char>, upto: int, base: int)
    requires
        0 <= upto <= s.len(),
        digits_value(s.take(upto), base) is None,
    ensures
        digits_value(s, base) is None,
    decreases s.len() - upto,
{
    if upto < s.len() {
        assert(s.take(upto + 1).drop_last() =~= s.take(upto));
        lemma_digits_fail(s, upto + 1, base);
    } else {
        assert(s.take(upto) =~= s);
    }
}

/// The number that a word stands for, if it is one of 32 bits.
pub fn parse_number(word: &str) -> (r: Option<i32>)
    ensures
        r == number_value(word@),
{
    let chars = chars_of(word);
    let n = chars.len();
    let value: Option<i64> = if n > 2 && chars[0] == '0' && chars[1] == 'x' {
        digits_of(&chars, 2, true)
    } else if n > 1 && chars[0] == '-' {
        match digits_of(&chars, 1, false) {
            Some(v) => Some(-v),
            None => None,
        }
    } else if n > 0 {
        proof {
            assert(chars@.skip(0) =~= chars@);
        }
        digits_of(&chars, 0, false)
    } else {
        None
    };
    match value {
        Some(v) => {
            if -0x8000_0000 <= v && v <= 0x7fff_ffff {
                Some(v as i32)
            } else {
                None
            }
        },
        None => None,
    }
}

/// The frequency that a word names.
pub fn frequency_of(w: &String) -> (r: Option<Frequency>)
    ensures
        r == frequency_word(w@),
{
    if is_text(w, "optional") {
        Some(Frequency::Optional)
    } else if is_text(w, "repeated") {
        Some(Frequency::Repeated)
    } else if is_text(w, "required") {
        Some(Frequency::Required)
    } else {
        None
    }
}

/// The type that a word names.
pub fn type_of(w: &String) -> (r: FieldType)
    ensures
        r@ == named_type(w@),
{
    if is_text(w, "int32") {
        FieldType::Int32
    } else if is_text(w, "int64") {
        FieldType::Int64
    } else if is_text(w, "uint32") {
        FieldType::Uint32
    } else if is_text(w, "uint64") {
        FieldType::Uint64
    } else if is_text(w, "sint32") {
        FieldType::Sint32
    } else if is_text(w, "sint64") {
        FieldType::Sint64
    } else if is_text(w, "bool") {
        FieldType::Bool
    } else if is_text(w, "fixed64") {
        FieldType::Fixed64
    } else if is_text(w, "sfixed64") {
        FieldType::Sfixed64
    } else if is_text(w, "double") {
        FieldType::Double
    } else if is_text(w, "string") {
        FieldType::StringCow
    } else if is_text(w, "bytes") {
        FieldType::BytesCow
    } else if is_text(w, "fixed32") {
        FieldType::Fixed32
    } else if is_text(w, "sfixed32") {
        FieldType::Sfixed32
    } else if is_text(w, "float") {
        FieldType::Float
    } else {
        FieldType::MessageOrEnum(w.clone())
    }
}

/// The type that stands at `at`, and the position after it.
pub fn read_type(tokens: &Vec<Lexeme>, at: usize) -> (r: Option<(FieldType, usize)>)
    ensures
        r is Some <==> parse_type(lexemes_view(tokens@), at as int) is Some,
        r is Some ==> {
            let got = r->0;
            let want = parse_type(lexemes_view(tokens@), at as int)->0;
            got.0@ == want.0 && got.1 == want.1 && at < got.1 <= tokens@.len()
        },
{
    let n = tokens.len();
    if is_keyword(tokens, at, "map") {
        if !is_symbol(tokens, at + 1, '<') {
            return None;
        }
        let key = match get_word(tokens, at + 2) {
            Some(w) => type_of(w),
            None => {
                return None;
            },
        };
        if !is_symbol(tokens, at + 3, ',') {
            return None;
        }
        let value = match get_word(tokens, at + 4) {
            Some(w) => type_of(w),
            None => {
                return None;
            },
        };
        if !is_symbol(tokens, at + 5, '>') {
            return None;
        }
        Some((FieldType::Map_(Box::new(key), Box::new(value)), at + 6))
    } else {
        match get_word(tokens, at) {
            Some(w) => Some((type_of(w), at + 1)),
            None => None,
        }
    }
}

/// The value of an option as text.
pub fn read_option_value(tokens: &Vec<Lexeme>, at: usize) -> (r: Option<String>)
    ensures
        r is Some <==> option_value(lexemes_view(tokens@), at as int) is Some,
        r is Some ==> r->0@ == option_value(lexemes_view(tokens@), at as int)->0,
        r is Some ==> at < tokens@.len(),
{
    if at >= tokens.len() {
        return None;
    }
    assert(lexemes_view(tokens@)[at as int] == tokens@[at as int]@);
    match &tokens[at].token {
        Token::Word(w) => Some(w.clone()),
        Token::Text(t) => Some(concat3("\"", t.as_str(), "\"")),
        _ => None,
    }
}

impl Field {
    /// Applies one option to the field.
    pub fn set_option(&mut self, key: &String, value: String)
        ensures
            final(self)@ == with_option(old(self)@, key@, value@),
    {
        if is_text(key, "default") {
            self.default = Some(value);
        } else if is_text(key, "packed") {
            self.packed = if is_text(&value, "true") {
                Some(true)
            } else if is_text(&value, "false") {
                Some(false)
            } else {
                None
            };
        } else if is_text(key, "deprecated") {
            self.deprecated = is_text(&value, "true");
        }
    }
}

/// Applies to `f` the options that stand from `at` on, up to the closing
/// bracket, and gives the position after the bracket.
pub fn read_options(tokens: &Vec<Lexeme>, at: usize, f: &mut Field) -> (r: Option<usize>)
    ensures
        r is Some <==> parse_options(lexemes_view(tokens@), at as int, old(f)@) is Some,
        r is Some ==> {
            let want = parse_options(lexemes_view(tokens@), at as int, old(f)@)->0;
            final(f)@ == want.0 && r->0 == want.1 && at < r->0 <= tokens@.len()
        },
{
    let ghost all = lexemes_view(tokens@);
    let n = tokens.len();
    let mut i: usize = at;
    while i < n && n - i > 3
        invariant
            at <= i,
            n == tokens@.len(),
            all == lexemes_view(tokens@),
            parse_options(all, i as int, f@) == parse_options(all, at as int, old(f)@),
        decreases n - i,
    {
        let key = match get_word(tokens, i) {
            Some(w) => w,
            None => {
                return None;
            },
        };
        if !is_symbol(tokens, i + 1, '=') {
            return None;
        }
        let value = match read_option_value(tokens, i + 2) {
            Some(v) => v,
            None => {
                return None;
            },
        };
        f.set_option(key, value);
        if is_symbol(tokens, i + 3, ',') {
            i += 4;
        } else if is_symbol(tokens, i + 3, ']') {
            return Some(i + 4);
        } else {
            return None;
        }
    }
    None
}

/// The field that stands at `at`, and the position after its semicolon.
pub fn read_field(tokens: &Vec<Lexeme>, at: usize) -> (r: Option<(Field, usize)>)
    ensures
        r is Some <==> parse_field(lexemes_view(tokens@), at as int) is Some,
        r is Some ==> {
            let got = r->0;
            let want = parse_field(lexemes_view(tokens@), at as int)->0;
            got.0@ == want.0 && got.1 == want.1 && at < got.1 <= tokens@.len()
        },
{
    let n = tokens.len();
    let first = match get_word(tokens, at) {
        Some(w) => w,
        None => {
            return None;
        },
    };
    let named = frequency_of(first);
    let (frequency, from) = match named {
        Some(f) => (f, at + 1),
        None => (Frequency::Optional, at),
    };
    let (typ, after) = match read_type(tokens, from) {
        Some(found) => found,
        None => {
            return None;
        },
    };
    let name = match get_word(tokens, after) {
        Some(w) => w.clone(),
        None => {
            return None;
        },
    };
    if !is_symbol(tokens, after + 1, '=') {
        return None;
    }
    let number = match get_word(tokens, after + 2) {
        Some(w) => match parse_number(w.as_str()) {
            Some(n) => n,
            None => {
                return None;
            },
        },
        None => {
            return None;
        },
    };
    let mut f = Field {
        name,
        frequency,
        typ,
        number,
        default: None,
        packed: None,
        boxed: false,
        deprecated: false,
        attributes: Vec::new(),
    };
    assert(f@ == plain_field(f.name@, frequency, f.typ@, number)) by {
        assert(f.attributes@ =~= Seq::<String>::empty());
    }
    if is_symbol(tokens, after + 3, '[') {
        let end = match read_options(tokens, after + 4, &mut f) {
            Some(end) => end,
            None => {
                return None;
            },
        };
        if is_symbol(tokens, end, ';') {
            Some((f, end + 1))
        } else {
            None
        }
    } else if is_symbol(tokens, after + 3, ';') {
        Some((f, after + 4))
    } else {
        None
    }
}

} // verus!
