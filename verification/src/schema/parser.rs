//! The grammar of declarations: enums, oneofs, messages, services and the
//! file itself.

use vstd::prelude::*;
use vstd::string::*;
use crate::errors::{Error, ErrorView};
use crate::model::{
    DescView, EnumField, EnumIndex, EnumPath, Enumerator, EnumeratorView, Field, FieldView,
    FileDescriptor, Message, MessageIndex, MessageView, OneOf, OneOfView, RpcFunctionDeclaration,
    RpcFunctionView, RpcService, RpcServiceView, Syntax, enums_view, fields_view,
    lemma_nested_views, messages_view, oneofs_view, services_view, tagged_view,
};
use crate::schema::grammar::{
    get_text, get_word, is_keyword, is_symbol, is_text, keyword_at, number_value, parse_field,
    parse_number, read_field, skip, skip_statement, symbol_at, text_at, word_at,
};
use crate::schema::lexer::{Lexeme, LexemeView, lex, lexemes_view, tokenize};
use crate::symbols::strings_view;

verus! {

/// Whether a step of the grammar that began at `at` ended at `next`,
/// further on and within the tokens.
pub open spec fn advances(tokens: Seq<LexemeView>, at: int, next: int) -> bool {
    at < next <= tokens.len()
}

/// The position after the next closing bracket.
pub open spec fn bracket_end(tokens: Seq<LexemeView>, at: int) -> Option<int>
    decreases tokens.len() - at,
{
    if at < 0 || at >= tokens.len() {
        None
    } else if symbol_at(tokens, at, ']') {
        Some(at + 1)
    } else {
        bracket_end(tokens, at + 1)
    }
}

/// An enum as it is declared, without variants.
pub open spec fn fresh_enum(name: Seq<char>) -> EnumeratorView {
    EnumeratorView {
        name,
        fields: Seq::empty(),
        fully_qualified_fields: Seq::empty(),
        partially_qualified_fields: Seq::empty(),
        imported: false,
        package: Seq::empty(),
        module: Seq::empty(),
        path: Seq::empty(),
        import: Seq::empty(),
        index: EnumPath { msg: Seq::empty(), index: 0 },
        attributes: Seq::empty(),
        variant_attributes: Seq::empty(),
    }
}

/// The enum with one more variant.
pub open spec fn with_variant(e: EnumeratorView, name: Seq<char>, tag: i32) -> EnumeratorView {
    EnumeratorView {
        fields: e.fields.push((name, tag)),
        variant_attributes: e.variant_attributes.push(Seq::empty()),
        ..e
    }
}

/// The position after the variant whose number stands before `after`:
/// after its semicolon, and after its options if it has some.
pub open spec fn variant_end(tokens: Seq<LexemeView>, after: int) -> Option<int> {
    if symbol_at(tokens, after, '[') {
        match bracket_end(tokens, after + 1) {
            Some(end) => if symbol_at(tokens, end, ';') {
                Some(end + 1)
            } else {
                None
            },
            None => None,
        }
    } else if symbol_at(tokens, after, ';') {
        Some(after + 1)
    } else {
        None
    }
}

/// The enum with the variants that stand from `at` on, up to the closing
/// brace, and the position after the brace. Options and reservations are
/// passed over.
pub open spec fn parse_variants(tokens: Seq<LexemeView>, at: int, e: EnumeratorView) -> Option<
    (EnumeratorView, int),
>
    decreases tokens.len() - at,
{
    if at < 0 || at >= tokens.len() {
        None
    } else if symbol_at(tokens, at, '}') {
        Some((e, at + 1))
    } else if keyword_at(tokens, at, "option"@) || keyword_at(tokens, at, "reserved"@) {
        match skip_statement(tokens, at, 0) {
            Some(next) => if advances(tokens, at, next) {
                parse_variants(tokens, next, e)
            } else {
                None
            },
            None => None,
        }
    } else if word_at(tokens, at) is Some && symbol_at(tokens, at + 1, '=') && word_at(
        tokens,
        at + 2,
    ) is Some && number_value(word_at(tokens, at + 2)->0) is Some {
        match variant_end(tokens, at + 3) {
            Some(next) => if advances(tokens, at, next) {
                parse_variants(
                    tokens,
                    next,
                    with_variant(
                        e,
                        word_at(tokens, at)->0,
                        number_value(word_at(tokens, at + 2)->0)->0,
                    ),
                )
            } else {
                None
            },
            None => None,
        }
    } else {
        None
    }
}

/// The enum whose name stands at `at`, and the position after its closing
/// brace.
pub open spec fn parse_enum(tokens: Seq<LexemeView>, at: int) -> Option<(EnumeratorView, int)> {
    if word_at(tokens, at) is Some && symbol_at(tokens, at + 1, '{') {
        parse_variants(tokens, at + 2, fresh_enum(word_at(tokens, at)->0))
    } else {
        None
    }
}

/// A oneof as it is declared, without members.
pub open spec fn fresh_oneof(name: Seq<char>) -> OneOfView {
    OneOfView {
        name,
        fields: Seq::empty(),
        package: Seq::empty(),
        module: Seq::empty(),
        imported: false,
        field_attributes: Seq::empty(),
        container_attributes: Seq::empty(),
    }
}

/// The oneof with the members that stand from `at` on, up to the closing
/// brace, and the position after the brace. Options are passed over.
pub open spec fn parse_members(tokens: Seq<LexemeView>, at: int, o: OneOfView) -> Option<
    (OneOfView, int),
>
    decreases tokens.len() - at,
{
    if at < 0 || at >= tokens.len() {
        None
    } else if symbol_at(tokens, at, '}') {
        Some((o, at + 1))
    } else if keyword_at(tokens, at, "option"@) {
        match skip_statement(tokens, at, 0) {
            Some(next) => if advances(tokens, at, next) {
                parse_members(tokens, next, o)
            } else {
                None
            },
            None => None,
        }
    } else {
        match parse_field(tokens, at) {
            Some((f, next)) => if advances(tokens, at, next) {
                parse_members(tokens, next, OneOfView { fields: o.fields.push(f), ..o })
            } else {
                None
            },
            None => None,
        }
    }
}

/// The oneof whose name stands at `at`, and the position after its closing
/// brace.
pub open spec fn parse_oneof(tokens: Seq<LexemeView>, at: int) -> Option<(OneOfView, int)> {
    if word_at(tokens, at) is Some && symbol_at(tokens, at + 1, '{') {
        parse_members(tokens, at + 2, fresh_oneof(word_at(tokens, at)->0))
    } else {
        None
    }
}

/// The numbers from `from` to `to`, both counted.
pub open spec fn range_numbers(from: int, to: int) -> Seq<i32>
    decreases to - from + 1,
{
    if from > to {
        Seq::empty()
    } else {
        seq![from as i32] + range_numbers(from + 1, to)
    }
}

/// The names with one more.
pub open spec fn with_name(names: Option<Seq<Seq<char>>>, name: Seq<char>) -> Option<
    Seq<Seq<char>>,
> {
    match names {
        Some(old) => Some(old.push(name)),
        None => Some(seq![name]),
    }
}

/// The numbers with some more.
pub open spec fn with_numbers(numbers: Option<Seq<i32>>, more: Seq<i32>) -> Option<Seq<i32>> {
    match numbers {
        Some(old) => Some(old + more),
        None => Some(more),
    }
}

/// The message with the reservations that stand from `at` on, up to the
/// semicolon, and the position after the semicolon: quoted names, numbers,
/// and ranges of numbers written with `to`.
pub open spec fn parse_reserved(tokens: Seq<LexemeView>, at: int, m: MessageView) -> Option<
    (MessageView, int),
>
    decreases tokens.len() - at,
{
    if at < 0 || at >= tokens.len() {
        None
    } else {
        let item: Option<(MessageView, int)> = if text_at(tokens, at) is Some {
            Some(
                (
                    MessageView {
                        reserved_names: with_name(m.reserved_names, text_at(tokens, at)->0),
                        ..m
                    },
                    at + 1,
                ),
            )
        } else if word_at(tokens, at) is Some && number_value(word_at(tokens, at)->0) is Some {
            let from = number_value(word_at(tokens, at)->0)->0;
            if keyword_at(tokens, at + 1, "to"@) {
                if word_at(tokens, at + 2) is Some && number_value(word_at(tokens, at + 2)->0)
                    is Some {
                    Some(
                        (
                            MessageView {
                                reserved_nums: with_numbers(
                                    m.reserved_nums,
                                    range_numbers(
                                        from as int,
                                        number_value(word_at(tokens, at + 2)->0)->0 as int,
                                    ),
                                ),
                                ..m
                            },
                            at + 3,
                        ),
                    )
                } else {
                    None
                }
            } else {
                Some(
                    (
                        MessageView {
                            reserved_nums: with_numbers(m.reserved_nums, seq![from]),
                            ..m
                        },
                        at + 1,
                    ),
                )
            }
        } else {
            None
        };
        match item {
            Some((next, after)) => if symbol_at(tokens, after, ',') {
                parse_reserved(tokens, after + 1, next)
            } else if symbol_at(tokens, after, ';') {
                Some((next, after + 1))
            } else {
                None
            },
            None => None,
        }
    }
}

/// A message as it is declared, without anything in it.
pub open spec fn fresh_message(name: Seq<char>) -> MessageView {
    MessageView {
        name,
        fields: Seq::empty(),
        oneofs: Seq::empty(),
        reserved_nums: None,
        reserved_names: None,
        imported: false,
        package: Seq::empty(),
        messages: Seq::empty(),
        enums: Seq::empty(),
        module: Seq::empty(),
        path: Seq::empty(),
        import: Seq::empty(),
        index: Seq::empty(),
        attributes: Seq::empty(),
    }
}

/// Whether the statement that begins at `at` in a message is passed over.
pub open spec fn is_passed_over(tokens: Seq<LexemeView>, at: int) -> bool {
    keyword_at(tokens, at, "option"@) || keyword_at(tokens, at, "extensions"@) || keyword_at(
        tokens,
        at,
        "extend"@,
    ) || keyword_at(tokens, at, "group"@)
}

/// The message with what stands from `at` on, up to the closing brace, and
/// the position after the brace: nested messages and enums, oneofs,
/// reservations and fields.
pub open spec fn parse_items(tokens: Seq<LexemeView>, at: int, m: MessageView) -> Option<
    (MessageView, int),
>
    decreases tokens.len() - at, 0nat,
{
    if at < 0 || at >= tokens.len() {
        None
    } else if symbol_at(tokens, at, '}') {
        Some((m, at + 1))
    } else if symbol_at(tokens, at, ';') {
        parse_items(tokens, at + 1, m)
    } else if keyword_at(tokens, at, "message"@) {
        match parse_message(tokens, at + 1) {
            Some((child, next)) => if advances(tokens, at, next) {
                parse_items(tokens, next, MessageView { messages: m.messages.push(child), ..m })
            } else {
                None
            },
            None => None,
        }
    } else if keyword_at(tokens, at, "enum"@) {
        match parse_enum(tokens, at + 1) {
            Some((e, next)) => if advances(tokens, at, next) {
                parse_items(tokens, next, MessageView { enums: m.enums.push(e), ..m })
            } else {
                None
            },
            None => None,
        }
    } else if keyword_at(tokens, at, "oneof"@) {
        match parse_oneof(tokens, at + 1) {
            Some((o, next)) => if advances(tokens, at, next) {
                parse_items(tokens, next, MessageView { oneofs: m.oneofs.push(o), ..m })
            } else {
                None
            },
            None => None,
        }
    } else if keyword_at(tokens, at, "reserved"@) {
        match parse_reserved(tokens, at + 1, m) {
            Some((next_m, next)) => if advances(tokens, at, next) {
                parse_items(tokens, next, next_m)
            } else {
                None
            },
            None => None,
        }
    } else if is_passed_over(tokens, at) {
        match skip_statement(tokens, at, 0) {
            Some(next) => if advances(tokens, at, next) {
                parse_items(tokens, next, m)
            } else {
                None
            },
            None => None,
        }
    } else {
        match parse_field(tokens, at) {
            Some((f, next)) => if advances(tokens, at, next) {
                parse_items(tokens, next, MessageView { fields: m.fields.push(f), ..m })
            } else {
                None
            },
            None => None,
        }
    }
}

/// The message whose name stands at `at`, and the position after its
/// closing brace.
pub open spec fn parse_message(tokens: Seq<LexemeView>, at: int) -> Option<(MessageView, int)>
    decreases tokens.len() - at, 1nat,
{
    if at < 0 || at + 2 > tokens.len() {
        None
    } else if word_at(tokens, at) is Some && symbol_at(tokens, at + 1, '{') {
        parse_items(tokens, at + 2, fresh_message(word_at(tokens, at)->0))
    } else {
        None
    }
}

impl Enumerator {
    /// An enum as it is declared, without variants.
    pub fn declared(name: String) -> (r: Enumerator)
        ensures
            r@ == fresh_enum(name@),
    {
        let out = Enumerator {
            name,
            fields: Vec::new(),
            fully_qualified_fields: Vec::new(),
            partially_qualified_fields: Vec::new(),
            imported: false,
            package: String::new(),
            module: String::new(),
            path: String::new(),
            import: String::new(),
            index: EnumIndex { msg_index: MessageIndex { indexes: Vec::new() }, index: 0 },
            attributes: Vec::new(),
        };
        proof {
            let want = fresh_enum(name@);
            assert(out@.fields =~= want.fields);
            assert(out@.fully_qualified_fields =~= want.fully_qualified_fields);
            assert(out@.partially_qualified_fields =~= want.partially_qualified_fields);
            assert(out@.variant_attributes =~= want.variant_attributes);
            assert(out@.attributes =~= want.attributes);
            assert(out@.index.msg =~= want.index.msg);
        }
        out
    }

    /// Adds a variant to the enum.
    pub fn add_variant(&mut self, name: String, tag: i32)
        ensures
            final(self)@ == with_variant(old(self)@, name@, tag),
    {
        self.fields.push(EnumField { name, tag, attributes: Vec::new() });
        proof {
            let want = with_variant(old(self)@, name@, tag);
            assert(self@.fields =~= want.fields);
            assert(self@.variant_attributes =~= want.variant_attributes) by {
                assert(self.fields@[self.fields@.len() - 1].attributes@ =~= Seq::<String>::empty());
            }
        }
    }
}

impl OneOf {
    /// A oneof as it is declared, without members.
    pub fn declared(name: String) -> (r: OneOf)
        ensures
            r@ == fresh_oneof(name@),
    {
        let out = OneOf {
            name,
            fields: Vec::new(),
            package: String::new(),
            module: String::new(),
            imported: false,
            field_attributes: Vec::new(),
            container_attributes: Vec::new(),
        };
        proof {
            let want = fresh_oneof(name@);
            assert(out@.fields =~= want.fields);
            assert(out@.field_attributes =~= want.field_attributes);
            assert(out@.container_attributes =~= want.container_attributes);
        }
        out
    }

    /// Adds a member to the oneof.
    pub fn add_member(&mut self, f: Field)
        ensures
            final(self)@ == (OneOfView { fields: old(self)@.fields.push(f@), ..old(self)@ }),
    {
        self.fields.push(f);
        assert(self@.fields =~= old(self)@.fields.push(f@));
    }
}

impl Message {
    /// A message as it is declared, without anything in it.
    pub fn declared(name: String) -> (r: Message)
        ensures
            r@ == fresh_message(name@),
    {
        let out = Message {
            name,
            fields: Vec::new(),
            oneofs: Vec::new(),
            reserved_nums: None,
            reserved_names: None,
            imported: false,
            package: String::new(),
            messages: Vec::new(),
            enums: Vec::new(),
            module: String::new(),
            path: String::new(),
            import: String::new(),
            index: MessageIndex { indexes: Vec::new() },
            attributes: Vec::new(),
        };
        proof {
            let want = fresh_message(name@);
            lemma_nested_views(out);
            assert(out@.fields =~= want.fields);
            assert(out@.oneofs =~= want.oneofs);
            assert(out@.messages =~= want.messages);
            assert(out@.enums =~= want.enums);
            assert(out@.index =~= want.index);
            assert(out@.attributes =~= want.attributes);
        }
        out
    }

    /// Adds a field to the message.
    pub fn add_field(&mut self, f: Field)
        ensures
            final(self)@ == (MessageView { fields: old(self)@.fields.push(f@), ..old(self)@ }),
    {
        self.fields.push(f);
        proof {
            lemma_nested_views(*self);
            lemma_nested_views(*old(self));
            assert(self@.fields =~= old(self)@.fields.push(f@));
        }
    }

    /// Adds a oneof to the message.
    pub fn add_oneof(&mut self, o: OneOf)
        ensures
            final(self)@ == (MessageView { oneofs: old(self)@.oneofs.push(o@), ..old(self)@ }),
    {
        self.oneofs.push(o);
        proof {
            lemma_nested_views(*self);
            lemma_nested_views(*old(self));
            assert(self@.oneofs =~= old(self)@.oneofs.push(o@));
        }
    }

    /// Adds a nested enum to the message.
    pub fn add_enum(&mut self, e: Enumerator)
        ensures
            final(self)@ == (MessageView { enums: old(self)@.enums.push(e@), ..old(self)@ }),
    {
        self.enums.push(e);
        proof {
            lemma_nested_views(*self);
            lemma_nested_views(*old(self));
            assert(self@.enums =~= old(self)@.enums.push(e@));
        }
    }

    /// Adds a nested message to the message.
    pub fn add_message(&mut self, child: Message)
        ensures
            final(self)@ == (MessageView {
                messages: old(self)@.messages.push(child@),
                ..old(self)@
            }),
    {
        self.messages.push(child);
        proof {
            lemma_nested_views(*self);
            lemma_nested_views(*old(self));
            assert(self@.messages =~= old(self)@.messages.push(child@));
        }
    }

    /// Reserves a name in the message.
    pub fn reserve_name(&mut self, name: String)
        ensures
            final(self)@ == (MessageView {
                reserved_names: with_name(old(self)@.reserved_names, name@),
                ..old(self)@
            }),
    {
        let mut names = match self.reserved_names.take() {
            Some(old_names) => old_names,
            None => Vec::new(),
        };
        let ghost before = names@.map_values(|s: String| s@);
        names.push(name);
        assert(names@.map_values(|s: String| s@) =~= before.push(name@));
        self.reserved_names = Some(names);
        proof {
            lemma_nested_views(*self);
            lemma_nested_views(*old(self));
            assert(self@.reserved_names->0 =~= with_name(old(self)@.reserved_names, name@)->0);
        }
    }

    /// Reserves the numbers from `from` to `to`, both counted, in the
    /// message.
    pub fn reserve_numbers(&mut self, from: i32, to: i32)
        ensures
            final(self)@ == (MessageView {
                reserved_nums: with_numbers(
                    old(self)@.reserved_nums,
                    range_numbers(from as int, to as int),
                ),
                ..old(self)@
            }),
    {
        let mut numbers = match self.reserved_nums.take() {
            Some(old_numbers) => old_numbers,
            None => Vec::new(),
        };
        let ghost before = numbers@;
        let mut i: i64 = from as i64;
        let last: i64 = to as i64;
        proof {
            assert(before + range_numbers(from as int, to as int) =~= numbers@ + range_numbers(
                i as int,
                to as int,
            ));
        }
        while i <= last
            invariant
                from <= i <= last + 1 || (from > to && i == from),
                last == to,
                numbers@ + range_numbers(i as int, to as int) == before + range_numbers(
                    from as int,
                    to as int,
                ),
            decreases last + 1 - i,
        {
            let ghost so_far = numbers@;
            numbers.push(i as i32);
            proof {
                assert(range_numbers(i as int, to as int) == seq![i as i32] + range_numbers(
                    i + 1,
                    to as int,
                ));
                assert(so_far.push(i as i32) + range_numbers(i + 1, to as int) =~= so_far + (
                seq![i as i32] + range_numbers(i + 1, to as int)));
            }
            i += 1;
        }
        proof {
            assert(range_numbers(i as int, to as int) =~= Seq::<i32>::empty());
            assert(numbers@ + Seq::<i32>::empty() =~= numbers@);
        }
        self.reserved_nums = Some(numbers);
        proof {
            lemma_nested_views(*self);
            lemma_nested_views(*old(self));
            assert(self@.reserved_nums->0 =~= with_numbers(
                old(self)@.reserved_nums,
                range_numbers(from as int, to as int),
            )->0);
        }
    }
}

/// The position after the next closing bracket.
pub fn find_bracket_end(tokens: &Vec<Lexeme>, at: usize) -> (r: Option<usize>)
    ensures
        r is Some <==> bracket_end(lexemes_view(tokens@), at as int) is Some,
        r is Some ==> r->0 as int == bracket_end(lexemes_view(tokens@), at as int)->0,
        r is Some ==> at < r->0 <= tokens@.len(),
{
    let ghost all = lexemes_view(tokens@);
    let n = tokens.len();
    let mut i: usize = at;
    while i < n
        invariant
            at <= i,
            n == tokens@.len(),
            all == lexemes_view(tokens@),
            bracket_end(all, i as int) == bracket_end(all, at as int),
        decreases n - i,
    {
        if is_symbol(tokens, i, ']') {
            return Some(i + 1);
        }
        i += 1;
    }
    None
}

/// The position after the variant whose number stands before `after`.
pub fn find_variant_end(tokens: &Vec<Lexeme>, after: usize) -> (r: Option<usize>)
    ensures
        r is Some <==> variant_end(lexemes_view(tokens@), after as int) is Some,
        r is Some ==> r->0 as int == variant_end(lexemes_view(tokens@), after as int)->0,
        r is Some ==> after < r->0 <= tokens@.len(),
{
    let n = tokens.len();
    if is_symbol(tokens, after, '[') {
        match find_bracket_end(tokens, after + 1) {
            Some(end) => {
                if is_symbol(tokens, end, ';') {
                    Some(end + 1)
                } else {
                    None
                }
            },
            None => None,
        }
    } else if is_symbol(tokens, after, ';') {
        Some(after + 1)
    } else {
        None
    }
}

/// The enum whose name stands at `at`, and the position after its closing
/// brace.
pub fn read_enum(tokens: &Vec<Lexeme>, at: usize) -> (r: Option<(Enumerator, usize)>)
    ensures
        r is Some <==> parse_enum(lexemes_view(tokens@), at as int) is Some,
        r is Some ==> {
            let got = r->0;
            let want = parse_enum(lexemes_view(tokens@), at as int)->0;
            got.0@ == want.0 && got.1 == want.1 && at < got.1 <= tokens@.len()
        },
{
    let ghost all = lexemes_view(tokens@);
    let n = tokens.len();
    let name = match get_word(tokens, at) {
        Some(w) => w.clone(),
        None => {
            return None;
        },
    };
    if !is_symbol(tokens, at + 1, '{') {
        return None;
    }
    let mut e = Enumerator::declared(name);
    let ghost start = e@;
    let mut i: usize = at + 2;
    while i < n
        invariant
            at + 2 <= i,
            n == tokens@.len(),
            all == lexemes_view(tokens@),
            parse_variants(all, i as int, e@) == parse_variants(all, at + 2, start),
            parse_enum(all, at as int) == parse_variants(all, at + 2, start),
        decreases n - i,
    {
        if is_symbol(tokens, i, '}') {
            return Some((e, i + 1));
        }
        if is_keyword(tokens, i, "option") || is_keyword(tokens, i, "reserved") {
            match skip(tokens, i) {
                Some(next) => {
                    i = next;
                },
                None => {
                    return None;
                },
            }
        } else {
            let variant = match get_word(tokens, i) {
                Some(w) => w.clone(),
                None => {
                    return None;
                },
            };
            if !is_symbol(tokens, i + 1, '=') {
                return None;
            }
            let tag = match get_word(tokens, i + 2) {
                Some(w) => match parse_number(w.as_str()) {
                    Some(t) => t,
                    None => {
                        return None;
                    },
                },
                None => {
                    return None;
                },
            };
            let next = match find_variant_end(tokens, i + 3) {
                Some(next) => next,
                None => {
                    return None;
                },
            };
            e.add_variant(variant, tag);
            i = next;
        }
    }
    None
}

/// The oneof whose name stands at `at`, and the position after its closing
/// brace.
pub fn read_oneof(tokens: &Vec<Lexeme>, at: usize) -> (r: Option<(OneOf, usize)>)
    ensures
        r is Some <==> parse_oneof(lexemes_view(tokens@), at as int) is Some,
        r is Some ==> {
            let got = r->0;
            let want = parse_oneof(lexemes_view(tokens@), at as int)->0;
            got.0@ == want.0 && got.1 == want.1 && at < got.1 <= tokens@.len()
        },
{
    let ghost all = lexemes_view(tokens@);
    let n = tokens.len();
    let name = match get_word(tokens, at) {
        Some(w) => w.clone(),
        None => {
            return None;
        },
    };
    if !is_symbol(tokens, at + 1, '{') {
        return None;
    }
    let mut o = OneOf::declared(name);
    let ghost start = o@;
    let mut i: usize = at + 2;
    while i < n
        invariant
            at + 2 <= i,
            n == tokens@.len(),
            all == lexemes_view(tokens@),
            parse_members(all, i as int, o@) == parse_members(all, at + 2, start),
            parse_oneof(all, at as int) == parse_members(all, at + 2, start),
        decreases n - i,
    {
        if is_symbol(tokens, i, '}') {
            return Some((o, i + 1));
        }
        if is_keyword(tokens, i, "option") {
            match skip(tokens, i) {
                Some(next) => {
                    i = next;
                },
                None => {
                    return None;
                },
            }
        } else {
            match read_field(tokens, i) {
                Some((f, next)) => {
                    o.add_member(f);
                    i = next;
                },
                None => {
                    return None;
                },
            }
        }
    }
    None
}

/// Adds to `m` the reservations that stand from `at` on, up to the
/// semicolon, and gives the position after the semicolon.
pub fn read_reserved(tokens: &Vec<Lexeme>, at: usize, m: &mut Message) -> (r: Option<usize>)
    ensures
        r is Some <==> parse_reserved(lexemes_view(tokens@), at as int, old(m)@) is Some,
        r is Some ==> {
            let want = parse_reserved(lexemes_view(tokens@), at as int, old(m)@)->0;
            final(m)@ == want.0 && r->0 == want.1 && at < r->0 <= tokens@.len()
        },
{
    let ghost all = lexemes_view(tokens@);
    let n = tokens.len();
    let mut i: usize = at;
    while i < n
        invariant
            at <= i,
            n == tokens@.len(),
            all == lexemes_view(tokens@),
            parse_reserved(all, i as int, m@) == parse_reserved(all, at as int, old(m)@),
        decreases n - i,
    {
        let after = match get_text(tokens, i) {
            Some(name) => {
                m.reserve_name(name.clone());
                i + 1
            },
            None => {
                let from = match get_word(tokens, i) {
                    Some(w) => match parse_number(w.as_str()) {
                        Some(v) => v,
                        None => {
                            return None;
                        },
                    },
                    None => {
                        return None;
                    },
                };
                if is_keyword(tokens, i + 1, "to") {
                    let to = match get_word(tokens, i + 2) {
                        Some(w) => match parse_number(w.as_str()) {
                            Some(v) => v,
                            None => {
                                return None;
                            },
                        },
                        None => {
                            return None;
                        },
                    };
                    m.reserve_numbers(from, to);
                    i + 3
                } else {
                    m.reserve_numbers(from, from);
                    proof {
                        reveal_with_fuel(range_numbers, 2);
                        assert(range_numbers(from as int, from as int) =~= seq![from]);
                    }
                    i + 1
                }
            },
        };
        if is_symbol(tokens, after, ',') {
            i = after + 1;
        } else if is_symbol(tokens, after, ';') {
            return Some(after + 1);
        } else {
            return None;
        }
    }
    None
}

/// The message whose name stands at `at`, and the position after its
/// closing brace.
pub fn read_message(tokens: &Vec<Lexeme>, at: usize) -> (r: Option<(Message, usize)>)
    ensures
        r is Some <==> parse_message(lexemes_view(tokens@), at as int) is Some,
        r is Some ==> {
            let got = r->0;
            let want = parse_message(lexemes_view(tokens@), at as int)->0;
            got.0@ == want.0 && got.1 == want.1 && at < got.1 <= tokens@.len()
        },
    decreases tokens@.len() - at,
{
    let ghost all = lexemes_view(tokens@);
    let n = tokens.len();
    if at >= n || n - at < 2 {
        return None;
    }
    let name = match get_word(tokens, at) {
        Some(w) => w.clone(),
        None => {
            return None;
        },
    };
    if !is_symbol(tokens, at + 1, '{') {
        return None;
    }
    let mut m = Message::declared(name);
    let ghost start = m@;
    let mut i: usize = at + 2;
    while i < n
        invariant
            at + 2 <= i,
            n == tokens@.len(),
            all == lexemes_view(tokens@),
            parse_items(all, i as int, m@) == parse_items(all, at + 2, start),
            parse_message(all, at as int) == parse_items(all, at + 2, start),
        decreases n - i,
    {
        if is_symbol(tokens, i, '}') {
            return Some((m, i + 1));
        }
        if is_symbol(tokens, i, ';') {
            i += 1;
        } else if is_keyword(tokens, i, "message") {
            match read_message(tokens, i + 1) {
                Some((child, next)) => {
                    m.add_message(child);
                    i = next;
                },
                None => {
                    return None;
                },
            }
        } else if is_keyword(tokens, i, "enum") {
            match read_enum(tokens, i + 1) {
                Some((e, next)) => {
                    m.add_enum(e);
                    i = next;
                },
                None => {
                    return None;
                },
            }
        } else if is_keyword(tokens, i, "oneof") {
            match read_oneof(tokens, i + 1) {
                Some((o, next)) => {
                    m.add_oneof(o);
                    i = next;
                },
                None => {
                    return None;
                },
            }
        } else if is_keyword(tokens, i, "reserved") {
            match read_reserved(tokens, i + 1, &mut m) {
                Some(next) => {
                    i = next;
                },
                None => {
                    return None;
                },
            }
        } else if is_keyword(tokens, i, "option") || is_keyword(tokens, i, "extensions")
            || is_keyword(tokens, i, "extend") || is_keyword(tokens, i, "group") {
            match skip(tokens, i) {
                Some(next) => {
                    i = next;
                },
                None => {
                    return None;
                },
            }
        } else {
            match read_field(tokens, i) {
                Some((f, next)) => {
                    m.add_field(f);
                    i = next;
                },
                None => {
                    return None;
                },
            }
        }
    }
    None
}

/// The position after the type of the argument or of the result of a
/// function that stands in parentheses from `at` on, and the type: a word,
/// with `stream` before it or not.
pub open spec fn parse_parameter(tokens: Seq<LexemeView>, at: int) -> Option<(Seq<char>, int)> {
    if !symbol_at(tokens, at, '(') {
        None
    } else if keyword_at(tokens, at + 1, "stream"@) {
        if word_at(tokens, at + 2) is Some && symbol_at(tokens, at + 3, ')') {
            Some((word_at(tokens, at + 2)->0, at + 4))
        } else {
            None
        }
    } else if word_at(tokens, at + 1) is Some && symbol_at(tokens, at + 2, ')') {
        Some((word_at(tokens, at + 1)->0, at + 3))
    } else {
        None
    }
}

/// The function of a service whose name stands at `at`, and the position
/// after it: after its semicolon, or after its block of options.
pub open spec fn parse_rpc(tokens: Seq<LexemeView>, at: int) -> Option<(RpcFunctionView, int)> {
    match word_at(tokens, at) {
        None => None,
        Some(name) => match parse_parameter(tokens, at + 1) {
            None => None,
            Some((arg, after)) => if word_at(tokens, after) is Some {
                match parse_parameter(tokens, after + 1) {
                    None => None,
                    Some((ret, end)) => {
                        let function = RpcFunctionView { name, arg, ret };
                        if symbol_at(tokens, end, ';') {
                            Some((function, end + 1))
                        } else if symbol_at(tokens, end, '{') {
                            match skip_statement(tokens, end, 0) {
                                Some(next) => Some((function, next)),
                                None => None,
                            }
                        } else {
                            None
                        }
                    },
                }
            } else {
                None
            },
        },
    }
}

/// The service with the functions that stand from `at` on, up to the
/// closing brace, and the position after the brace. What is no function is
/// passed over.
pub open spec fn parse_entries(tokens: Seq<LexemeView>, at: int, s: RpcServiceView) -> Option<
    (RpcServiceView, int),
>
    decreases tokens.len() - at,
{
    if at < 0 || at >= tokens.len() {
        None
    } else if symbol_at(tokens, at, '}') {
        Some((s, at + 1))
    } else if keyword_at(tokens, at, "rpc"@) {
        match parse_rpc(tokens, at + 1) {
            Some((f, next)) => if advances(tokens, at, next) {
                parse_entries(tokens, next, RpcServiceView { functions: s.functions.push(f), ..s })
            } else {
                None
            },
            None => None,
        }
    } else {
        match skip_statement(tokens, at, 0) {
            Some(next) => if advances(tokens, at, next) {
                parse_entries(tokens, next, s)
            } else {
                None
            },
            None => None,
        }
    }
}

/// The service whose name stands at `at`, and the position after its
/// closing brace.
pub open spec fn parse_service(tokens: Seq<LexemeView>, at: int) -> Option<(RpcServiceView, int)> {
    if word_at(tokens, at) is Some && symbol_at(tokens, at + 1, '{') {
        parse_entries(
            tokens,
            at + 2,
            RpcServiceView { service_name: word_at(tokens, at)->0, functions: Seq::empty() },
        )
    } else {
        None
    }
}

/// A file without declarations.
pub open spec fn fresh_file() -> DescView {
    DescView {
        import_paths: Seq::empty(),
        rpc_services: Seq::empty(),
        package: Seq::empty(),
        syntax: Syntax::Proto2,
        messages: Seq::empty(),
        enums: Seq::empty(),
        module: Seq::empty(),
        owned: false,
    }
}

/// The declarations that were read, and the position of the first token
/// that was not.
pub struct Parsed {
    pub file: DescView,
    pub stop: int,
}

/// The syntax that a quoted text names.
pub open spec fn syntax_named(t: Seq<char>) -> Option<Syntax> {
    if t == "proto3"@ {
        Some(Syntax::Proto3)
    } else if t == "proto2"@ {
        Some(Syntax::Proto2)
    } else {
        None
    }
}

/// The file with the declarations that stand from `at` on: syntax,
/// package, imports, messages, enums and services; options are passed
/// over. Reading stops before the first declaration that does not follow
/// the grammar.
pub open spec fn parse_declarations(tokens: Seq<LexemeView>, at: int, d: DescView) -> Parsed
    decreases tokens.len() - at,
{
    let stop = Parsed { file: d, stop: at };
    if at < 0 || at >= tokens.len() {
        stop
    } else if symbol_at(tokens, at, ';') {
        parse_declarations(tokens, at + 1, d)
    } else if keyword_at(tokens, at, "syntax"@) {
        if symbol_at(tokens, at + 1, '=') && text_at(tokens, at + 2) is Some && syntax_named(
            text_at(tokens, at + 2)->0,
        ) is Some && symbol_at(tokens, at + 3, ';') {
            parse_declarations(
                tokens,
                at + 4,
                DescView { syntax: syntax_named(text_at(tokens, at + 2)->0)->0, ..d },
            )
        } else {
            stop
        }
    } else if keyword_at(tokens, at, "package"@) {
        if word_at(tokens, at + 1) is Some && symbol_at(tokens, at + 2, ';') {
            parse_declarations(tokens, at + 3, DescView { package: word_at(tokens, at + 1)->0, ..d })
        } else {
            stop
        }
    } else if keyword_at(tokens, at, "import"@) {
        let path = if keyword_at(tokens, at + 1, "public"@) || keyword_at(tokens, at + 1, "weak"@) {
            at + 2
        } else {
            at + 1
        };
        if text_at(tokens, path) is Some && symbol_at(tokens, path + 1, ';') {
            parse_declarations(
                tokens,
                path + 2,
                DescView { import_paths: d.import_paths.push(text_at(tokens, path)->0), ..d },
            )
        } else {
            stop
        }
    } else if keyword_at(tokens, at, "option"@) || keyword_at(tokens, at, "extend"@) {
        match skip_statement(tokens, at, 0) {
            Some(next) => if advances(tokens, at, next) {
                parse_declarations(tokens, next, d)
            } else {
                stop
            },
            None => stop,
        }
    } else if keyword_at(tokens, at, "message"@) {
        match parse_message(tokens, at + 1) {
            Some((m, next)) => if advances(tokens, at, next) {
                parse_declarations(tokens, next, DescView { messages: d.messages.push(m), ..d })
            } else {
                stop
            },
            None => stop,
        }
    } else if keyword_at(tokens, at, "enum"@) {
        match parse_enum(tokens, at + 1) {
            Some((e, next)) => if advances(tokens, at, next) {
                parse_declarations(tokens, next, DescView { enums: d.enums.push(e), ..d })
            } else {
                stop
            },
            None => stop,
        }
    } else if keyword_at(tokens, at, "service"@) {
        match parse_service(tokens, at + 1) {
            Some((s, next)) => if advances(tokens, at, next) {
                parse_declarations(
                    tokens,
                    next,
                    DescView { rpc_services: d.rpc_services.push(s), ..d },
                )
            } else {
                stop
            },
            None => stop,
        }
    } else {
        stop
    }
}

/// What is left of the text of a schema where reading stopped: the text
/// from the first token that was not read, or from where lexing stopped.
pub open spec fn remainder(text: Seq<char>, tokens: Seq<LexemeView>, lex_stop: int, stop: int) -> Seq<
    char,
> {
    if 0 <= stop < tokens.len() {
        text.skip(tokens[stop].offset)
    } else {
        text.skip(lex_stop)
    }
}

/// The declarations of a schema file, or the error that holds the first
/// fifty characters of what is left where reading stopped.
pub open spec fn parse_schema(text: Seq<char>) -> Result<DescView, ErrorView> {
    let lexed = lex(text, 0);
    let parsed = parse_declarations(lexed.tokens, 0, fresh_file());
    let rest = remainder(text, lexed.tokens, lexed.stop, parsed.stop);
    if rest.len() == 0 {
        Ok(parsed.file)
    } else if rest.len() <= 50 {
        Err(ErrorView::TrailingGarbage(rest))
    } else {
        Err(ErrorView::TrailingGarbage(rest.take(50)))
    }
}

/// The type of an argument or of a result, and the position after its
/// closing parenthesis.
pub fn read_parameter(tokens: &Vec<Lexeme>, at: usize) -> (r: Option<(String, usize)>)
    ensures
        r is Some <==> parse_parameter(lexemes_view(tokens@), at as int) is Some,
        r is Some ==> {
            let got = r->0;
            let want = parse_parameter(lexemes_view(tokens@), at as int)->0;
            got.0@ == want.0 && got.1 == want.1 && at < got.1 <= tokens@.len()
        },
{
    let n = tokens.len();
    if !is_symbol(tokens, at, '(') {
        return None;
    }
    if is_keyword(tokens, at + 1, "stream") {
        let word = match get_word(tokens, at + 2) {
            Some(w) => w.clone(),
            None => {
                return None;
            },
        };
        if is_symbol(tokens, at + 3, ')') {
            Some((word, at + 4))
        } else {
            None
        }
    } else {
        let word = match get_word(tokens, at + 1) {
            Some(w) => w.clone(),
            None => {
                return None;
            },
        };
        if is_symbol(tokens, at + 2, ')') {
            Some((word, at + 3))
        } else {
            None
        }
    }
}

/// The function of a service whose name stands at `at`, and the position
/// after it.
pub fn read_rpc(tokens: &Vec<Lexeme>, at: usize) -> (r: Option<(RpcFunctionDeclaration, usize)>)
    ensures
        r is Some <==> parse_rpc(lexemes_view(tokens@), at as int) is Some,
        r is Some ==> {
            let got = r->0;
            let want = parse_rpc(lexemes_view(tokens@), at as int)->0;
            got.0@ == want.0 && got.1 == want.1 && at < got.1 <= tokens@.len()
        },
{
    let n = tokens.len();
    let name = match get_word(tokens, at) {
        Some(w) => w.clone(),
        None => {
            return None;
        },
    };
    let (arg, after) = match read_parameter(tokens, at + 1) {
        Some(found) => found,
        None => {
            return None;
        },
    };
    if get_word(tokens, after).is_none() {
        return None;
    }
    let (ret, end) = match read_parameter(tokens, after + 1) {
        Some(found) => found,
        None => {
            return None;
        },
    };
    let function = RpcFunctionDeclaration { name, arg, ret };
    if is_symbol(tokens, end, ';') {
        Some((function, end + 1))
    } else if is_symbol(tokens, end, '{') {
        match skip(tokens, end) {
            Some(next) => Some((function, next)),
            None => None,
        }
    } else {
        None
    }
}

/// The service whose name stands at `at`, and the position after its
/// closing brace.
pub fn read_service(tokens: &Vec<Lexeme>, at: usize) -> (r: Option<(RpcService, usize)>)
    ensures
        r is Some <==> parse_service(lexemes_view(tokens@), at as int) is Some,
        r is Some ==> {
            let got = r->0;
            let want = parse_service(lexemes_view(tokens@), at as int)->0;
            got.0@ == want.0 && got.1 == want.1 && at < got.1 <= tokens@.len()
        },
{
    let ghost all = lexemes_view(tokens@);
    let n = tokens.len();
    let name = match get_word(tokens, at) {
        Some(w) => w.clone(),
        None => {
            return None;
        },
    };
    if !is_symbol(tokens, at + 1, '{') {
        return None;
    }
    let mut s = RpcService { service_name: name, functions: Vec::new() };
    let ghost start = s@;
    assert(start.functions =~= Seq::<RpcFunctionView>::empty());
    let mut i: usize = at + 2;
    while i < n
        invariant
            at + 2 <= i,
            n == tokens@.len(),
            all == lexemes_view(tokens@),
            parse_entries(all, i as int, s@) == parse_entries(all, at + 2, start),
            parse_service(all, at as int) == parse_entries(all, at + 2, start),
        decreases n - i,
    {
        if is_symbol(tokens, i, '}') {
            return Some((s, i + 1));
        }
        if is_keyword(tokens, i, "rpc") {
            match read_rpc(tokens, i + 1) {
                Some((f, next)) => {
                    let ghost before = s@;
                    s.functions.push(f);
                    assert(s@.functions =~= before.functions.push(f@));
                    i = next;
                },
                None => {
                    return None;
                },
            }
        } else {
            match skip(tokens, i) {
                Some(next) => {
                    i = next;
                },
                None => {
                    return None;
                },
            }
        }
    }
    None
}

impl FileDescriptor {
    /// A file without declarations.
    pub fn empty() -> (r: FileDescriptor)
        ensures
            r@ == fresh_file(),
    {
        let out = FileDescriptor {
            import_paths: Vec::new(),
            package: String::new(),
            syntax: Syntax::Proto2,
            messages: Vec::new(),
            enums: Vec::new(),
            module: String::new(),
            rpc_services: Vec::new(),
            owned: false,
        };
        proof {
            let want = fresh_file();
            assert(out@.import_paths =~= want.import_paths);
            assert(out@.rpc_services =~= want.rpc_services);
            assert(out@.messages =~= want.messages);
            assert(out@.enums =~= want.enums);
        }
        out
    }
}

/// The declarations that stand at the head of the tokens, and the position
/// of the first token that was not read.
pub fn read_declarations(tokens: &Vec<Lexeme>) -> (r: (FileDescriptor, usize))
    ensures
        r.0@ == parse_declarations(lexemes_view(tokens@), 0, fresh_file()).file,
        r.1 == parse_declarations(lexemes_view(tokens@), 0, fresh_file()).stop,
        r.1 <= tokens@.len(),
{
    let ghost all = lexemes_view(tokens@);
    let n = tokens.len();
    let mut d = FileDescriptor::empty();
    let mut i: usize = 0;
    while i < n
        invariant
            i <= n,
            n == tokens@.len(),
            all == lexemes_view(tokens@),
            parse_declarations(all, i as int, d@) == parse_declarations(all, 0, fresh_file()),
        decreases n - i,
    {
        let ghost before = d@;
        if is_symbol(tokens, i, ';') {
            i += 1;
        } else if is_keyword(tokens, i, "syntax") {
            if !is_symbol(tokens, i + 1, '=') {
                return (d, i);
            }
            let syntax = match get_text(tokens, i + 2) {
                Some(t) => {
                    if is_text(t, "proto3") {
                        Syntax::Proto3
                    } else if is_text(t, "proto2") {
                        Syntax::Proto2
                    } else {
                        return (d, i);
                    }
                },
                None => {
                    return (d, i);
                },
            };
            if !is_symbol(tokens, i + 3, ';') {
                return (d, i);
            }
            d.syntax = syntax;
            i += 4;
        } else if is_keyword(tokens, i, "package") {
            let package = match get_word(tokens, i + 1) {
                Some(w) => w.clone(),
                None => {
                    return (d, i);
                },
            };
            if !is_symbol(tokens, i + 2, ';') {
                return (d, i);
            }
            d.package = package;
            i += 3;
        } else if is_keyword(tokens, i, "import") {
            let path = if is_keyword(tokens, i + 1, "public") || is_keyword(tokens, i + 1, "weak") {
                i + 2
            } else {
                i + 1
            };
            let import = match get_text(tokens, path) {
                Some(t) => t.clone(),
                None => {
                    return (d, i);
                },
            };
            if !is_symbol(tokens, path + 1, ';') {
                return (d, i);
            }
            d.import_paths.push(import);
            assert(d@.import_paths =~= before.import_paths.push(import@));
            i = path + 2;
        } else if is_keyword(tokens, i, "option") || is_keyword(tokens, i, "extend") {
            match skip(tokens, i) {
                Some(next) => {
                    i = next;
                },
                None => {
                    return (d, i);
                },
            }
        } else if is_keyword(tokens, i, "message") {
            match read_message(tokens, i + 1) {
                Some((m, next)) => {
                    d.messages.push(m);
                    assert(d@.messages =~= before.messages.push(m@));
                    i = next;
                },
                None => {
                    return (d, i);
                },
            }
        } else if is_keyword(tokens, i, "enum") {
            match read_enum(tokens, i + 1) {
                Some((e, next)) => {
                    d.enums.push(e);
                    assert(d@.enums =~= before.enums.push(e@));
                    i = next;
                },
                None => {
                    return (d, i);
                },
            }
        } else if is_keyword(tokens, i, "service") {
            match read_service(tokens, i + 1) {
                Some((s, next)) => {
                    d.rpc_services.push(s);
                    assert(d@.rpc_services =~= before.rpc_services.push(s@));
                    i = next;
                },
                None => {
                    return (d, i);
                },
            }
        } else {
            return (d, i);
        }
    }
    (d, i)
}

/// Reads the text of a schema file into its declarations, the types of the
/// fields still as names. Text that does not follow the grammar ends the
/// reading, and the error holds the first fifty characters of it.
pub fn file_descriptor(text: &str) -> (r: Result<FileDescriptor, Error>)
    ensures
        r is Ok <==> parse_schema(text@) is Ok,
        r is Ok ==> r->Ok_0@ == parse_schema(text@)->Ok_0,
        r is Err ==> r->Err_0@ == parse_schema(text@)->Err_0,
{
    let (tokens, lex_stop) = tokenize(text);
    let (desc, stop) = read_declarations(&tokens);
    let n = text.unicode_len();
    let offset = if stop < tokens.len() {
        assert(lexemes_view(tokens@)[stop as int] == tokens@[stop as int]@);
        tokens[stop].offset
    } else {
        lex_stop
    };
    proof {
        assert(text@.subrange(offset as int, n as int) =~= text@.skip(offset as int));
    }
    let left = n - offset;
    if left == 0 {
        Ok(desc)
    } else if left <= 50 {
        Err(Error::TrailingGarbage(String::from_str(text.substring_char(offset, n))))
    } else {
        proof {
            assert(text@.subrange(offset as int, offset + 50) =~= text@.skip(offset as int).take(
                50,
            ));
        }
        Err(Error::TrailingGarbage(String::from_str(text.substring_char(offset, offset + 50))))
    }
}

} // verus!
