//! Names that the generated code cannot use as they are: a segment of a
//! dotted name that is a keyword of the target language gets a suffix.

use vstd::prelude::*;
use vstd::string::*;
use crate::checks::holds_name;
use crate::model::{
    DescView, Enumerator, EnumeratorView, Field, FieldView, FileDescriptor, Message, MessageView,
    OneOf, OneOfView, enums_view, fields_view, lemma_nested_views, messages_view, oneofs_view,
};
use crate::symbols::strings_view;
use crate::typetext::{split_at_dots, split_dots};

verus! {

/// The segments of a name joined by dots.
pub open spec fn join_dots(parts: Seq<Seq<char>>) -> Seq<char>
    decreases parts.len(),
{
    if parts.len() == 0 {
        Seq::empty()
    } else if parts.len() == 1 {
        parts[0]
    } else {
        join_dots(parts.drop_last()) + seq!['.'] + parts.last()
    }
}

/// A segment as the generated code can use it: with the suffix `_pb` if it
/// is one of the keywords.
pub open spec fn escaped(part: Seq<char>, keywords: Seq<Seq<char>>) -> Seq<char> {
    if keywords.contains(part) {
        part + "_pb"@
    } else {
        part
    }
}

/// A dotted name with each of its segments as the generated code can use it.
pub open spec fn sanitized_name(name: Seq<char>, keywords: Seq<Seq<char>>) -> Seq<char> {
    join_dots(split_dots(name).map_values(|p: Seq<char>| escaped(p, keywords)))
}

/// Fields with names that the generated code can use.
pub open spec fn sanitized_fields(fields: Seq<FieldView>, keywords: Seq<Seq<char>>) -> Seq<FieldView> {
    fields.map_values(|f: FieldView| FieldView { name: sanitized_name(f.name, keywords), ..f })
}

/// An enum with names that the generated code can use.
pub open spec fn sanitized_enum(e: EnumeratorView, keywords: Seq<Seq<char>>) -> EnumeratorView {
    EnumeratorView {
        name: sanitized_name(e.name, keywords),
        package: sanitized_name(e.package, keywords),
        fields: e.fields.map_values(
            |f: (Seq<char>, i32)| (sanitized_name(f.0, keywords), f.1),
        ),
        ..e
    }
}

/// A oneof with names that the generated code can use.
pub open spec fn sanitized_oneof(o: OneOfView, keywords: Seq<Seq<char>>) -> OneOfView {
    OneOfView {
        name: sanitized_name(o.name, keywords),
        package: sanitized_name(o.package, keywords),
        fields: sanitized_fields(o.fields, keywords),
        ..o
    }
}

/// A message with names that the generated code can use: its own name and
/// package, the names of its fields, and all that is nested in it.
pub open spec fn sanitized_message(m: MessageView, keywords: Seq<Seq<char>>) -> MessageView
    decreases m,
{
    MessageView {
        name: sanitized_name(m.name, keywords),
        package: sanitized_name(m.package, keywords),
        fields: sanitized_fields(m.fields, keywords),
        messages: Seq::new(
            m.messages.len(),
            |i: int|
                if 0 <= i < m.messages.len() {
                    sanitized_message(m.messages[i], keywords)
                } else {
                    arbitrary()
                },
        ),
        enums: m.enums.map_values(|e: EnumeratorView| sanitized_enum(e, keywords)),
        oneofs: m.oneofs.map_values(|o: OneOfView| sanitized_oneof(o, keywords)),
        ..m
    }
}

impl DescView {
    /// The file with names that the generated code can use.
    pub open spec fn with_sanitized_names(self, keywords: Seq<Seq<char>>) -> DescView {
        DescView {
            messages: self.messages.map_values(|m: MessageView| sanitized_message(m, keywords)),
            enums: self.enums.map_values(|e: EnumeratorView| sanitized_enum(e, keywords)),
            ..self
        }
    }
}

/// Sanitizing the names of a message changes nothing of its fields but
/// their names, and leaves its identity as it is.
pub proof fn lemma_sanitized_fields(m: MessageView, keywords: Seq<Seq<char>>)
    ensures
        sanitized_message(m, keywords).all_fields() == sanitized_fields(m.all_fields(), keywords),
        sanitized_message(m, keywords).index == m.index,
{
    let h = |f: FieldView| FieldView { name: sanitized_name(f.name, keywords), ..f };
    let lists = m.oneofs.map_values(|o: OneOfView| o.fields);
    let after = sanitized_message(m, keywords);
    crate::passes::lemma_flatten_map(lists, h);
    assert(after.oneofs.map_values(|o: OneOfView| o.fields) =~= lists.map_values(
        |s: Seq<FieldView>| s.map_values(h),
    ));
    assert(after.all_fields() =~= (m.fields + crate::tree::oneof_fields(m.oneofs)).map_values(h));
}

/// Sanitizing names keeps every message in its place in a subtree.
pub proof fn lemma_sanitized_subtree(m: MessageView, keywords: Seq<Seq<char>>)
    ensures
        crate::tree::subtree(sanitized_message(m, keywords)) == crate::tree::subtree(m).map_values(
            |x: MessageView| sanitized_message(x, keywords),
        ),
    decreases m, 0nat,
{
    let g = |x: MessageView| sanitized_message(x, keywords);
    crate::tree::lemma_subtree_unfold(m);
    crate::tree::lemma_subtree_unfold(g(m));
    assert(g(m).messages =~= m.messages.map_values(g));
    lemma_sanitized_forest_prefix(m.messages, keywords, m.messages.len());
    assert(m.messages.take(m.messages.len() as int) =~= m.messages);
    assert(m.messages.map_values(g).take(m.messages.len() as int) =~= m.messages.map_values(g));
    assert(crate::tree::subtree(g(m)) =~= crate::tree::subtree(m).map_values(g));
}

/// Sanitizing names keeps every message in its place in the forest of the
/// first `n` messages.
pub proof fn lemma_sanitized_forest_prefix(messages: Seq<MessageView>, keywords: Seq<Seq<char>>, n: nat)
    requires
        n <= messages.len(),
    ensures
        crate::tree::forest(
            messages.map_values(|x: MessageView| sanitized_message(x, keywords)).take(n as int),
        ) == crate::tree::forest(messages.take(n as int)).map_values(
            |x: MessageView| sanitized_message(x, keywords),
        ),
    decreases messages, n,
{
    let g = |x: MessageView| sanitized_message(x, keywords);
    let after = messages.map_values(g);
    if n == 0 {
        assert(after.take(0).map_values(|m: MessageView| crate::tree::subtree(m)) =~= Seq::<
            Seq<MessageView>,
        >::empty());
        assert(messages.take(0).map_values(|m: MessageView| crate::tree::subtree(m)) =~= Seq::<
            Seq<MessageView>,
        >::empty());
        assert(crate::tree::forest(after.take(0)) =~= crate::tree::forest(
            messages.take(0),
        ).map_values(g));
    } else {
        let i = (n - 1) as int;
        lemma_sanitized_forest_prefix(messages, keywords, (n - 1) as nat);
        lemma_sanitized_subtree(messages[i], keywords);
        crate::tree::lemma_forest_step(messages, i);
        crate::tree::lemma_forest_step(after, i);
        assert(crate::tree::forest(after.take(n as int)) =~= crate::tree::forest(
            messages.take(n as int),
        ).map_values(g));
    }
}

/// Sanitizing names leaves a file in which every message has a finite size
/// in memory so.
pub proof fn lemma_sanitized_keeps_layout(d: DescView, keywords: Seq<Seq<char>>)
    requires
        d.has_finite_layout(),
    ensures
        d.with_sanitized_names(keywords).has_finite_layout(),
{
    let g = |x: MessageView| sanitized_message(x, keywords);
    let before = crate::tree::forest(d.messages);
    let after = crate::tree::forest(d.with_sanitized_names(keywords).messages);
    lemma_sanitized_forest_prefix(d.messages, keywords, d.messages.len());
    assert(d.messages.take(d.messages.len() as int) =~= d.messages);
    assert(d.messages.map_values(g).take(d.messages.len() as int) =~= d.messages.map_values(g));
    assert(after == before.map_values(g));
    assert forall|w: Seq<int>| !crate::cycles::solid_cycle(after, w) by {
        if crate::cycles::solid_cycle(after, w) {
            assert forall|i: int| 0 <= i < w.len() - 1 implies crate::cycles::solid_link(
                before,
                #[trigger] w[i],
                w[i + 1],
            ) by {
                let a = w[i];
                let b = w[i + 1];
                assert(crate::cycles::solid_link(after, a, b));
                let j = choose|j: int|
                    0 <= j < after[a].all_fields().len() && (
                    #[trigger] after[a].all_fields()[j]).typ == crate::model::TypeView::Message(
                        after[b].index,
                    ) && crate::cycles::is_solid(after[a].all_fields()[j]);
                lemma_sanitized_fields(before[a], keywords);
                lemma_sanitized_fields(before[b], keywords);
                let f = before[a].all_fields()[j];
                assert(f.typ == crate::model::TypeView::Message(before[b].index));
                assert(crate::cycles::is_solid(f));
            }
            assert(crate::cycles::solid_cycle(before, w));
        }
    }
}

/// The words that the generated code cannot use as names, in the order in
/// which `rust_keywords` gives them.
pub open spec fn keyword_list() -> Seq<Seq<char>> {
    Seq::<Seq<char>>::empty().push("abstract"@).push("alignof"@).push("as"@).push("become"@).push("box"@).push("break"@).push("const"@).push("continue"@).push("crate"@).push("do"@).push("else"@).push("enum"@).push("extern"@).push("false"@).push("final"@).push("fn"@).push("for"@).push("if"@).push("impl"@).push("in"@).push("let"@).push("loop"@).push("macro"@).push("match"@).push("mod"@).push("move"@).push("mut"@).push("offsetof"@).push("override"@).push("priv"@).push("proc"@).push("pub"@).push("pure"@).push("ref"@).push("return"@).push("Self"@).push("self"@).push("sizeof"@).push("static"@).push("struct"@).push("super"@).push("trait"@).push("true"@).push("type"@).push("typeof"@).push("unsafe"@).push("unsized"@).push("use"@).push("virtual"@).push("where"@).push("while"@).push("yield"@)
}

/// Adds a word to a list of words.
fn push_word(words: &mut Vec<String>, word: &str)
    ensures
        strings_view(final(words)@) == strings_view(old(words)@).push(word@),
{
    words.push(String::from_str(word));
    assert(strings_view(words@) =~= strings_view(old(words)@).push(word@));
}

/// The words that the generated code cannot use as names: the keywords of
/// the target language, those in use and those set aside.
pub fn rust_keywords() -> (r: Vec<String>)
    ensures
        strings_view(r@) == keyword_list(),
{
    let mut words: Vec<String> = Vec::new();
    assert(strings_view(words@) =~= Seq::<Seq<char>>::empty());
    push_word(&mut words, "abstract");
    push_word(&mut words, "alignof");
    push_word(&mut words, "as");
    push_word(&mut words, "become");
    push_word(&mut words, "box");
    push_word(&mut words, "break");
    push_word(&mut words, "const");
    push_word(&mut words, "continue");
    push_word(&mut words, "crate");
    push_word(&mut words, "do");
    push_word(&mut words, "else");
    push_word(&mut words, "enum");
    push_word(&mut words, "extern");
    push_word(&mut words, "false");
    push_word(&mut words, "final");
    push_word(&mut words, "fn");
    push_word(&mut words, "for");
    push_word(&mut words, "if");
    push_word(&mut words, "impl");
    push_word(&mut words, "in");
    push_word(&mut words, "let");
    push_word(&mut words, "loop");
    push_word(&mut words, "macro");
    push_word(&mut words, "match");
    push_word(&mut words, "mod");
    push_word(&mut words, "move");
    push_word(&mut words, "mut");
    push_word(&mut words, "offsetof");
    push_word(&mut words, "override");
    push_word(&mut words, "priv");
    push_word(&mut words, "proc");
    push_word(&mut words, "pub");
    push_word(&mut words, "pure");
    push_word(&mut words, "ref");
    push_word(&mut words, "return");
    push_word(&mut words, "Self");
    push_word(&mut words, "self");
    push_word(&mut words, "sizeof");
    push_word(&mut words, "static");
    push_word(&mut words, "struct");
    push_word(&mut words, "super");
    push_word(&mut words, "trait");
    push_word(&mut words, "true");
    push_word(&mut words, "type");
    push_word(&mut words, "typeof");
    push_word(&mut words, "unsafe");
    push_word(&mut words, "unsized");
    push_word(&mut words, "use");
    push_word(&mut words, "virtual");
    push_word(&mut words, "where");
    push_word(&mut words, "while");
    push_word(&mut words, "yield");
    words
}

/// Makes a dotted name one that the generated code can use.
pub fn sanitize_keyword(ident: &mut String, keywords: &Vec<String>)
    ensures
        final(ident)@ == sanitized_name(old(ident)@, strings_view(keywords@)),
{
    let parts = split_at_dots(ident.as_str());
    let ghost kw = strings_view(keywords@);
    let ghost raw = split_dots(ident@);
    let ghost mapped = raw.map_values(|p: Seq<char>| escaped(p, kw));
    let mut out = String::from_str("");
    proof {
        reveal_strlit("");
        reveal_strlit(".");
        assert(""@ =~= Seq::<char>::empty());
        assert("."@ =~= seq!['.']);
        assert(mapped.take(0) =~= Seq::<Seq<char>>::empty());
        assert(raw.len() == parts@.len());
    }
    let n = parts.len();
    let mut i: usize = 0;
    while i < n
        invariant
            i <= n,
            n == parts@.len(),
            n == mapped.len(),
            strings_view(parts@) == raw,
            kw == strings_view(keywords@),
            mapped == raw.map_values(|p: Seq<char>| escaped(p, kw)),
            out@ == join_dots(mapped.take(i as int)),
        decreases n - i,
    {
        let ghost before = out@;
        proof {
            assert(raw[i as int] == parts@[i as int]@);
            assert(mapped.take(i as int + 1).drop_last() =~= mapped.take(i as int));
            assert(mapped.take(i as int + 1).last() == escaped(raw[i as int], kw));
            assert(before =~= Seq::<char>::empty() + before);
        }
        if i > 0 {
            out.append(".");
        }
        out.append(parts[i].as_str());
        if holds_name(keywords, &parts[i]) {
            out.append("_pb");
        }
        proof {
            reveal_strlit(".");
            assert("."@ =~= seq!['.']);
            let piece = escaped(raw[i as int], kw);
            if i > 0 {
                assert(out@ =~= before + seq!['.'] + piece);
            } else {
                assert(out@ =~= piece);
            }
        }
        i += 1;
    }
    proof {
        assert(mapped.take(n as int) =~= mapped);
    }
    *ident = out;
}

/// Makes the names of a list of fields ones that the generated code can use.
pub fn sanitize_field_names(fields: &mut Vec<Field>, keywords: &Vec<String>)
    ensures
        fields_view(final(fields)@) == sanitized_fields(
            fields_view(old(fields)@),
            strings_view(keywords@),
        ),
{
    let ghost kw = strings_view(keywords@);
    let n = fields.len();
    let mut i: usize = 0;
    while i < n
        invariant
            i <= n,
            fields.len() == n,
            old(fields).len() == n,
            kw == strings_view(keywords@),
            forall|j: int|
                0 <= j < i ==> fields@[j]@ == (FieldView {
                    name: sanitized_name((#[trigger] old(fields)@[j])@.name, kw),
                    ..old(fields)@[j]@
                }),
            forall|j: int| i <= j < n ==> fields@[j] == #[trigger] old(fields)@[j],
        decreases n - i,
    {
        sanitize_keyword(&mut fields[i].name, keywords);
        i += 1;
    }
    assert(fields_view(fields@) =~= sanitized_fields(fields_view(old(fields)@), kw));
}

impl Enumerator {
    /// Makes the names of the enum ones that the generated code can use.
    pub fn sanitize_names(&mut self, keywords: &Vec<String>)
        ensures
            final(self)@ == sanitized_enum(old(self)@, strings_view(keywords@)),
    {
        let ghost kw = strings_view(keywords@);
        sanitize_keyword(&mut self.name, keywords);
        sanitize_keyword(&mut self.package, keywords);
        let ghost before = *self;
        let n = self.fields.len();
        let mut i: usize = 0;
        while i < n
            invariant
                i <= n,
                self.fields.len() == n,
                old(self).fields.len() == n,
                kw == strings_view(keywords@),
                forall|j: int|
                    0 <= j < i ==> (#[trigger] self.fields@[j]).name@ == sanitized_name(
                        old(self).fields@[j].name@,
                        kw,
                    ) && self.fields@[j].tag == old(self).fields@[j].tag
                        && self.fields@[j].attributes == old(self).fields@[j].attributes,
                forall|j: int| i <= j < n ==> self.fields@[j] == #[trigger] old(self).fields@[j],
                *self == (Enumerator { fields: self.fields, ..before }),
            decreases n - i,
        {
            sanitize_keyword(&mut self.fields[i].name, keywords);
            i += 1;
        }
        assert(self@.fields =~= sanitized_enum(old(self)@, kw).fields);
        assert(self@.variant_attributes =~= old(self)@.variant_attributes);
    }
}

impl OneOf {
    /// Makes the names of the oneof ones that the generated code can use.
    pub fn sanitize_names(&mut self, keywords: &Vec<String>)
        ensures
            final(self)@ == sanitized_oneof(old(self)@, strings_view(keywords@)),
    {
        sanitize_keyword(&mut self.name, keywords);
        sanitize_keyword(&mut self.package, keywords);
        sanitize_field_names(&mut self.fields, keywords);
    }
}

impl Message {
    /// Makes the names of the message, of its fields and of all that is
    /// nested in it ones that the generated code can use.
    pub fn sanitize_names(&mut self, keywords: &Vec<String>)
        ensures
            final(self)@ == sanitized_message(old(self)@, strings_view(keywords@)),
        decreases *old(self),
    {
        let ghost kw = strings_view(keywords@);
        sanitize_keyword(&mut self.name, keywords);
        sanitize_keyword(&mut self.package, keywords);
        sanitize_field_names(&mut self.fields, keywords);
        let ghost before = *self;
        let n = self.messages.len();
        let mut i: usize = 0;
        while i < n
            invariant
                i <= n,
                self.messages.len() == n,
                old(self).messages.len() == n,
                kw == strings_view(keywords@),
                forall|j: int|
                    0 <= j < i ==> self.messages@[j]@ == sanitized_message(
                        (#[trigger] old(self).messages@[j])@,
                        kw,
                    ),
                forall|j: int| i <= j < n ==> self.messages@[j] == #[trigger] old(self).messages@[j],
                *self == (Message { messages: self.messages, ..before }),
            decreases n - i,
        {
            proof {
                assert(self.messages@[i as int] == old(self).messages@[i as int]);
                assert(decreases_to!(old(self).messages => old(self).messages[i as int]));
            }
            self.messages[i].sanitize_names(keywords);
            i += 1;
        }
        let ghost middle = *self;
        let k = self.enums.len();
        let mut j: usize = 0;
        while j < k
            invariant
                j <= k,
                self.enums.len() == k,
                middle.enums.len() == k,
                kw == strings_view(keywords@),
                forall|x: int|
                    0 <= x < j ==> self.enums@[x]@ == sanitized_enum(
                        (#[trigger] middle.enums@[x])@,
                        kw,
                    ),
                forall|x: int| j <= x < k ==> self.enums@[x] == #[trigger] middle.enums@[x],
                *self == (Message { enums: self.enums, ..middle }),
            decreases k - j,
        {
            self.enums[j].sanitize_names(keywords);
            j += 1;
        }
        let ghost late = *self;
        let c = self.oneofs.len();
        let mut x: usize = 0;
        while x < c
            invariant
                x <= c,
                self.oneofs.len() == c,
                late.oneofs.len() == c,
                kw == strings_view(keywords@),
                forall|y: int|
                    0 <= y < x ==> self.oneofs@[y]@ == sanitized_oneof(
                        (#[trigger] late.oneofs@[y])@,
                        kw,
                    ),
                forall|y: int| x <= y < c ==> self.oneofs@[y] == #[trigger] late.oneofs@[y],
                *self == (Message { oneofs: self.oneofs, ..late }),
            decreases c - x,
        {
            self.oneofs[x].sanitize_names(keywords);
            x += 1;
        }
        proof {
            lemma_nested_views(*self);
            lemma_nested_views(*old(self));
            let want = sanitized_message(old(self)@, kw);
            assert(self@.messages =~= want.messages);
            assert(self@.enums =~= want.enums);
            assert(self@.oneofs =~= want.oneofs);
        }
    }
}

impl FileDescriptor {
    /// Makes the names of all messages and enums of the file ones that the
    /// generated code can use.
    pub fn sanitize_names(&mut self, keywords: &Vec<String>)
        ensures
            final(self)@ == old(self)@.with_sanitized_names(strings_view(keywords@)),
    {
        let ghost kw = strings_view(keywords@);
        let ghost before = *self;
        let n = self.messages.len();
        let mut i: usize = 0;
        while i < n
            invariant
                i <= n,
                self.messages.len() == n,
                old(self).messages.len() == n,
                kw == strings_view(keywords@),
                forall|j: int|
                    0 <= j < i ==> self.messages@[j]@ == sanitized_message(
                        (#[trigger] old(self).messages@[j])@,
                        kw,
                    ),
                forall|j: int| i <= j < n ==> self.messages@[j] == #[trigger] old(self).messages@[j],
                *self == (FileDescriptor { messages: self.messages, ..before }),
                before == *old(self),
            decreases n - i,
        {
            self.messages[i].sanitize_names(keywords);
            i += 1;
        }
        let ghost middle = *self;
        let k = self.enums.len();
        let mut j: usize = 0;
        while j < k
            invariant
                j <= k,
                self.enums.len() == k,
                middle.enums.len() == k,
                kw == strings_view(keywords@),
                forall|x: int|
                    0 <= x < j ==> self.enums@[x]@ == sanitized_enum(
                        (#[trigger] middle.enums@[x])@,
                        kw,
                    ),
                forall|x: int| j <= x < k ==> self.enums@[x] == #[trigger] middle.enums@[x],
                *self == (FileDescriptor { enums: self.enums, ..middle }),
            decreases k - j,
        {
            self.enums[j].sanitize_names(keywords);
            j += 1;
        }
        proof {
            let want = old(self)@.with_sanitized_names(kw);
            assert(self@.messages =~= want.messages);
            assert(self@.enums =~= want.enums);
        }
    }
}

} // verus!
