//! Name resolution: every message and enum gets its identity, the symbol
//! table is built from them, and each type name in a field is replaced by the
//! message or enum that it stands for.

use vstd::prelude::*;
use crate::errors::Error;
use crate::model::{
    DescView, EnumIndex, EnumPath, Enumerator, EnumeratorView, Field, FieldView, FileDescriptor,
    Message, MessageIndex, MessageView, OneOfView, TypeView, enums_view, lemma_nested_views,
    messages_view,
};
use crate::passes::{
    FieldPass, Owner, PassView, lemma_rewrite_all_fields, lemma_rewrite_forest, rewrite_all_messages,
    rewrite_message, rewrite_messages,
};
use crate::symbols::{
    SymbolTable, SymbolsView, candidate_names, first_named, lemma_first_named_entry,
    lemma_first_named_exists, lemma_lookup_first_at, lemma_resolved_type,
    lemma_resolved_type_stays, named_enums_view, named_messages_view,
};
use crate::index::{descend, enum_at, message_at};
use crate::lifetime::lemma_message_in_forest;
use crate::packages::{merged_message, or_given};
use crate::text::{dotted, full_name, join_dotted, qualify};
use crate::tree::{
    field_refs_view, forest, lemma_forest_step, lemma_subtree_unfold, message_refs_view, subtree,
};

verus! {

/// The enums of a list, each with the identity that its place in the list
/// of the message at `holder` gives it.
pub open spec fn indexed_enums(enums: Seq<EnumeratorView>, holder: Seq<usize>) -> Seq<
    EnumeratorView,
> {
    Seq::new(
        enums.len(),
        |i: int| EnumeratorView { index: EnumPath { msg: holder, index: i as usize }, ..enums[i] },
    )
}

/// The message `m` placed at `path`: it, its enums and the messages nested
/// in it carry the identities that follow from the path.
pub open spec fn indexed_message(m: MessageView, path: Seq<usize>) -> MessageView
    decreases m,
{
    MessageView {
        index: path,
        enums: indexed_enums(m.enums, path),
        messages: Seq::new(
            m.messages.len(),
            |i: int|
                if 0 <= i < m.messages.len() {
                    indexed_message(m.messages[i], path.push(i as usize))
                } else {
                    arbitrary()
                },
        ),
        ..m
    }
}

/// The messages of a list that stands at `prefix`, each placed at its path.
pub open spec fn indexed_messages(messages: Seq<MessageView>, prefix: Seq<usize>) -> Seq<
    MessageView,
> {
    Seq::new(messages.len(), |i: int| indexed_message(messages[i], prefix.push(i as usize)))
}

/// The symbols that the enums nested in one message give.
pub open spec fn nested_enum_symbols(enums: Seq<EnumeratorView>) -> Seq<(Seq<char>, EnumPath)> {
    enums.map_values(|e: EnumeratorView| (dotted(e.package, e.name), e.index))
}

/// The first reference among `fields`, the fields of `owner`, that stands
/// for nothing.
pub open spec fn missing_in_fields(symbols: SymbolsView, owner: Owner, fields: Seq<FieldView>) -> Option<
    Seq<char>,
>
    decreases fields.len(),
{
    if fields.len() == 0 {
        None
    } else {
        match symbols.missing_in_type(owner.package, owner.name, fields[0].typ) {
            Some(n) => Some(n),
            None => missing_in_fields(symbols, owner, fields.skip(1)),
        }
    }
}

/// The first reference in the fields of `messages`, taken in order, that
/// stands for nothing.
pub open spec fn missing_in_messages(symbols: SymbolsView, messages: Seq<MessageView>) -> Option<
    Seq<char>,
>
    decreases messages.len(),
{
    if messages.len() == 0 {
        None
    } else {
        match missing_in_fields(symbols, messages[0].owner(), messages[0].all_fields()) {
            Some(n) => Some(n),
            None => missing_in_messages(symbols, messages.skip(1)),
        }
    }
}

impl DescView {
    /// The file with every message and enum carrying the identity that its
    /// place gives it.
    pub open spec fn indexed(self) -> DescView {
        DescView {
            messages: indexed_messages(self.messages, Seq::empty()),
            enums: indexed_enums(self.enums, Seq::empty()),
            ..self
        }
    }

    /// The fully-qualified names of all messages of the file, in declaration
    /// order, each with the identity that the message carries.
    pub open spec fn message_symbols(self) -> Seq<(Seq<char>, Seq<usize>)> {
        forest(self.messages).map_values(
            |m: MessageView| (full_name(m.package, m.name), m.index),
        )
    }

    /// The fully-qualified names of all enums of the file: those nested in
    /// messages, in declaration order, then the file's own.
    pub open spec fn enum_symbols(self) -> Seq<(Seq<char>, EnumPath)> {
        forest(self.messages).map_values(|m: MessageView| nested_enum_symbols(m.enums)).flatten()
            + self.enums.map_values(|e: EnumeratorView| (full_name(e.package, e.name), e.index))
    }

    /// The symbol table of the file.
    pub open spec fn symbols(self) -> SymbolsView {
        SymbolsView { messages: self.message_symbols(), enums: self.enum_symbols() }
    }

    /// The first type name, in declaration order, that stands for nothing.
    pub open spec fn first_missing(self) -> Option<Seq<char>> {
        missing_in_messages(self.symbols(), forest(self.messages))
    }

    /// The file with every type name replaced by what it stands for.
    pub open spec fn resolved(self) -> DescView {
        DescView {
            messages: rewrite_messages(PassView::Resolve(self.symbols()), self.messages),
            ..self
        }
    }

    /// Whether no field of a message of the file, nor the key or value of a
    /// map field, is still a name.
    pub open spec fn is_resolved(self) -> bool {
        forall|k: int, j: int|
            0 <= k < forest(self.messages).len() && 0 <= j < forest(
                self.messages,
            )[k].all_fields().len() ==> !(#[trigger] forest(
                self.messages,
            )[k].all_fields()[j]).typ.has_unresolved()
    }
}

/// Where no reference is missing among the fields, none is missing in any
/// of them.
pub proof fn lemma_none_missing_in_fields(symbols: SymbolsView, owner: Owner, fields: Seq<FieldView>)
    requires
        missing_in_fields(symbols, owner, fields) is None,
    ensures
        forall|j: int|
            0 <= j < fields.len() ==> symbols.missing_in_type(
                owner.package,
                owner.name,
                (#[trigger] fields[j]).typ,
            ) is None,
    decreases fields.len(),
{
    if fields.len() > 0 {
        lemma_none_missing_in_fields(symbols, owner, fields.skip(1));
        assert forall|j: int| 0 <= j < fields.len() implies symbols.missing_in_type(
            owner.package,
            owner.name,
            (#[trigger] fields[j]).typ,
        ) is None by {
            if j > 0 {
                assert(fields[j] == fields.skip(1)[j - 1]);
            }
        }
    }
}

/// Where no reference is missing among the messages, none is missing in
/// any of them.
pub proof fn lemma_none_missing_in_messages(symbols: SymbolsView, messages: Seq<MessageView>)
    requires
        missing_in_messages(symbols, messages) is None,
    ensures
        forall|k: int|
            0 <= k < messages.len() ==> missing_in_fields(
                symbols,
                (#[trigger] messages[k]).owner(),
                messages[k].all_fields(),
            ) is None,
    decreases messages.len(),
{
    if messages.len() > 0 {
        lemma_none_missing_in_messages(symbols, messages.skip(1));
        assert forall|k: int| 0 <= k < messages.len() implies missing_in_fields(
            symbols,
            (#[trigger] messages[k]).owner(),
            messages[k].all_fields(),
        ) is None by {
            if k > 0 {
                assert(messages[k] == messages.skip(1)[k - 1]);
            }
        }
    }
}

/// Resolution is total: in a file whose type names all stand for a declared
/// message or enum, no name is left in any field once the file is resolved.
pub proof fn lemma_resolution_total(d: DescView)
    requires
        d.first_missing() is None,
    ensures
        d.resolved().is_resolved(),
{
    let pass = PassView::Resolve(d.symbols());
    let before = forest(d.messages);
    let after = forest(d.resolved().messages);
    lemma_rewrite_forest(pass, d.messages);
    lemma_none_missing_in_messages(d.symbols(), before);
    assert forall|k: int, j: int|
        0 <= k < after.len() && 0 <= j < after[k].all_fields().len() implies !(
    #[trigger] after[k].all_fields()[j]).typ.has_unresolved() by {
        let m = before[k];
        assert(after[k] == rewrite_message(pass, m));
        lemma_rewrite_all_fields(pass, m);
        lemma_none_missing_in_fields(d.symbols(), m.owner(), m.all_fields());
        let f = m.all_fields()[j];
        lemma_resolved_type(d.symbols(), m.owner().package, m.owner().name, f.typ);
    }
}

/// Resolution changes nothing but the types of fields. The file keeps its
/// enums and all that it holds beside its messages; every message stays in
/// its place and keeps all but its fields, those of its oneofs and the
/// messages nested in it; every field keeps all but its type, which
/// becomes what the symbol table of the file gives for it in the scope of
/// the message, and a field whose type holds no name is as it was.
pub proof fn lemma_resolution_changes_types_only(d: DescView)
    ensures
        d.resolved() == (DescView { messages: d.resolved().messages, ..d }),
        d.resolved().messages.len() == d.messages.len(),
        forest(d.resolved().messages).len() == forest(d.messages).len(),
        forall|k: int|
            0 <= k < forest(d.messages).len() ==> {
                let m = forest(d.messages)[k];
                let r = #[trigger] forest(d.resolved().messages)[k];
                &&& r == (MessageView {
                    fields: r.fields,
                    oneofs: r.oneofs,
                    messages: r.messages,
                    ..m
                })
                &&& r.fields.len() == m.fields.len()
                &&& r.oneofs.len() == m.oneofs.len()
                &&& r.messages.len() == m.messages.len()
                &&& r.all_fields().len() == m.all_fields().len()
                &&& forall|o: int|
                    0 <= o < m.oneofs.len() ==> #[trigger] r.oneofs[o] == (OneOfView {
                        fields: r.oneofs[o].fields,
                        ..m.oneofs[o]
                    })
            },
        forall|k: int, j: int|
            0 <= k < forest(d.messages).len() && 0 <= j < forest(d.messages)[k].all_fields().len()
                ==> {
                let m = forest(d.messages)[k];
                let f = m.all_fields()[j];
                let g = #[trigger] forest(d.resolved().messages)[k].all_fields()[j];
                &&& g == (FieldView {
                    typ: d.symbols().resolve_type(m.package, m.name, f.typ),
                    ..f
                })
                &&& !f.typ.has_unresolved() ==> g == f
            },
{
    let pass = PassView::Resolve(d.symbols());
    let before = forest(d.messages);
    let after = forest(d.resolved().messages);
    lemma_rewrite_forest(pass, d.messages);
    assert forall|k: int| 0 <= k < before.len() implies {
        let m = before[k];
        let r = #[trigger] after[k];
        &&& r == (MessageView { fields: r.fields, oneofs: r.oneofs, messages: r.messages, ..m })
        &&& r.fields.len() == m.fields.len()
        &&& r.oneofs.len() == m.oneofs.len()
        &&& r.messages.len() == m.messages.len()
        &&& r.all_fields().len() == m.all_fields().len()
        &&& forall|o: int|
            0 <= o < m.oneofs.len() ==> #[trigger] r.oneofs[o] == (OneOfView {
                fields: r.oneofs[o].fields,
                ..m.oneofs[o]
            })
    } by {
        assert(after[k] == rewrite_message(pass, before[k]));
        lemma_rewrite_all_fields(pass, before[k]);
    }
    assert forall|k: int, j: int|
        0 <= k < before.len() && 0 <= j < before[k].all_fields().len() implies {
        let m = before[k];
        let f = m.all_fields()[j];
        let g = #[trigger] after[k].all_fields()[j];
        &&& g == (FieldView { typ: d.symbols().resolve_type(m.package, m.name, f.typ), ..f })
        &&& !f.typ.has_unresolved() ==> g == f
    } by {
        let m = before[k];
        let f = m.all_fields()[j];
        assert(after[k] == rewrite_message(pass, m));
        lemma_rewrite_all_fields(pass, m);
        if !f.typ.has_unresolved() {
            lemma_resolved_type_stays(d.symbols(), m.package, m.name, f.typ);
        }
    }
}

/// A reference to an imported message leads to it. Let a file be merged
/// with the file `other` that it imports, let `name` be written as the type
/// of a field of one of its messages, and let the full name of message `i`
/// of `other` be the first of the names tried for `name` that stands for
/// anything, and the full name of no other message. Then resolution makes
/// the type of that field the identity of the imported message, and under
/// that identity the resolved file holds a message of the same name, in the
/// package of the file it came from unless it has one of its own, marked
/// as imported.
pub proof fn lemma_imported_reference_resolves(
    own: DescView,
    other: DescView,
    file: Seq<char>,
    import: Seq<char>,
    i: int,
    k: int,
    j: int,
    name: Seq<char>,
    c: int,
)
    requires
        own.messages.len() + other.messages.len() <= usize::MAX,
        0 <= i < other.messages.len(),
        ({
            let merged = own.with_import(other, file, import).indexed();
            let all = forest(merged.messages);
            let target = merged_message(other.messages[i], other.package, other.module, file, import);
            let wanted = full_name(target.package, target.name);
            &&& 0 <= k < all.len()
            &&& 0 <= j < all[k].all_fields().len()
            &&& all[k].all_fields()[j].typ == TypeView::MessageOrEnum(name)
            &&& 0 <= c < candidate_names(all[k].package, all[k].name, name).len()
            &&& candidate_names(all[k].package, all[k].name, name)[c] == wanted
            &&& forall|b: int|
                0 <= b < c ==> merged.symbols().lookup(
                    #[trigger] candidate_names(all[k].package, all[k].name, name)[b],
                ) is None
            &&& forall|q: int|
                0 <= q < all.len() && full_name(all[q].package, all[q].name) == wanted
                    ==> (#[trigger] all[q]).index == seq![(own.messages.len() + i) as usize]
        }),
    ensures
        ({
            let done = own.with_import(other, file, import).indexed().resolved();
            let path = seq![(own.messages.len() + i) as usize];
            &&& forest(done.messages)[k].all_fields()[j].typ == TypeView::Message(path)
            &&& done.has_message(path)
            &&& done.message(path).index == path
            &&& done.message(path).name == other.messages[i].name
            &&& done.message(path).package == or_given(other.messages[i].package, other.package)
            &&& done.message(path).imported
        }),
{
    let joined = own.with_import(other, file, import);
    let merged = joined.indexed();
    let done = merged.resolved();
    let all = forest(merged.messages);
    let n = own.messages.len() + i;
    let path = seq![n as usize];
    let target = merged_message(other.messages[i], other.package, other.module, file, import);
    let wanted = full_name(target.package, target.name);
    let entry = merged.messages[n];
    assert(joined.messages[n] == target);
    assert(Seq::<usize>::empty().push(n as usize) =~= path);
    assert(entry == indexed_message(target, path));
    assert(path.skip(1).len() == 0);
    assert(message_at(merged.messages, path) == Some(entry));
    lemma_message_in_forest(merged.messages, path);
    let q0 = choose|q: int| 0 <= q < all.len() && all[q] == entry;
    let table = merged.message_symbols();
    assert(table[q0].0 == wanted);
    lemma_first_named_exists(table, wanted);
    lemma_first_named_entry(table, wanted);
    let q = choose|q: int|
        0 <= q < table.len() && (#[trigger] table[q]).0 == wanted && table[q].1 == first_named(
            table,
            wanted,
        )->0;
    assert(all[q].index == path);
    assert(merged.symbols().lookup(wanted) == Some(TypeView::Message(path)));
    let names = candidate_names(all[k].package, all[k].name, name);
    lemma_lookup_first_at(merged.symbols(), names, c);
    lemma_resolution_changes_types_only(merged);
    let pass = PassView::Resolve(merged.symbols());
    assert(done.messages[n] == rewrite_message(pass, entry));
    assert(message_at(done.messages, path) == Some(done.messages[n]));
}

/// Whether a message, and every message nested in it, holds no more
/// messages and enums than a machine word counts.
pub open spec fn is_countable(m: MessageView) -> bool
    decreases m,
{
    &&& m.messages.len() <= usize::MAX
    &&& m.enums.len() <= usize::MAX
    &&& forall|i: int| 0 <= i < m.messages.len() ==> is_countable(#[trigger] m.messages[i])
}

/// Every message that a program holds is countable.
pub proof fn lemma_message_is_countable(m: Message)
    ensures
        is_countable(m@),
    decreases m,
{
    assert(m@.messages.len() == m.messages.len());
    assert(m@.enums.len() == m.enums.len());
    assert forall|i: int| 0 <= i < m@.messages.len() implies is_countable(
        #[trigger] m@.messages[i],
    ) by {
        assert(m@.messages[i] == m.messages@[i]@);
        lemma_message_is_countable(m.messages@[i]);
    }
}

/// The message found under a path carries the path as its identity, and
/// its enums carry the path and their places.
pub proof fn lemma_descend_indexed(m: MessageView, place: Seq<usize>, rest: Seq<usize>)
    requires
        descend(indexed_message(m, place), rest) is Some,
    ensures
        descend(indexed_message(m, place), rest)->0.index == place + rest,
        forall|e: int|
            0 <= e < descend(indexed_message(m, place), rest)->0.enums.len() ==> (#[trigger] descend(
                indexed_message(m, place),
                rest,
            )->0.enums[e]).index == (EnumPath { msg: place + rest, index: e as usize }),
    decreases rest.len(),
{
    if rest.len() == 0 {
        assert(place + rest =~= place);
    } else {
        let i = rest[0] as int;
        lemma_descend_indexed(m.messages[i], place.push(rest[0]), rest.skip(1));
        assert(place.push(rest[0]) + rest.skip(1) =~= place + rest);
    }
}

/// A message of a forest is in the subtree of one of the first `upto`
/// messages.
pub proof fn lemma_forest_member(messages: Seq<MessageView>, upto: int, x: MessageView)
    requires
        0 <= upto <= messages.len(),
        forest(messages.take(upto)).contains(x),
    ensures
        exists|i: int| 0 <= i < upto && #[trigger] subtree(messages[i]).contains(x),
    decreases upto,
{
    if upto == 0 {
        assert(messages.take(0).map_values(|m: MessageView| subtree(m)) =~= Seq::<
            Seq<MessageView>,
        >::empty());
        assert(forest(messages.take(0)) =~= Seq::<MessageView>::empty());
    } else {
        lemma_forest_step(messages, upto - 1);
        let before = forest(messages.take(upto - 1));
        let now = forest(messages.take(upto));
        let at = choose|at: int| 0 <= at < now.len() && now[at] == x;
        if at < before.len() {
            assert(before[at] == x);
            lemma_forest_member(messages, upto - 1, x);
        } else {
            assert(subtree(messages[upto - 1])[at - before.len()] == x);
            assert(subtree(messages[upto - 1]).contains(x));
        }
    }
}

/// The identity of a message in the subtree of a message placed at `place`
/// is a path that leads from `place` to that message.
pub proof fn lemma_subtree_leads_back(m: MessageView, place: Seq<usize>, x: MessageView)
    requires
        is_countable(m),
        subtree(indexed_message(m, place)).contains(x),
    ensures
        exists|rest: Seq<usize>|
            x.index == place + rest && #[trigger] descend(indexed_message(m, place), rest) == Some(
                x,
            ),
    decreases m,
{
    let top = indexed_message(m, place);
    lemma_subtree_unfold(top);
    if x == top {
        let rest = Seq::<usize>::empty();
        assert(place + rest =~= place);
        assert(descend(top, rest) == Some(x));
    } else {
        let whole = subtree(top);
        let at = choose|at: int| 0 <= at < whole.len() && whole[at] == x;
        assert(forest(top.messages)[at - 1] == x);
        assert(top.messages.take(top.messages.len() as int) =~= top.messages);
        lemma_forest_member(top.messages, top.messages.len() as int, x);
        let i = choose|i: int|
            0 <= i < top.messages.len() && #[trigger] subtree(top.messages[i]).contains(x);
        let below = place.push(i as usize);
        assert(top.messages[i] == indexed_message(m.messages[i], below));
        lemma_subtree_leads_back(m.messages[i], below, x);
        let tail = choose|tail: Seq<usize>|
            x.index == below + tail && #[trigger] descend(indexed_message(m.messages[i], below), tail)
                == Some(x);
        let rest = seq![i as usize] + tail;
        assert(rest.skip(1) =~= tail);
        assert(below + tail =~= place + rest);
        assert(descend(top, rest) == Some(x));
    }
}

/// Every identity leads back to its own declaration: once the messages and
/// enums of a file carry their identities, the message found under the
/// identity of a message of the file, at any depth, is that message, the
/// message found under a path carries the path, and the enum found under
/// the identity of an enum of the file or of one of its messages is that
/// enum.
pub proof fn lemma_identities_lead_back(d: FileDescriptor)
    ensures
        forall|k: int|
            0 <= k < forest(d@.indexed().messages).len() ==> message_at(
                d@.indexed().messages,
                (#[trigger] forest(d@.indexed().messages)[k]).index,
            ) == Some(forest(d@.indexed().messages)[k]),
        forall|path: Seq<usize>|
            #[trigger] d@.indexed().has_message(path) ==> d@.indexed().message(path).index == path,
        forall|e: int|
            0 <= e < d@.enums.len() ==> enum_at(
                d@.indexed(),
                (#[trigger] d@.indexed().enums[e]).index,
            ) == Some(d@.indexed().enums[e]),
        forall|k: int, e: int|
            0 <= k < forest(d@.indexed().messages).len() && 0 <= e < forest(
                d@.indexed().messages,
            )[k].enums.len() ==> enum_at(
                d@.indexed(),
                (#[trigger] forest(d@.indexed().messages)[k].enums[e]).index,
            ) == Some(forest(d@.indexed().messages)[k].enums[e]),
{
    let file = d@.indexed();
    let all = forest(file.messages);
    assert(d@.messages.len() == d.messages.len());
    assert(d@.enums.len() == d.enums.len());
    assert forall|k: int| 0 <= k < all.len() implies message_at(
        file.messages,
        (#[trigger] all[k]).index,
    ) == Some(all[k]) && (forall|e: int|
        0 <= e < all[k].enums.len() ==> enum_at(file, (#[trigger] all[k].enums[e]).index) == Some(
            all[k].enums[e],
        )) by {
        let x = all[k];
        assert(file.messages.take(file.messages.len() as int) =~= file.messages);
        lemma_forest_member(file.messages, file.messages.len() as int, x);
        let i = choose|i: int|
            0 <= i < file.messages.len() && #[trigger] subtree(file.messages[i]).contains(x);
        let place = seq![i as usize];
        assert(Seq::<usize>::empty().push(i as usize) =~= place);
        assert(d@.messages[i] == d.messages@[i]@);
        lemma_message_is_countable(d.messages@[i]);
        lemma_subtree_leads_back(d@.messages[i], place, x);
        let rest = choose|rest: Seq<usize>|
            x.index == place + rest && #[trigger] descend(
                indexed_message(d@.messages[i], place),
                rest,
            ) == Some(x);
        assert(x.index.skip(1) =~= rest);
        lemma_enums_are_countable(d@.messages[i], place, rest);
        lemma_descend_indexed(d@.messages[i], place, rest);
        assert forall|e: int| 0 <= e < x.enums.len() implies enum_at(
            file,
            (#[trigger] x.enums[e]).index,
        ) == Some(x.enums[e]) by {
            assert(x.enums[e].index == (EnumPath { msg: x.index, index: e as usize }));
        }
    }
    assert forall|path: Seq<usize>| #[trigger] file.has_message(path) implies file.message(
        path,
    ).index == path by {
        let i = path[0] as int;
        assert(Seq::<usize>::empty().push(path[0]) =~= seq![path[0]]);
        lemma_descend_indexed(d@.messages[i], seq![path[0]], path.skip(1));
        assert(seq![path[0]] + path.skip(1) =~= path);
    }
    assert forall|k: int, e: int|
        0 <= k < all.len() && 0 <= e < all[k].enums.len() implies enum_at(
        file,
        (#[trigger] all[k].enums[e]).index,
    ) == Some(all[k].enums[e]) by {
        assert(message_at(file.messages, all[k].index) == Some(all[k]));
    }
}

/// The message found under a path holds no more enums than a machine word
/// counts, if the message that the path starts from is countable.
pub proof fn lemma_enums_are_countable(m: MessageView, place: Seq<usize>, rest: Seq<usize>)
    requires
        is_countable(m),
        descend(indexed_message(m, place), rest) is Some,
    ensures
        descend(indexed_message(m, place), rest)->0.enums.len() <= usize::MAX,
    decreases rest.len(),
{
    if rest.len() > 0 {
        let i = rest[0] as int;
        lemma_enums_are_countable(m.messages[i], place.push(rest[0]), rest.skip(1));
    }
}

/// Gives every enum of a list its identity in the message at `holder`.
pub fn assign_enum_indexes(enums: &mut Vec<Enumerator>, holder: &MessageIndex)
    ensures
        enums_view(final(enums)@) == indexed_enums(enums_view(old(enums)@), holder@),
{
    let n = enums.len();
    let mut i: usize = 0;
    while i < n
        invariant
            i <= n,
            enums.len() == n,
            old(enums).len() == n,
            forall|j: int|
                0 <= j < i ==> enums@[j]@ == (EnumeratorView {
                    index: EnumPath { msg: holder@, index: j as usize },
                    ..(#[trigger] old(enums)@[j])@
                }),
            forall|j: int| i <= j < n ==> enums@[j] == #[trigger] old(enums)@[j],
        decreases n - i,
    {
        enums[i].index = EnumIndex { msg_index: holder.duplicate(), index: i };
        i += 1;
    }
    assert(enums_view(enums@) =~= indexed_enums(enums_view(old(enums)@), holder@));
}

impl Message {
    /// Places this message at `path`: it, its enums and the messages nested
    /// in it get the identities that follow from the path.
    pub fn assign_index(&mut self, path: &MessageIndex)
        ensures
            final(self)@ == indexed_message(old(self)@, path@),
        decreases *old(self),
    {
        self.index = path.duplicate();
        assign_enum_indexes(&mut self.enums, path);
        let ghost before = *self;
        let n = self.messages.len();
        let mut i: usize = 0;
        while i < n
            invariant
                i <= n,
                self.messages.len() == n,
                old(self).messages.len() == n,
                forall|j: int|
                    0 <= j < i ==> self.messages@[j]@ == indexed_message(
                        (#[trigger] old(self).messages@[j])@,
                        path@.push(j as usize),
                    ),
                forall|j: int| i <= j < n ==> self.messages@[j] == #[trigger] old(self).messages@[j],
                *self == (Message { messages: self.messages, ..before }),
            decreases n - i,
        {
            let mut child = path.duplicate();
            child.push(i);
            proof {
                assert(self.messages@[i as int] == old(self).messages@[i as int]);
                assert(decreases_to!(old(self).messages => old(self).messages[i as int]));
            }
            self.messages[i].assign_index(&child);
            i += 1;
        }
        proof {
            lemma_nested_views(*self);
            lemma_nested_views(*old(self));
            assert(self@.messages =~= indexed_message(old(self)@, path@).messages);
        }
    }
}

/// Places the messages of a list that stands at `prefix`.
pub fn assign_indexes(messages: &mut Vec<Message>, prefix: &MessageIndex)
    ensures
        messages_view(final(messages)@) == indexed_messages(messages_view(old(messages)@), prefix@),
{
    let n = messages.len();
    let mut i: usize = 0;
    while i < n
        invariant
            i <= n,
            messages.len() == n,
            old(messages).len() == n,
            forall|j: int|
                0 <= j < i ==> messages@[j]@ == indexed_message(
                    (#[trigger] old(messages)@[j])@,
                    prefix@.push(j as usize),
                ),
            forall|j: int| i <= j < n ==> messages@[j] == #[trigger] old(messages)@[j],
        decreases n - i,
    {
        let mut child = prefix.duplicate();
        child.push(i);
        messages[i].assign_index(&child);
        i += 1;
    }
    assert(messages_view(messages@) =~= indexed_messages(messages_view(old(messages)@), prefix@));
}

impl SymbolTable {
    /// The first reference among the fields of `m` that stands for nothing.
    pub fn missing_in_message(&self, m: &Message) -> (r: Option<String>)
        ensures
            r is Some <==> missing_in_fields(self@, m@.owner(), m@.all_fields()) is Some,
            r is Some ==> r->0@ == missing_in_fields(self@, m@.owner(), m@.all_fields())->0,
    {
        let fields = m.all_fields();
        let ghost all = m@.all_fields();
        let n = fields.len();
        let mut i: usize = 0;
        assert(all.skip(0) =~= all);
        assert(all.len() == n);
        while i < n
            invariant
                i <= n,
                n == fields.len(),
                n == all.len(),
                all == m@.all_fields(),
                field_refs_view(fields@) == all,
                missing_in_fields(self@, m@.owner(), all.skip(i as int)) == missing_in_fields(
                    self@,
                    m@.owner(),
                    all,
                ),
            decreases n - i,
        {
            proof {
                assert(all.skip(i as int)[0] == fields@[i as int]@);
                assert(all.skip(i as int).skip(1) =~= all.skip(i as int + 1));
            }
            match self.missing_in_type(&m.package, &m.name, &fields[i].typ) {
                Some(name) => {
                    return Some(name);
                },
                None => {},
            }
            i += 1;
        }
        None
    }

    /// The first reference in the fields of `messages`, taken in order, that
    /// stands for nothing.
    pub fn first_missing(&self, messages: &Vec<&Message>) -> (r: Option<String>)
        ensures
            r is Some <==> missing_in_messages(self@, message_refs_view(messages@)) is Some,
            r is Some ==> r->0@ == missing_in_messages(self@, message_refs_view(messages@))->0,
    {
        let ghost all = message_refs_view(messages@);
        let n = messages.len();
        let mut i: usize = 0;
        assert(all.skip(0) =~= all);
        while i < n
            invariant
                i <= n,
                n == messages.len(),
                all == message_refs_view(messages@),
                missing_in_messages(self@, all.skip(i as int)) == missing_in_messages(self@, all),
            decreases n - i,
        {
            proof {
                assert(all.skip(i as int)[0] == messages@[i as int]@);
                assert(all.skip(i as int).skip(1) =~= all.skip(i as int + 1));
            }
            match self.missing_in_message(messages[i]) {
                Some(name) => {
                    return Some(name);
                },
                None => {},
            }
            i += 1;
        }
        None
    }
}

impl FileDescriptor {
    /// The symbol table of the file, read from the identities that its
    /// messages and enums carry.
    pub fn symbol_table(&self) -> (r: SymbolTable)
        ensures
            r@ == self@.symbols(),
    {
        let all = self.all_messages();
        let ghost flat = forest(self@.messages);
        let mut messages: Vec<(String, MessageIndex)> = Vec::new();
        let mut enums: Vec<(String, EnumIndex)> = Vec::new();
        let ghost lists = flat.map_values(|m: MessageView| nested_enum_symbols(m.enums));
        let n = all.len();
        let mut i: usize = 0;
        proof {
            assert(flat.len() == n);
            assert(lists.take(0) =~= Seq::<Seq<(Seq<char>, EnumPath)>>::empty());
            assert(named_enums_view(enums@) =~= lists.take(0).flatten());
        }
        while i < n
            invariant
                i <= n,
                n == all.len(),
                n == flat.len(),
                flat == message_refs_view(all@),
                lists == flat.map_values(|m: MessageView| nested_enum_symbols(m.enums)),
                messages@.len() == i,
                forall|j: int|
                    0 <= j < i ==> (#[trigger] messages@[j]).0@ == full_name(
                        flat[j].package,
                        flat[j].name,
                    ) && messages@[j].1@ == flat[j].index,
                named_enums_view(enums@) == lists.take(i as int).flatten(),
            decreases n - i,
        {
            let m: &Message = all[i];
            assert(m@ == flat[i as int]);
            messages.push((qualify(m.package.as_str(), m.name.as_str()), m.index.duplicate()));
            let ghost before = named_enums_view(enums@);
            let k = m.enums.len();
            let mut j: usize = 0;
            while j < k
                invariant
                    j <= k,
                    k == m.enums.len(),
                    named_enums_view(enums@) == before + nested_enum_symbols(m@.enums).take(
                        j as int,
                    ),
                decreases k - j,
            {
                let e = &m.enums[j];
                let ghost prev = named_enums_view(enums@);
                enums.push((join_dotted(e.package.as_str(), e.name.as_str()), e.index.duplicate()));
                proof {
                    assert(m@.enums[j as int] == e@);
                    assert(named_enums_view(enums@) =~= prev.push((dotted(e@.package, e@.name), e@.index)));
                    assert(named_enums_view(enums@) =~= before + nested_enum_symbols(
                        m@.enums,
                    ).take(j as int + 1));
                }
                j += 1;
            }
            proof {
                assert(nested_enum_symbols(m@.enums).take(k as int) =~= nested_enum_symbols(
                    m@.enums,
                ));
                assert(lists.take(i as int + 1) =~= lists.take(i as int).push(lists[i as int]));
                lists.take(i as int).lemma_flatten_push(lists[i as int]);
            }
            i += 1;
        }
        let ghost nested = named_enums_view(enums@);
        let own = self.enums.len();
        let mut x: usize = 0;
        let ghost own_symbols = self@.enums.map_values(
            |e: EnumeratorView| (full_name(e.package, e.name), e.index),
        );
        while x < own
            invariant
                x <= own,
                own == self.enums.len(),
                own_symbols == self@.enums.map_values(
                    |e: EnumeratorView| (full_name(e.package, e.name), e.index),
                ),
                named_enums_view(enums@) == nested + own_symbols.take(x as int),
            decreases own - x,
        {
            let e = &self.enums[x];
            let ghost prev = named_enums_view(enums@);
            enums.push((qualify(e.package.as_str(), e.name.as_str()), e.index.duplicate()));
            proof {
                assert(self@.enums[x as int] == e@);
                assert(named_enums_view(enums@) =~= prev.push(
                    (full_name(e@.package, e@.name), e@.index),
                ));
                assert(named_enums_view(enums@) =~= nested + own_symbols.take(x as int + 1));
            }
            x += 1;
        }
        proof {
            assert(own_symbols.take(own as int) =~= own_symbols);
            assert(lists.take(n as int) =~= lists);
            assert(named_messages_view(messages@) =~= self@.message_symbols());
        }
        SymbolTable { messages, enums }
    }

    /// Gives every message and enum its identity and returns the symbol
    /// table of the file.
    pub fn get_full_names(&mut self) -> (r: SymbolTable)
        ensures
            final(self)@ == old(self)@.indexed(),
            r@ == final(self)@.symbols(),
    {
        let root = MessageIndex { indexes: Vec::new() };
        assert(root@ =~= Seq::<usize>::empty());
        assign_indexes(&mut self.messages, &root);
        assign_enum_indexes(&mut self.enums, &root);
        self.symbol_table()
    }

    /// Replaces every type name in the fields of the file's messages by the
    /// message or enum that it stands for. Where a name stands for nothing,
    /// no field is changed and the error holds the first such name.
    pub fn resolve_types(&mut self) -> (r: Result<(), Error>)
        ensures
            r is Ok <==> old(self)@.indexed().first_missing() is None,
            r is Ok ==> final(self)@ == old(self)@.indexed().resolved(),
            r is Ok ==> final(self)@.is_resolved(),
            r is Err ==> final(self)@ == old(self)@.indexed(),
            r is Err ==> r->Err_0 is MessageOrEnumNotFound,
            r is Err ==> r->Err_0->MessageOrEnumNotFound_0@ == old(
                self,
            )@.indexed().first_missing()->0,
    {
        let symbols = self.get_full_names();
        let missing = {
            let all = self.all_messages();
            symbols.first_missing(&all)
        };
        match missing {
            Some(name) => Err(Error::MessageOrEnumNotFound(name)),
            None => {
                rewrite_all_messages(&mut self.messages, &FieldPass::Resolve(&symbols));
                proof {
                    lemma_resolution_total(old(self)@.indexed());
                }
                Ok(())
            },
        }
    }
}

} // verus!
