//! Which messages borrow the bytes they are read from: a message borrows if
//! a borrowed string or bytes field, or a packed field of fixed width, can
//! be reached through it. Messages that are being visited count as not
//! borrowing, which ends the search in a cycle.

use vstd::prelude::*;
use crate::index::{descend, message_at};
use crate::model::{
    Config, DescView, Field, FieldType, FieldView, FileDescriptor, Message, MessageIndex,
    MessageView, OneOf, OneOfView, TypeView,
};
use crate::passes::paths_view;
use crate::tree::{
    field_refs_view, forest, lemma_forest_step, lemma_subtree_unfold, subtree,
};

verus! {

/// How many of the messages carry an identity that is not in `ignore`.
pub open spec fn unvisited(all: Seq<MessageView>, ignore: Seq<Seq<usize>>) -> nat
    decreases all.len(),
{
    if all.len() == 0 {
        0
    } else {
        unvisited(all.drop_last(), ignore) + if ignore.contains(all.last().index) {
            0nat
        } else {
            1nat
        }
    }
}

/// One more identity to ignore leaves no more messages to visit, and fewer
/// if a message carries it and it was not ignored before.
pub proof fn lemma_unvisited_push(all: Seq<MessageView>, ignore: Seq<Seq<usize>>, x: Seq<usize>)
    ensures
        unvisited(all, ignore.push(x)) <= unvisited(all, ignore),
        (exists|k: int| 0 <= k < all.len() && (#[trigger] all[k]).index == x) && !ignore.contains(x)
            ==> unvisited(all, ignore.push(x)) < unvisited(all, ignore),
    decreases all.len(),
{
    if all.len() > 0 {
        let front = all.drop_last();
        lemma_unvisited_push(front, ignore, x);
        let last = all.last().index;
        if ignore.contains(last) {
            let i = choose|i: int| 0 <= i < ignore.len() && ignore[i] == last;
            assert(ignore.push(x)[i] == last);
        }
        if last == x {
            assert(ignore.push(x)[ignore.len() as int] == x);
        }
        if (exists|k: int| 0 <= k < all.len() && (#[trigger] all[k]).index == x) && !ignore.contains(
            x,
        ) {
            let k = choose|k: int| 0 <= k < all.len() && (#[trigger] all[k]).index == x;
            if k < all.len() - 1 {
                assert(front[k].index == x);
            }
        }
    }
}

/// What is in the subtree of one of the messages is in their forest.
pub proof fn lemma_forest_holds_subtrees(messages: Seq<MessageView>, i: int, upto: int, x: MessageView)
    requires
        0 <= i < upto <= messages.len(),
        subtree(messages[i]).contains(x),
    ensures
        forest(messages.take(upto)).contains(x),
    decreases upto,
{
    lemma_forest_step(messages, upto - 1);
    let before = forest(messages.take(upto - 1));
    let now = forest(messages.take(upto));
    if i == upto - 1 {
        let k = choose|k: int| 0 <= k < subtree(messages[i]).len() && subtree(messages[i])[k] == x;
        assert(now[before.len() + k] == x);
    } else {
        lemma_forest_holds_subtrees(messages, i, upto - 1, x);
        let k = choose|k: int| 0 <= k < before.len() && before[k] == x;
        assert(now[k] == x);
    }
}

/// The message that child positions lead to from `m` is in the subtree of `m`.
pub proof fn lemma_descend_in_subtree(m: MessageView, rest: Seq<usize>)
    requires
        descend(m, rest) is Some,
    ensures
        subtree(m).contains(descend(m, rest)->0),
    decreases rest.len(),
{
    lemma_subtree_unfold(m);
    if rest.len() == 0 {
        assert(subtree(m)[0] == m);
    } else {
        let c = m.messages[rest[0] as int];
        let found = descend(m, rest)->0;
        lemma_descend_in_subtree(c, rest.skip(1));
        lemma_forest_holds_subtrees(m.messages, rest[0] as int, m.messages.len() as int, found);
        assert(m.messages.take(m.messages.len() as int) =~= m.messages);
        let k = choose|k: int| 0 <= k < forest(m.messages).len() && forest(m.messages)[k] == found;
        assert(subtree(m)[k + 1] == found);
    }
}

/// The message that a path names is one of the messages of the file.
pub proof fn lemma_message_in_forest(messages: Seq<MessageView>, path: Seq<usize>)
    requires
        message_at(messages, path) is Some,
    ensures
        forest(messages).contains(message_at(messages, path)->0),
{
    let first = messages[path[0] as int];
    lemma_descend_in_subtree(first, path.skip(1));
    lemma_forest_holds_subtrees(
        messages,
        path[0] as int,
        messages.len() as int,
        message_at(messages, path)->0,
    );
    assert(messages.take(messages.len() as int) =~= messages);
}

/// Visiting the message that a path names, if it is not ignored, leaves
/// fewer messages to visit.
pub proof fn lemma_visit_decreases(d: DescView, path: Seq<usize>, ignore: Seq<Seq<usize>>)
    requires
        message_at(d.messages, path) is Some,
        !ignore.contains(message_at(d.messages, path)->0.index),
    ensures
        unvisited(forest(d.messages), ignore.push(message_at(d.messages, path)->0.index))
            < unvisited(forest(d.messages), ignore),
{
    let m = message_at(d.messages, path)->0;
    lemma_message_in_forest(d.messages, path);
    let k = choose|k: int| 0 <= k < forest(d.messages).len() && forest(d.messages)[k] == m;
    assert(forest(d.messages)[k].index == m.index);
    lemma_unvisited_push(forest(d.messages), ignore, m.index);
}

/// Whether a value of type `t`, which is no map, borrows the bytes it is
/// read from: borrowed strings and bytes do, a message does if one of its
/// fields does, and a packed field of fixed width, of strings or of bytes
/// does.
pub open spec fn leaf_has_lifetime(
    d: DescView,
    deprecated_too: bool,
    t: TypeView,
    packed: bool,
    ignore: Seq<Seq<usize>>,
) -> bool
    decreases unvisited(forest(d.messages), ignore), 0nat,
{
    match t {
        TypeView::StringCow | TypeView::BytesCow => true,
        TypeView::Message(p) => match message_at(d.messages, p) {
            Some(m) => if ignore.contains(m.index) {
                false
            } else {
                proof {
                    lemma_visit_decreases(d, p, ignore);
                }
                fields_have_lifetime(d, deprecated_too, m.all_fields(), ignore.push(m.index))
            },
            None => false,
        },
        TypeView::Fixed64
        | TypeView::Sfixed64
        | TypeView::Double
        | TypeView::Fixed32
        | TypeView::Sfixed32
        | TypeView::String_
        | TypeView::Bytes_
        | TypeView::Float => packed,
        _ => false,
    }
}

/// Whether a field of type `t` borrows the bytes it is read from: a map
/// does if its key or its value does.
pub open spec fn type_has_lifetime(
    d: DescView,
    deprecated_too: bool,
    t: TypeView,
    packed: bool,
    ignore: Seq<Seq<usize>>,
) -> bool
    decreases unvisited(forest(d.messages), ignore), 1nat,
{
    match t {
        TypeView::Map_(k, v) => leaf_has_lifetime(d, deprecated_too, *k, false, ignore)
            || leaf_has_lifetime(d, deprecated_too, *v, false, ignore),
        _ => leaf_has_lifetime(d, deprecated_too, t, packed, ignore),
    }
}

/// Whether the field `f` counts and borrows the bytes it is read from. A
/// deprecated field counts only if deprecated fields are kept.
pub open spec fn field_has_lifetime(d: DescView, deprecated_too: bool, f: FieldView, ignore: Seq<Seq<usize>>) -> bool
    decreases unvisited(forest(d.messages), ignore), 2nat,
{
    type_has_lifetime(d, deprecated_too, f.typ, f.is_packed(), ignore) && (!f.deprecated
        || deprecated_too)
}

/// Whether one of the fields borrows the bytes it is read from.
pub open spec fn fields_have_lifetime(
    d: DescView,
    deprecated_too: bool,
    fields: Seq<FieldView>,
    ignore: Seq<Seq<usize>>,
) -> bool
    decreases unvisited(forest(d.messages), ignore), 3nat,
{
    exists|j: int|
        0 <= j < fields.len() && field_has_lifetime(d, deprecated_too, #[trigger] fields[j], ignore)
}

/// Whether the message `m` borrows the bytes it is read from, given the
/// messages that are being visited.
pub open spec fn message_has_lifetime(d: DescView, deprecated_too: bool, m: MessageView, ignore: Seq<Seq<usize>>) -> bool {
    !ignore.contains(m.index) && fields_have_lifetime(
        d,
        deprecated_too,
        m.all_fields(),
        ignore.push(m.index),
    )
}

impl DescView {
    /// Whether the message `m` is lifetime-bound: whether, with borrowed
    /// strings and bytes in use, it borrows the bytes it is read from.
    pub open spec fn is_lifetime_bound(self, config: &Config, m: MessageView) -> bool {
        !config.dont_use_cow && message_has_lifetime(
            self,
            config.add_deprecated_fields,
            m,
            Seq::empty(),
        )
    }
}

/// Whether the fields of `m` borrow, with `m` added to the messages that
/// are being visited.
fn visit(m: &Message, desc: &FileDescriptor, config: &Config, ignore: &mut Vec<MessageIndex>) -> (r:
    bool)
    ensures
        paths_view(final(ignore)@) == paths_view(old(ignore)@),
        r == fields_have_lifetime(
            desc@,
            config.add_deprecated_fields,
            m@.all_fields(),
            paths_view(old(ignore)@).push(m@.index),
        ),
    decreases unvisited(forest(desc@.messages), paths_view(old(ignore)@).push(m@.index)), 3nat,
{
    let ghost before = paths_view(ignore@);
    let ghost inside = before.push(m@.index);
    ignore.push(m.index.duplicate());
    assert(paths_view(ignore@) =~= inside);
    let fields = m.all_fields();
    let n = fields.len();
    let mut found = false;
    let mut j: usize = 0;
    assert(field_refs_view(fields@).len() == n);
    while j < n && !found
        invariant
            j <= n,
            n == fields@.len(),
            field_refs_view(fields@) == m@.all_fields(),
            before == paths_view(old(ignore)@),
            inside == before.push(m@.index),
            paths_view(ignore@) == inside,
            found ==> fields_have_lifetime(
                desc@,
                config.add_deprecated_fields,
                m@.all_fields(),
                inside,
            ),
            !found ==> forall|x: int|
                0 <= x < j ==> !field_has_lifetime(
                    desc@,
                    config.add_deprecated_fields,
                    #[trigger] m@.all_fields()[x],
                    inside,
                ),
        decreases n - j, if found { 0int } else { 1int },
    {
        let f: &Field = fields[j];
        assert(m@.all_fields()[j as int] == f@);
        let borrows = f.typ.has_lifetime(desc, config, f.packed(), ignore);
        if borrows && (!f.deprecated || config.add_deprecated_fields) {
            found = true;
        } else {
            j += 1;
        }
    }
    let ghost full = ignore@;
    assert(paths_view(full).len() == full.len());
    let _ = ignore.pop();
    assert(ignore@ =~= full.drop_last());
    assert(paths_view(ignore@) =~= paths_view(full).drop_last());
    assert(inside.drop_last() =~= before);
    found
}

/// Whether a value of the type `t`, which is no map, borrows.
fn leaf_borrows(
    t: &FieldType,
    desc: &FileDescriptor,
    config: &Config,
    packed: bool,
    ignore: &mut Vec<MessageIndex>,
) -> (r: bool)
    ensures
        paths_view(final(ignore)@) == paths_view(old(ignore)@),
        r == leaf_has_lifetime(
            desc@,
            config.add_deprecated_fields,
            t@,
            packed,
            paths_view(old(ignore)@),
        ),
    decreases unvisited(forest(desc@.messages), paths_view(old(ignore)@)), 0nat,
{
    match t {
        FieldType::StringCow | FieldType::BytesCow => true,
        FieldType::Message(p) => match p.find_message(desc) {
            Some(m) => {
                let n = ignore.len();
                if m.index.is_within(ignore, 0, n) {
                    assert(paths_view(ignore@).subrange(0, n as int) =~= paths_view(ignore@));
                    false
                } else {
                    proof {
                        assert(paths_view(ignore@).subrange(0, n as int) =~= paths_view(ignore@));
                        lemma_visit_decreases(desc@, p@, paths_view(ignore@));
                    }
                    visit(m, desc, config, ignore)
                }
            },
            None => false,
        },
        FieldType::Fixed64
        | FieldType::Sfixed64
        | FieldType::Double
        | FieldType::Fixed32
        | FieldType::Sfixed32
        | FieldType::String_
        | FieldType::Bytes_
        | FieldType::Float => packed,
        _ => false,
    }
}

impl FieldType {
    /// Whether a field of this type, packed or not, borrows the bytes it is
    /// read from, given the messages that are being visited.
    pub fn has_lifetime(
        &self,
        desc: &FileDescriptor,
        config: &Config,
        packed: bool,
        ignore: &mut Vec<MessageIndex>,
    ) -> (r: bool)
        ensures
            paths_view(final(ignore)@) == paths_view(old(ignore)@),
            r == type_has_lifetime(
                desc@,
                config.add_deprecated_fields,
                self@,
                packed,
                paths_view(old(ignore)@),
            ),
        decreases unvisited(forest(desc@.messages), paths_view(old(ignore)@)), 1nat,
    {
        match self {
            FieldType::Map_(k, v) => {
                let key = leaf_borrows(k, desc, config, false, ignore);
                if key {
                    true
                } else {
                    leaf_borrows(v, desc, config, false, ignore)
                }
            },
            _ => leaf_borrows(self, desc, config, packed, ignore),
        }
    }
}

impl Message {
    /// Whether this message borrows the bytes it is read from, given the
    /// messages that are being visited.
    pub fn has_lifetime(&self, desc: &FileDescriptor, config: &Config, ignore: &mut Vec<MessageIndex>) -> (r:
        bool)
        ensures
            paths_view(final(ignore)@) == paths_view(old(ignore)@),
            r == message_has_lifetime(
                desc@,
                config.add_deprecated_fields,
                self@,
                paths_view(old(ignore)@),
            ),
    {
        let n = ignore.len();
        assert(paths_view(ignore@).subrange(0, n as int) =~= paths_view(ignore@));
        if self.index.is_within(ignore, 0, n) {
            false
        } else {
            visit(self, desc, config, ignore)
        }
    }
}

impl Message {
    /// Whether this message is lifetime-bound.
    pub fn is_lifetime_bound(&self, desc: &FileDescriptor, config: &Config) -> (r: bool)
        ensures
            r == desc@.is_lifetime_bound(config, self@),
    {
        if config.dont_use_cow {
            false
        } else {
            let mut ignore: Vec<MessageIndex> = Vec::new();
            assert(paths_view(ignore@) =~= Seq::<Seq<usize>>::empty());
            self.has_lifetime(desc, config, &mut ignore)
        }
    }
}

impl OneOf {
    /// Whether one of the fields of this oneof borrows the bytes it is read
    /// from.
    pub fn has_lifetime(&self, desc: &FileDescriptor, config: &Config) -> (r: bool)
        ensures
            r == fields_have_lifetime(
                desc@,
                config.add_deprecated_fields,
                self@.fields,
                Seq::empty(),
            ),
    {
        let n = self.fields.len();
        let mut j: usize = 0;
        while j < n
            invariant
                j <= n,
                n == self.fields@.len(),
                forall|x: int|
                    0 <= x < j ==> !field_has_lifetime(
                        desc@,
                        config.add_deprecated_fields,
                        #[trigger] self@.fields[x],
                        Seq::empty(),
                    ),
            decreases n - j,
        {
            let f = &self.fields[j];
            assert(self@.fields[j as int] == f@);
            let mut ignore: Vec<MessageIndex> = Vec::new();
            assert(paths_view(ignore@) =~= Seq::<Seq<usize>>::empty());
            let borrows = f.typ.has_lifetime(desc, config, f.packed(), &mut ignore);
            if borrows && (!f.deprecated || config.add_deprecated_fields) {
                return true;
            }
            j += 1;
        }
        false
    }
}

} // verus!
