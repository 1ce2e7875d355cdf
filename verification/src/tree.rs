//! Flat listings of a message tree: all fields of a message, and all messages
//! of a file in declaration order, each before what is nested in it.

use vstd::prelude::*;
use crate::model::{
    Field, FieldView, FileDescriptor, Message, MessageView, OneOf, OneOfView, fields_view,
    lemma_nested_views, messages_view, oneofs_view,
};

verus! {

/// Views of the fields that a list of references points to.
pub open spec fn field_refs_view(fields: Seq<&Field>) -> Seq<FieldView> {
    fields.map_values(|f: &Field| f@)
}

/// Views of the messages that a list of references points to.
pub open spec fn message_refs_view(messages: Seq<&Message>) -> Seq<MessageView> {
    messages.map_values(|m: &Message| m@)
}

/// The fields of all oneofs of a list, in order.
pub open spec fn oneof_fields(oneofs: Seq<OneOfView>) -> Seq<FieldView> {
    oneofs.map_values(|o: OneOfView| o.fields).flatten()
}

impl MessageView {
    /// All fields of the message: its own, then those of its oneofs.
    pub open spec fn all_fields(self) -> Seq<FieldView> {
        self.fields + oneof_fields(self.oneofs)
    }

    /// A message is a unit if neither it nor a message nested in it has a
    /// field or a oneof.
    pub open spec fn is_unit(self) -> bool
        decreases self,
    {
        &&& self.fields.len() == 0
        &&& self.oneofs.len() == 0
        &&& forall|i: int| 0 <= i < self.messages.len() ==> (#[trigger] self.messages[i]).is_unit()
    }
}

/// The subtrees of the messages nested directly in `m`, in order.
pub open spec fn child_subtrees(m: MessageView) -> Seq<Seq<MessageView>>
    decreases m, 0nat,
{
    Seq::new(
        m.messages.len(),
        |i: int|
            if 0 <= i < m.messages.len() {
                subtree(m.messages[i])
            } else {
                Seq::empty()
            },
    )
}

/// The message `m` followed by all messages nested in it, at any depth, in
/// declaration order.
pub open spec fn subtree(m: MessageView) -> Seq<MessageView>
    decreases m, 1nat,
{
    seq![m] + child_subtrees(m).flatten()
}

/// All messages of a list with all that is nested in them, in declaration order.
pub open spec fn forest(messages: Seq<MessageView>) -> Seq<MessageView> {
    messages.map_values(|m: MessageView| subtree(m)).flatten()
}

/// A subtree is its root followed by the forest of what is nested in the root.
pub proof fn lemma_subtree_unfold(m: MessageView)
    ensures
        subtree(m) == seq![m] + forest(m.messages),
{
    assert(child_subtrees(m) =~= m.messages.map_values(|c: MessageView| subtree(c)));
}

/// The forest of the first `i + 1` messages is that of the first `i` followed
/// by the subtree of the next.
pub proof fn lemma_forest_step(messages: Seq<MessageView>, i: int)
    requires
        0 <= i < messages.len(),
    ensures
        forest(messages.take(i + 1)) == forest(messages.take(i)) + subtree(messages[i]),
{
    let f = |m: MessageView| subtree(m);
    assert(messages.take(i + 1).map_values(f) =~= messages.take(i).map_values(f).push(
        subtree(messages[i]),
    ));
    messages.take(i).map_values(f).lemma_flatten_push(subtree(messages[i]));
}

/// The fields of the first `i + 1` oneofs are those of the first `i` followed
/// by the fields of the next.
pub proof fn lemma_oneof_fields_step(oneofs: Seq<OneOfView>, i: int)
    requires
        0 <= i < oneofs.len(),
    ensures
        oneof_fields(oneofs.take(i + 1)) == oneof_fields(oneofs.take(i)) + oneofs[i].fields,
{
    let f = |o: OneOfView| o.fields;
    assert(oneofs.take(i + 1).map_values(f) =~= oneofs.take(i).map_values(f).push(
        oneofs[i].fields,
    ));
    oneofs.take(i).map_values(f).lemma_flatten_push(oneofs[i].fields);
}

impl Message {
    /// All fields of the message: its own, then those of its oneofs.
    pub fn all_fields(&self) -> (r: Vec<&Field>)
        ensures
            field_refs_view(r@) == self@.all_fields(),
    {
        let mut out: Vec<&Field> = Vec::new();
        let ghost mut acc: Seq<FieldView> = Seq::empty();
        let n = self.fields.len();
        let mut i: usize = 0;
        while i < n
            invariant
                i <= n,
                n == self.fields.len(),
                acc == self@.fields.take(i as int),
                out@.len() == acc.len(),
                forall|j: int| 0 <= j < out@.len() ==> (#[trigger] out@[j])@ == acc[j],
            decreases n - i,
        {
            out.push(&self.fields[i]);
            proof {
                acc = acc.push(self.fields@[i as int]@);
                assert(acc =~= self@.fields.take(i as int + 1));
            }
            i += 1;
        }
        assert(self@.fields.take(n as int) =~= self@.fields);
        let k = self.oneofs.len();
        let mut j: usize = 0;
        proof {
            assert(self@.oneofs.take(0).map_values(|o: OneOfView| o.fields) =~= Seq::<
                Seq<FieldView>,
            >::empty());
            assert(acc =~= self@.fields + oneof_fields(self@.oneofs.take(0)));
        }
        while j < k
            invariant
                j <= k,
                k == self.oneofs.len(),
                acc == self@.fields + oneof_fields(self@.oneofs.take(j as int)),
                out@.len() == acc.len(),
                forall|j: int| 0 <= j < out@.len() ==> (#[trigger] out@[j])@ == acc[j],
            decreases k - j,
        {
            let o = &self.oneofs[j];
            let len = o.fields.len();
            let ghost before = acc;
            let mut x: usize = 0;
            while x < len
                invariant
                    x <= len,
                    len == o.fields.len(),
                    acc == before + o@.fields.take(x as int),
                    out@.len() == acc.len(),
                    forall|j: int| 0 <= j < out@.len() ==> (#[trigger] out@[j])@ == acc[j],
                decreases len - x,
            {
                out.push(&o.fields[x]);
                proof {
                    acc = acc.push(o.fields@[x as int]@);
                    assert(acc =~= before + o@.fields.take(x as int + 1));
                }
                x += 1;
            }
            proof {
                assert(o@.fields.take(len as int) =~= o@.fields);
                lemma_oneof_fields_step(self@.oneofs, j as int);
                assert(self@.oneofs[j as int] == o@);
                assert(acc =~= self@.fields + oneof_fields(self@.oneofs.take(j as int + 1)));
            }
            j += 1;
        }
        assert(self@.oneofs.take(k as int) =~= self@.oneofs);
        assert(field_refs_view(out@) =~= acc);
        out
    }

    /// Whether neither this message nor a message nested in it has a field
    /// or a oneof.
    pub fn is_unit(&self) -> (r: bool)
        ensures
            r == self@.is_unit(),
        decreases self,
    {
        proof {
            lemma_nested_views(*self);
        }
        if self.fields.len() != 0 || self.oneofs.len() != 0 {
            return false;
        }
        let n = self.messages.len();
        let mut i: usize = 0;
        while i < n
            invariant
                i <= n,
                n == self.messages.len(),
                self@.messages == messages_view(self.messages@),
                self@.fields.len() == 0,
                self@.oneofs.len() == 0,
                forall|j: int| 0 <= j < i ==> (#[trigger] self@.messages[j]).is_unit(),
            decreases n - i,
        {
            if !self.messages[i].is_unit() {
                assert(!self@.messages[i as int].is_unit());
                return false;
            }
            i += 1;
        }
        true
    }

    /// Appends this message and all messages nested in it to `out`.
    pub fn collect_subtree<'a>(&'a self, out: &mut Vec<&'a Message>)
        ensures
            message_refs_view(final(out)@) == message_refs_view(old(out)@) + subtree(self@),
        decreases self,
    {
        let ghost start = message_refs_view(out@);
        out.push(self);
        proof {
            lemma_nested_views(*self);
            lemma_subtree_unfold(self@);
            assert(forest(self@.messages.take(0)) =~= Seq::<MessageView>::empty()) by {
                assert(self@.messages.take(0).map_values(|m: MessageView| subtree(m)) =~= Seq::<
                    Seq<MessageView>,
                >::empty());
            }
            assert(message_refs_view(out@) =~= start + seq![self@] + forest(
                self@.messages.take(0),
            ));
        }
        let n = self.messages.len();
        let mut i: usize = 0;
        while i < n
            invariant
                i <= n,
                n == self.messages.len(),
                self@.messages == messages_view(self.messages@),
                message_refs_view(out@) == start + seq![self@] + forest(
                    self@.messages.take(i as int),
                ),
            decreases n - i,
        {
            self.messages[i].collect_subtree(out);
            proof {
                lemma_forest_step(self@.messages, i as int);
                assert(message_refs_view(out@) =~= start + seq![self@] + forest(
                    self@.messages.take(i as int + 1),
                ));
            }
            i += 1;
        }
        proof {
            assert(self@.messages.take(n as int) =~= self@.messages);
            assert(message_refs_view(out@) =~= start + subtree(self@));
        }
    }
}

impl FileDescriptor {
    /// All messages of the file, nested ones included, in declaration order.
    pub fn all_messages(&self) -> (r: Vec<&Message>)
        ensures
            message_refs_view(r@) == forest(self@.messages),
    {
        let mut out: Vec<&Message> = Vec::new();
        let n = self.messages.len();
        let mut i: usize = 0;
        proof {
            assert(self@.messages.take(0).map_values(|m: MessageView| subtree(m)) =~= Seq::<
                Seq<MessageView>,
            >::empty());
            assert(message_refs_view(out@) =~= forest(self@.messages.take(0)));
        }
        while i < n
            invariant
                i <= n,
                n == self.messages.len(),
                message_refs_view(out@) == forest(self@.messages.take(i as int)),
            decreases n - i,
        {
            self.messages[i].collect_subtree(&mut out);
            proof {
                lemma_forest_step(self@.messages, i as int);
            }
            i += 1;
        }
        assert(self@.messages.take(n as int) =~= self@.messages);
        out
    }
}

} // verus!
