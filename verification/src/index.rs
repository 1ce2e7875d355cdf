//! Path-based identities: finding the message or enum that an index names.

use vstd::prelude::*;
use crate::model::{
    DescView, EnumIndex, EnumPath, Enumerator, EnumeratorView, FileDescriptor, Message,
    MessageIndex, MessageView, enums_view, lemma_nested_views, messages_view,
};

verus! {

/// The message reached from `m` by the child positions `rest`, if they all exist.
pub open spec fn descend(m: MessageView, rest: Seq<usize>) -> Option<MessageView>
    decreases rest.len(),
{
    if rest.len() == 0 {
        Some(m)
    } else if rest[0] < m.messages.len() {
        descend(m.messages[rest[0] as int], rest.skip(1))
    } else {
        None
    }
}

/// The message that `path` names among `messages` and what is nested in them.
/// The empty path names nothing.
pub open spec fn message_at(messages: Seq<MessageView>, path: Seq<usize>) -> Option<MessageView> {
    if path.len() == 0 {
        None
    } else if path[0] < messages.len() {
        descend(messages[path[0] as int], path.skip(1))
    } else {
        None
    }
}

/// The enum that `e` names: in the file's own list when its message path is
/// empty, else in the list of the message that the path names.
pub open spec fn enum_at(desc: DescView, e: EnumPath) -> Option<EnumeratorView> {
    if e.msg.len() == 0 {
        if e.index < desc.enums.len() {
            Some(desc.enums[e.index as int])
        } else {
            None
        }
    } else {
        match message_at(desc.messages, e.msg) {
            Some(m) => if e.index < m.enums.len() {
                Some(m.enums[e.index as int])
            } else {
                None
            },
            None => None,
        }
    }
}

impl DescView {
    /// Whether `path` names a message of this file.
    pub open spec fn has_message(self, path: Seq<usize>) -> bool {
        message_at(self.messages, path) is Some
    }

    /// The message that `path` names.
    pub open spec fn message(self, path: Seq<usize>) -> MessageView
        recommends
            self.has_message(path),
    {
        message_at(self.messages, path)->0
    }

    /// Whether `e` names an enum of this file.
    pub open spec fn has_enum(self, e: EnumPath) -> bool {
        enum_at(self, e) is Some
    }

    /// The enum that `e` names.
    pub open spec fn enumerator(self, e: EnumPath) -> EnumeratorView
        recommends
            self.has_enum(e),
    {
        enum_at(self, e)->0
    }
}

impl MessageIndex {
    /// Whether two indexes name the same place.
    pub fn same(&self, other: &MessageIndex) -> (r: bool)
        ensures
            r == (self@ == other@),
    {
        if self.indexes.len() != other.indexes.len() {
            return false;
        }
        let n = self.indexes.len();
        let mut i: usize = 0;
        while i < n
            invariant
                i <= n,
                n == self.indexes.len(),
                n == other.indexes.len(),
                forall|j: int| 0 <= j < i ==> self@[j] == other@[j],
            decreases n - i,
        {
            if self.indexes[i] != other.indexes[i] {
                return false;
            }
            i += 1;
        }
        assert(self@ =~= other@);
        true
    }

    /// The message of `desc` that this index names, if it names one.
    pub fn find_message<'a>(&self, desc: &'a FileDescriptor) -> (r: Option<&'a Message>)
        ensures
            r is Some <==> desc@.has_message(self@),
            r is Some ==> r->0@ == desc@.message(self@),
    {
        let n = self.indexes.len();
        if n == 0 {
            return None;
        }
        let first = self.indexes[0];
        if first >= desc.messages.len() {
            return None;
        }
        let mut cur: &Message = &desc.messages[first];
        let mut k: usize = 1;
        while k < n
            invariant
                1 <= k <= n,
                n == self.indexes.len(),
                descend(cur@, self@.skip(k as int)) == message_at(desc@.messages, self@),
            decreases n - k,
        {
            let next = self.indexes[k];
            proof {
                lemma_nested_views(*cur);
                assert(self@.skip(k as int).skip(1) =~= self@.skip(k as int + 1));
            }
            if next >= cur.messages.len() {
                return None;
            }
            cur = &cur.messages[next];
            k += 1;
        }
        Some(cur)
    }

    /// The message of `desc` that this index names.
    pub fn get_message<'a>(&self, desc: &'a FileDescriptor) -> (r: &'a Message)
        requires
            desc@.has_message(self@),
        ensures
            r@ == desc@.message(self@),
    {
        match self.find_message(desc) {
            Some(m) => m,
            None => {
                proof {
                    assert(false);
                }
                &desc.messages[0]
            },
        }
    }

    /// Appends one child position.
    pub fn push(&mut self, i: usize)
        ensures
            final(self)@ == old(self)@.push(i),
    {
        self.indexes.push(i);
    }

    /// Drops the last child position, if there is one.
    pub fn pop(&mut self)
        ensures
            old(self)@.len() > 0 ==> final(self)@ == old(self)@.drop_last(),
            old(self)@.len() == 0 ==> final(self)@ == old(self)@,
    {
        let _ = self.indexes.pop();
    }
}

impl EnumIndex {
    /// Whether two indexes name the same place.
    pub fn same(&self, other: &EnumIndex) -> (r: bool)
        ensures
            r == (self@ == other@),
    {
        self.index == other.index && self.msg_index.same(&other.msg_index)
    }

    /// The enum of `desc` that this index names, if it names one.
    pub fn find_enum<'a>(&self, desc: &'a FileDescriptor) -> (r: Option<&'a Enumerator>)
        ensures
            r is Some <==> desc@.has_enum(self@),
            r is Some ==> r->0@ == desc@.enumerator(self@),
    {
        if self.msg_index.indexes.len() == 0 {
            if self.index < desc.enums.len() {
                Some(&desc.enums[self.index])
            } else {
                None
            }
        } else {
            match self.msg_index.find_message(desc) {
                Some(m) => {
                    if self.index < m.enums.len() {
                        Some(&m.enums[self.index])
                    } else {
                        None
                    }
                },
                None => None,
            }
        }
    }

    /// The enum of `desc` that this index names.
    pub fn get_enum<'a>(&self, desc: &'a FileDescriptor) -> (r: &'a Enumerator)
        requires
            desc@.has_enum(self@),
        ensures
            r@ == desc@.enumerator(self@),
    {
        match self.find_enum(desc) {
            Some(e) => e,
            None => {
                proof {
                    assert(false);
                }
                &desc.enums[0]
            },
        }
    }
}

} // verus!
