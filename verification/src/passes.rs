//! Passes that rewrite every field of a message tree in place.
//!
//! Each pass is a function from a field to a field; one traversal applies any
//! of them to the fields of a message, to those of its oneofs and to the
//! messages nested in it.

use vstd::prelude::*;
use crate::model::{
    Config, DescView, Field, FieldType, FieldView, FileDescriptor, Frequency, Message,
    MessageIndex, MessageView, OneOf, OneOfView, TypeView, fields_view, lemma_nested_views,
    messages_view, oneofs_view,
};
use crate::symbols::{SymbolTable, SymbolsView};
use crate::tree::{forest, lemma_forest_step, lemma_subtree_unfold, oneof_fields, subtree};

verus! {

/// Views of a list of message indexes, in order.
pub open spec fn paths_view(v: Seq<MessageIndex>) -> Seq<Seq<usize>> {
    v.map_values(|m: MessageIndex| m@)
}

/// A rewrite of single fields.
pub enum FieldPass<'a> {
    /// Map fields become required.
    MapRequired,
    /// Repeated fields without a packed setting become packed.
    RepeatedAsPacked,
    /// Fields that are not primitive lose their packed setting.
    UnsetPackedNonPrimitives,
    /// One type is replaced by another, also as key or value of a map.
    Convert(&'a FieldType, &'a FieldType),
    /// References to declared messages and enums are replaced by what they
    /// stand for.
    Resolve(&'a SymbolTable),
    /// Literal defaults are brought into the form that the generated code
    /// writes, with types read in the given file.
    SanitizeDefault(&'a FileDescriptor, &'a Config),
    /// In the messages `cycle[lo..hi]`, fields of the given frequency whose
    /// type is one of these messages become boxed and optional.
    BoxWithin(&'a Vec<MessageIndex>, usize, usize, Frequency),
}

/// What a pass knows of the message that owns a field.
pub struct Owner {
    pub package: Seq<char>,
    pub name: Seq<char>,
    pub index: Seq<usize>,
}

impl MessageView {
    /// This message as the owner of its fields.
    pub open spec fn owner(self) -> Owner {
        Owner { package: self.package, name: self.name, index: self.index }
    }
}

/// Mathematical value of a [`FieldPass`].
pub enum PassView {
    MapRequired,
    RepeatedAsPacked,
    UnsetPackedNonPrimitives,
    Convert(TypeView, TypeView),
    Resolve(SymbolsView),
    SanitizeDefault(DescView, bool),
    BoxWithin(Seq<Seq<usize>>, Frequency),
}

impl<'a> View for FieldPass<'a> {
    type V = PassView;

    open spec fn view(&self) -> PassView {
        match self {
            FieldPass::MapRequired => PassView::MapRequired,
            FieldPass::RepeatedAsPacked => PassView::RepeatedAsPacked,
            FieldPass::UnsetPackedNonPrimitives => PassView::UnsetPackedNonPrimitives,
            FieldPass::Convert(from, to) => PassView::Convert(from@, to@),
            FieldPass::Resolve(symbols) => PassView::Resolve(symbols@),
            FieldPass::SanitizeDefault(desc, config) => PassView::SanitizeDefault(
                desc@,
                config.add_deprecated_fields,
            ),
            FieldPass::BoxWithin(cycle, lo, hi, frequency) => PassView::BoxWithin(
                paths_view(cycle@).subrange(*lo as int, *hi as int),
                *frequency,
            ),
        }
    }
}

impl<'a> FieldPass<'a> {
    /// What the pass needs to hold before it runs.
    pub open spec fn well_formed(&self) -> bool {
        match self {
            FieldPass::BoxWithin(cycle, lo, hi, _) => *lo <= *hi <= cycle@.len(),
            _ => true,
        }
    }
}

/// `from` replaced by `to`: as the whole type, then as key and as value of a map.
pub open spec fn convert_type(t: TypeView, from: TypeView, to: TypeView) -> TypeView {
    let whole = if t == from {
        to
    } else {
        t
    };
    match whole {
        TypeView::Map_(k, v) => TypeView::Map_(
            Box::new(
                if *k == from {
                    to
                } else {
                    *k
                },
            ),
            Box::new(
                if *v == from {
                    to
                } else {
                    *v
                },
            ),
        ),
        other => other,
    }
}

/// Whether `f` is a field of a message of `cycle` that refers to a message of
/// `cycle`.
pub open spec fn refers_within(owner: Owner, f: FieldView, cycle: Seq<Seq<usize>>) -> bool {
    cycle.contains(owner.index) && f.typ is Message && cycle.contains(f.typ->Message_0)
}

/// What a pass makes of one field of the message `owner`.
pub open spec fn rewrite_field(pass: PassView, owner: Owner, f: FieldView) -> FieldView {
    match pass {
        PassView::MapRequired => if f.typ is Map_ {
            FieldView { frequency: Frequency::Required, ..f }
        } else {
            f
        },
        PassView::RepeatedAsPacked => if f.packed is None && f.frequency == Frequency::Repeated {
            FieldView { packed: Some(true), ..f }
        } else {
            f
        },
        PassView::UnsetPackedNonPrimitives => if !f.typ.is_primitive() {
            FieldView { packed: None, ..f }
        } else {
            f
        },
        PassView::Convert(from, to) => FieldView { typ: convert_type(f.typ, from, to), ..f },
        PassView::Resolve(symbols) => FieldView {
            typ: symbols.resolve_type(owner.package, owner.name, f.typ),
            ..f
        },
        PassView::SanitizeDefault(d, deprecated_too) => f.sanitize_default(d, deprecated_too),
        PassView::BoxWithin(cycle, frequency) => if f.frequency == frequency && refers_within(
            owner,
            f,
            cycle,
        ) {
            FieldView { boxed: true, frequency: Frequency::Optional, ..f }
        } else {
            f
        },
    }
}

/// What a pass makes of a list of fields of the message `owner`.
pub open spec fn rewrite_fields(pass: PassView, owner: Owner, fields: Seq<FieldView>) -> Seq<
    FieldView,
> {
    fields.map_values(|f: FieldView| rewrite_field(pass, owner, f))
}

/// What a pass makes of a oneof of the message `owner`: its fields are rewritten.
pub open spec fn rewrite_oneof(pass: PassView, owner: Owner, o: OneOfView) -> OneOfView {
    OneOfView { fields: rewrite_fields(pass, owner, o.fields), ..o }
}

/// What a pass makes of a message: its own fields and those of its oneofs are
/// rewritten, and so are the messages nested in it.
pub open spec fn rewrite_message(pass: PassView, m: MessageView) -> MessageView
    decreases m,
{
    MessageView {
        fields: rewrite_fields(pass, m.owner(), m.fields),
        oneofs: m.oneofs.map_values(|o: OneOfView| rewrite_oneof(pass, m.owner(), o)),
        messages: Seq::new(
            m.messages.len(),
            |i: int|
                if 0 <= i < m.messages.len() {
                    rewrite_message(pass, m.messages[i])
                } else {
                    arbitrary()
                },
        ),
        ..m
    }
}

/// What a pass makes of a list of messages.
pub open spec fn rewrite_messages(pass: PassView, messages: Seq<MessageView>) -> Seq<
    MessageView,
> {
    messages.map_values(|m: MessageView| rewrite_message(pass, m))
}

/// A pass rewrites the nested messages as a list of messages.
pub proof fn lemma_rewrite_nested(pass: PassView, m: MessageView)
    ensures
        rewrite_message(pass, m).messages == rewrite_messages(pass, m.messages),
{
    assert(rewrite_message(pass, m).messages =~= rewrite_messages(pass, m.messages));
}

/// Mapping the items of a flattened list is flattening the mapped lists.
pub proof fn lemma_flatten_map<A, B>(lists: Seq<Seq<A>>, f: spec_fn(A) -> B)
    ensures
        lists.flatten().map_values(f) == lists.map_values(|s: Seq<A>| s.map_values(f)).flatten(),
    decreases lists.len(),
{
    let g = |s: Seq<A>| s.map_values(f);
    if lists.len() == 0 {
        assert(lists.map_values(g) =~= Seq::<Seq<B>>::empty());
        assert(lists.flatten().map_values(f) =~= Seq::<B>::empty());
    } else {
        let front = lists.drop_last();
        let last = lists.last();
        lemma_flatten_map(front, f);
        assert(lists =~= front.push(last));
        front.lemma_flatten_push(last);
        assert(lists.map_values(g) =~= front.map_values(g).push(last.map_values(f)));
        front.map_values(g).lemma_flatten_push(last.map_values(f));
        assert((front.flatten() + last).map_values(f) =~= front.flatten().map_values(f)
            + last.map_values(f));
    }
}

/// A pass rewrites all fields of a message, those of its oneofs included,
/// one by one, and leaves the owner as it is.
pub proof fn lemma_rewrite_all_fields(pass: PassView, m: MessageView)
    ensures
        rewrite_message(pass, m).all_fields() == rewrite_fields(
            pass,
            m.owner(),
            m.all_fields(),
        ),
        rewrite_message(pass, m).owner() == m.owner(),
        rewrite_message(pass, m).all_fields().len() == m.all_fields().len(),
{
    let h = |f: FieldView| rewrite_field(pass, m.owner(), f);
    let lists = m.oneofs.map_values(|o: OneOfView| o.fields);
    let after = rewrite_message(pass, m);
    lemma_flatten_map(lists, h);
    assert(after.oneofs.map_values(|o: OneOfView| o.fields) =~= lists.map_values(
        |s: Seq<FieldView>| s.map_values(h),
    ));
    assert(after.all_fields() =~= (m.fields + oneof_fields(m.oneofs)).map_values(h));
}

/// A pass rewrites the messages of a subtree one by one.
pub proof fn lemma_rewrite_subtree(pass: PassView, m: MessageView)
    ensures
        subtree(rewrite_message(pass, m)) == subtree(m).map_values(
            |x: MessageView| rewrite_message(pass, x),
        ),
    decreases m, 0nat,
{
    let g = |x: MessageView| rewrite_message(pass, x);
    lemma_subtree_unfold(m);
    lemma_subtree_unfold(g(m));
    lemma_rewrite_nested(pass, m);
    lemma_rewrite_forest_prefix(pass, m.messages, m.messages.len());
    assert(m.messages.take(m.messages.len() as int) =~= m.messages);
    assert(rewrite_messages(pass, m.messages).take(m.messages.len() as int)
        =~= rewrite_messages(pass, m.messages));
    assert(subtree(g(m)) =~= subtree(m).map_values(g));
}

/// A pass rewrites the messages of the forest of the first `n` messages
/// one by one.
pub proof fn lemma_rewrite_forest_prefix(pass: PassView, messages: Seq<MessageView>, n: nat)
    requires
        n <= messages.len(),
    ensures
        forest(rewrite_messages(pass, messages).take(n as int)) == forest(
            messages.take(n as int),
        ).map_values(|x: MessageView| rewrite_message(pass, x)),
    decreases messages, n,
{
    let g = |x: MessageView| rewrite_message(pass, x);
    let after = rewrite_messages(pass, messages);
    if n == 0 {
        assert(after.take(0).map_values(|m: MessageView| subtree(m)) =~= Seq::<
            Seq<MessageView>,
        >::empty());
        assert(messages.take(0).map_values(|m: MessageView| subtree(m)) =~= Seq::<
            Seq<MessageView>,
        >::empty());
        assert(forest(after.take(0)) =~= forest(messages.take(0)).map_values(g));
    } else {
        let i = (n - 1) as int;
        lemma_rewrite_forest_prefix(pass, messages, (n - 1) as nat);
        lemma_rewrite_subtree(pass, messages[i]);
        lemma_forest_step(messages, i);
        lemma_forest_step(after, i);
        assert(forest(after.take(n as int)) =~= forest(messages.take(n as int)).map_values(g));
    }
}

/// A pass rewrites the messages of a forest one by one.
pub proof fn lemma_rewrite_forest(pass: PassView, messages: Seq<MessageView>)
    ensures
        forest(rewrite_messages(pass, messages)) == forest(messages).map_values(
            |x: MessageView| rewrite_message(pass, x),
        ),
        forest(rewrite_messages(pass, messages)).len() == forest(messages).len(),
{
    lemma_rewrite_forest_prefix(pass, messages, messages.len());
    assert(messages.take(messages.len() as int) =~= messages);
    assert(rewrite_messages(pass, messages).take(messages.len() as int)
        =~= rewrite_messages(pass, messages));
}

/// A pass rewrites the fields of every message of the file, each with
/// its own message as owner, and leaves the owners as they are.
pub proof fn lemma_rewrite_every_field(pass: PassView, messages: Seq<MessageView>)
    ensures
        forest(rewrite_messages(pass, messages)).len() == forest(messages).len(),
        forall|k: int|
            0 <= k < forest(messages).len() ==> (#[trigger] forest(
                rewrite_messages(pass, messages),
            )[k]).owner() == forest(messages)[k].owner() && forest(
                rewrite_messages(pass, messages),
            )[k].all_fields() == rewrite_fields(
                pass,
                forest(messages)[k].owner(),
                forest(messages)[k].all_fields(),
            ),
{
    let before = forest(messages);
    let after = forest(rewrite_messages(pass, messages));
    lemma_rewrite_forest(pass, messages);
    assert forall|k: int| 0 <= k < before.len() implies (#[trigger] after[k]).owner()
        == before[k].owner() && after[k].all_fields() == rewrite_fields(
        pass,
        before[k].owner(),
        before[k].all_fields(),
    ) by {
        lemma_rewrite_all_fields(pass, before[k]);
    }
}

impl MessageIndex {
    /// Whether this index is one of `list[lo..hi]`.
    pub fn is_within(&self, list: &Vec<MessageIndex>, lo: usize, hi: usize) -> (r: bool)
        requires
            lo <= hi <= list@.len(),
        ensures
            r == paths_view(list@).subrange(lo as int, hi as int).contains(self@),
    {
        let ghost range = paths_view(list@).subrange(lo as int, hi as int);
        let mut i: usize = lo;
        while i < hi
            invariant
                lo <= i <= hi <= list@.len(),
                range == paths_view(list@).subrange(lo as int, hi as int),
                forall|j: int| 0 <= j < i - lo ==> range[j] != self@,
            decreases hi - i,
        {
            if self.same(&list[i]) {
                assert(range[i - lo] == self@);
                return true;
            }
            i += 1;
        }
        false
    }
}

impl Field {
    /// Applies a pass to this field of the message that has the given
    /// package, name and index.
    pub fn rewrite(&mut self, pass: &FieldPass, package: &String, name: &String, index: &MessageIndex)
        requires
            pass.well_formed(),
        ensures
            final(self)@ == rewrite_field(
                pass@,
                Owner { package: package@, name: name@, index: index@ },
                old(self)@,
            ),
    {
        match pass {
            FieldPass::MapRequired => {
                if self.typ.is_map() {
                    self.frequency = Frequency::Required;
                }
            },
            FieldPass::RepeatedAsPacked => {
                if self.packed.is_none() {
                    if let Frequency::Repeated = self.frequency {
                        self.packed = Some(true);
                    }
                }
            },
            FieldPass::UnsetPackedNonPrimitives => {
                if !self.typ.is_primitive() && self.packed.is_some() {
                    self.packed = None;
                }
            },
            FieldPass::Convert(from, to) => {
                let whole = if self.typ.same(from) {
                    to.duplicate()
                } else {
                    self.typ.duplicate()
                };
                let converted = match whole {
                    FieldType::Map_(k, v) => {
                        let key = if k.same(from) {
                            to.duplicate()
                        } else {
                            *k
                        };
                        let value = if v.same(from) {
                            to.duplicate()
                        } else {
                            *v
                        };
                        FieldType::Map_(Box::new(key), Box::new(value))
                    },
                    other => other,
                };
                self.typ = converted;
            },
            FieldPass::Resolve(symbols) => {
                let resolved = symbols.resolve_type(package, name, &self.typ);
                self.typ = resolved;
            },
            FieldPass::SanitizeDefault(desc, config) => {
                self.sanitize_default(desc, config);
            },
            FieldPass::BoxWithin(cycle, lo, hi, frequency) => {
                if self.frequency == *frequency {
                    let hit = match &self.typ {
                        FieldType::Message(m) => m.is_within(cycle, *lo, *hi) && index.is_within(
                            cycle,
                            *lo,
                            *hi,
                        ),
                        _ => false,
                    };
                    if hit {
                        self.boxed = true;
                        self.frequency = Frequency::Optional;
                    }
                }
            },
        }
    }
}

/// Applies a pass to every field of a list, the fields of the message that
/// has the given package, name and index.
pub fn rewrite_all_fields(
    fields: &mut Vec<Field>,
    pass: &FieldPass,
    package: &String,
    name: &String,
    index: &MessageIndex,
)
    requires
        pass.well_formed(),
    ensures
        fields_view(final(fields)@) == rewrite_fields(
            pass@,
            Owner { package: package@, name: name@, index: index@ },
            fields_view(old(fields)@),
        ),
{
    let ghost owner = Owner { package: package@, name: name@, index: index@ };
    let n = fields.len();
    let mut i: usize = 0;
    while i < n
        invariant
            i <= n,
            fields.len() == n,
            old(fields).len() == n,
            pass.well_formed(),
            owner == (Owner { package: package@, name: name@, index: index@ }),
            forall|j: int| 0 <= j < i ==> fields@[j]@ == rewrite_field(pass@, owner, #[trigger] old(fields)@[j]@),
            forall|j: int| i <= j < n ==> fields@[j] == #[trigger] old(fields)@[j],
        decreases n - i,
    {
        fields[i].rewrite(pass, package, name, index);
        i += 1;
    }
    assert(fields_view(fields@) =~= rewrite_fields(pass@, owner, fields_view(old(fields)@)));
}

/// Applies a pass to the fields of every oneof of a list, the oneofs of the
/// message that has the given package, name and index.
pub fn rewrite_all_oneofs(
    oneofs: &mut Vec<OneOf>,
    pass: &FieldPass,
    package: &String,
    name: &String,
    index: &MessageIndex,
)
    requires
        pass.well_formed(),
    ensures
        oneofs_view(final(oneofs)@) == oneofs_view(old(oneofs)@).map_values(
            |o: OneOfView|
                rewrite_oneof(pass@, Owner { package: package@, name: name@, index: index@ }, o),
        ),
{
    let ghost owner = Owner { package: package@, name: name@, index: index@ };
    let n = oneofs.len();
    let mut i: usize = 0;
    while i < n
        invariant
            i <= n,
            oneofs.len() == n,
            old(oneofs).len() == n,
            pass.well_formed(),
            owner == (Owner { package: package@, name: name@, index: index@ }),
            forall|j: int| 0 <= j < i ==> oneofs@[j]@ == rewrite_oneof(pass@, owner, #[trigger] old(oneofs)@[j]@),
            forall|j: int| i <= j < n ==> oneofs@[j] == #[trigger] old(oneofs)@[j],
        decreases n - i,
    {
        rewrite_all_fields(&mut oneofs[i].fields, pass, package, name, index);
        i += 1;
    }
    assert(oneofs_view(oneofs@) =~= oneofs_view(old(oneofs)@).map_values(
        |o: OneOfView|
            rewrite_oneof(pass@, Owner { package: package@, name: name@, index: index@ }, o),
    ));
}

impl Message {
    /// Applies a pass to the fields of this message and of its oneofs, and
    /// to the messages nested in it.
    pub fn rewrite(&mut self, pass: &FieldPass)
        requires
            pass.well_formed(),
        ensures
            final(self)@ == rewrite_message(pass@, old(self)@),
        decreases *old(self),
    {
        rewrite_all_fields(&mut self.fields, pass, &self.package, &self.name, &self.index);
        rewrite_all_oneofs(&mut self.oneofs, pass, &self.package, &self.name, &self.index);
        let ghost before = *self;
        let n = self.messages.len();
        let mut i: usize = 0;
        while i < n
            invariant
                i <= n,
                self.messages.len() == n,
                old(self).messages.len() == n,
                pass.well_formed(),
                forall|j: int|
                    0 <= j < i ==> self.messages@[j]@ == rewrite_message(
                        pass@,
                        #[trigger] old(self).messages@[j]@,
                    ),
                forall|j: int| i <= j < n ==> self.messages@[j] == #[trigger] old(self).messages@[j],
                *self == (Message { messages: self.messages, ..before }),
            decreases n - i,
        {
            proof {
                assert(self.messages@[i as int] == old(self).messages@[i as int]);
                assert(decreases_to!(old(self).messages => old(self).messages[i as int]));
            }
            self.messages[i].rewrite(pass);
            i += 1;
        }
        proof {
            lemma_nested_views(*self);
            lemma_nested_views(*old(self));
            assert(self@.messages =~= rewrite_message(pass@, old(self)@).messages);
            assert(self@ == rewrite_message(pass@, old(self)@));
        }
    }
}

/// Applies a pass to every message of a list.
pub fn rewrite_all_messages(messages: &mut Vec<Message>, pass: &FieldPass)
    requires
        pass.well_formed(),
    ensures
        messages_view(final(messages)@) == rewrite_messages(pass@, messages_view(old(messages)@)),
{
    let n = messages.len();
    let mut i: usize = 0;
    while i < n
        invariant
            i <= n,
            messages.len() == n,
            old(messages).len() == n,
            pass.well_formed(),
            forall|j: int| 0 <= j < i ==> messages@[j]@ == rewrite_message(pass@, #[trigger] old(messages)@[j]@),
            forall|j: int| i <= j < n ==> messages@[j] == #[trigger] old(messages)@[j],
        decreases n - i,
    {
        messages[i].rewrite(pass);
        i += 1;
    }
    assert(messages_view(messages@) =~= rewrite_messages(pass@, messages_view(old(messages)@)));
}

} // verus!
