//! The passes of the pipeline that set what the schema leaves open: maps are
//! required, repeated fields of a proto3 file are packed, only primitive
//! fields stay packed, and borrowed strings and bytes can be made owned.

use vstd::prelude::*;
use crate::model::{
    DescView, FieldType, FileDescriptor, Message, MessageView, Syntax, TypeView, messages_view,
};
use crate::passes::{
    FieldPass, PassView, rewrite_all_messages, rewrite_message, rewrite_messages,
};

verus! {

impl MessageView {
    /// The message with `from` replaced by `to` in the types of all fields,
    /// nested messages included.
    pub open spec fn convert_field_types(self, from: TypeView, to: TypeView) -> MessageView {
        rewrite_message(PassView::Convert(from, to), self)
    }

    /// The message with all map fields required, nested messages included.
    pub open spec fn set_map_required(self) -> MessageView {
        rewrite_message(PassView::MapRequired, self)
    }

    /// The message with its repeated fields packed where the schema says
    /// nothing, nested messages included.
    pub open spec fn set_repeated_as_packed(self) -> MessageView {
        rewrite_message(PassView::RepeatedAsPacked, self)
    }

    /// The message with no packed setting on fields that are not primitive,
    /// nested messages included.
    pub open spec fn unset_packed_non_primitives(self) -> MessageView {
        rewrite_message(PassView::UnsetPackedNonPrimitives, self)
    }
}

impl Message {
    /// Replaces the type `from` by `to` in all fields, also as key or value
    /// of a map, and in the messages nested in this one.
    pub fn convert_field_types(&mut self, from: &FieldType, to: &FieldType)
        ensures
            final(self)@ == old(self)@.convert_field_types(from@, to@),
    {
        self.rewrite(&FieldPass::Convert(from, to));
    }

    /// Makes all map fields required, also in the messages nested in this one.
    pub fn set_map_required(&mut self)
        ensures
            final(self)@ == old(self)@.set_map_required(),
    {
        self.rewrite(&FieldPass::MapRequired);
    }

    /// Packs the repeated fields that have no packed setting, in this
    /// message and in the messages nested in it.
    pub fn set_repeated_as_packed(&mut self)
        ensures
            final(self)@ == old(self)@.set_repeated_as_packed(),
    {
        self.rewrite(&FieldPass::RepeatedAsPacked);
    }

    /// Clears the packed setting of the fields that are not primitive, in
    /// this message and in the messages nested in it.
    pub fn unset_packed_non_primitives(&mut self)
        ensures
            final(self)@ == old(self)@.unset_packed_non_primitives(),
    {
        self.rewrite(&FieldPass::UnsetPackedNonPrimitives);
    }
}

impl DescView {
    /// The file with `from` replaced by `to` in the types of all fields.
    pub open spec fn convert_field_types(self, from: TypeView, to: TypeView) -> DescView {
        DescView {
            messages: rewrite_messages(PassView::Convert(from, to), self.messages),
            ..self
        }
    }

    /// The file with borrowed strings and bytes made owned.
    pub open spec fn without_cow(self) -> DescView {
        self.convert_field_types(TypeView::StringCow, TypeView::String_).convert_field_types(
            TypeView::BytesCow,
            TypeView::Bytes_,
        )
    }

    /// The file with all map fields required and, under proto3, the repeated
    /// fields of all its messages packed where the schema says nothing.
    pub open spec fn with_frequencies(self) -> DescView {
        let required = rewrite_messages(PassView::MapRequired, self.messages);
        DescView {
            messages: if self.syntax == Syntax::Proto3 {
                rewrite_messages(PassView::RepeatedAsPacked, required)
            } else {
                required
            },
            ..self
        }
    }

    /// The file with no packed setting on the fields that are not primitive,
    /// in any of its messages.
    pub open spec fn with_packed_primitives_only(self) -> DescView {
        DescView {
            messages: rewrite_messages(PassView::UnsetPackedNonPrimitives, self.messages),
            ..self
        }
    }
}

impl FileDescriptor {
    /// Replaces the type `from` by `to` in the fields of all messages, also
    /// as key or value of a map.
    pub fn convert_field_types(&mut self, from: &FieldType, to: &FieldType)
        ensures
            final(self)@ == old(self)@.convert_field_types(from@, to@),
    {
        rewrite_all_messages(&mut self.messages, &FieldPass::Convert(from, to));
    }

    /// Makes borrowed strings and bytes owned.
    pub fn convert_cow_to_owned(&mut self)
        ensures
            final(self)@ == old(self)@.without_cow(),
    {
        self.convert_field_types(&FieldType::StringCow, &FieldType::String_);
        self.convert_field_types(&FieldType::BytesCow, &FieldType::Bytes_);
    }

    /// Makes map fields required and, under proto3, packs the repeated
    /// fields that have no packed setting.
    pub fn set_frequencies(&mut self)
        ensures
            final(self)@ == old(self)@.with_frequencies(),
    {
        rewrite_all_messages(&mut self.messages, &FieldPass::MapRequired);
        if let Syntax::Proto3 = self.syntax {
            rewrite_all_messages(&mut self.messages, &FieldPass::RepeatedAsPacked);
        }
    }

    /// Clears the packed setting of fields that are not primitive.
    pub fn unset_packed_non_primitives(&mut self)
        ensures
            final(self)@ == old(self)@.with_packed_primitives_only(),
    {
        rewrite_all_messages(&mut self.messages, &FieldPass::UnsetPackedNonPrimitives);
    }
}

} // verus!
