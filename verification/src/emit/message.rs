//! The text of a message in the generated code: its definition, its reader
//! and writer, and the module of what is nested in it.

use vstd::prelude::*;
use vstd::string::*;
use crate::emit::enumerator::{custom_derive, derive_text};
use crate::emit::field::{lines_text, write_lines};
use crate::emit::owned::{
    owned_info_text, owned_text, try_from_text, write_owned, write_owned_info, write_try_from,
};
use crate::errors::{Error, ErrorView};
use crate::lifetime::message_has_lifetime;
use crate::model::{
    Config, DescView, Field, FieldView, FileDescriptor, Message, MessageIndex, MessageView,
    OneOfView, enums_view, fields_view, lemma_nested_views, messages_view, oneofs_view,
};
use crate::passes::paths_view;
use crate::plan::{CommonUses, fields_resolved, unregular};
use crate::tree::{field_refs_view, lemma_oneof_fields_step, oneof_fields};

verus! {

/// The imports that the code generated for a list of messages needs.
pub open spec fn common_uses_text(uses: CommonUses, config: &Config) -> Seq<char> {
    let vec = if uses.vec {
        "use alloc::vec::Vec;\n"@
    } else {
        Seq::empty()
    };
    let cow = if uses.cow {
        if config.nostd {
            vec + "use alloc::borrow::Cow;\n"@
        } else {
            vec + "use std::borrow::Cow;\n"@
        }
    } else if uses.to_owned {
        vec + "use alloc::borrow::ToOwned;\n"@
    } else {
        vec
    };
    let boxed = if uses.boxed {
        cow + "\n"@ + "use alloc::boxed::Box;\n"@
    } else {
        cow
    };
    if uses.map {
        if config.hashbrown {
            boxed + "use hashbrown::HashMap;\n"@ + "type KVMap<K, V> = HashMap<K, V>;\n"@
        } else if config.nostd {
            boxed + "use alloc::collections::BTreeMap;\n"@ + "type KVMap<K, V> = BTreeMap<K, V>;\n"@
        } else {
            boxed + "use std::collections::HashMap;\n"@ + "type KVMap<K, V> = HashMap<K, V>;\n"@
        }
    } else {
        boxed
    }
}

/// The imports that the code generated for a list of messages needs.
pub fn write_uses(uses: CommonUses, config: &Config) -> (r: String)
    ensures
        r@ == common_uses_text(uses, config),
{
    proof {
        reveal_strlit("");
        assert(""@ =~= Seq::<char>::empty());
    }
    let mut out = if uses.vec {
        String::from_str("use alloc::vec::Vec;\n")
    } else {
        String::from_str("")
    };
    if uses.cow {
        if config.nostd {
            out.append("use alloc::borrow::Cow;\n");
        } else {
            out.append("use std::borrow::Cow;\n");
        }
    } else if uses.to_owned {
        out.append("use alloc::borrow::ToOwned;\n");
    }
    if uses.boxed {
        out.append("\n");
        out.append("use alloc::boxed::Box;\n");
    }
    if uses.map {
        if config.hashbrown {
            out.append("use hashbrown::HashMap;\n");
            out.append("type KVMap<K, V> = HashMap<K, V>;\n");
        } else if config.nostd {
            out.append("use alloc::collections::BTreeMap;\n");
            out.append("type KVMap<K, V> = BTreeMap<K, V>;\n");
        } else {
            out.append("use std::collections::HashMap;\n");
            out.append("type KVMap<K, V> = HashMap<K, V>;\n");
        }
    }
    out
}

impl MessageView {
    /// Whether no type of a field of the message or of a member of its
    /// oneofs is or holds a name.
    pub open spec fn fields_known(self) -> bool {
        &&& forall|j: int| 0 <= j < self.fields.len() ==> (#[trigger] self.fields[j]).typ.is_known()
        &&& forall|k: int| 0 <= k < self.oneofs.len() ==> (#[trigger] self.oneofs[k]).is_known()
    }

    /// Whether no type of a field is or holds a name, in the message and in
    /// all that is nested in it.
    pub open spec fn is_known(self) -> bool
        decreases self,
    {
        &&& self.fields_known()
        &&& forall|i: int| 0 <= i < self.messages.len() ==> (#[trigger] self.messages[i]).is_known()
    }

    /// Whether the reader of the message can be written: no map has a map
    /// as key or value, and no member of a oneof is a map.
    pub open spec fn fields_readable(self, d: DescView, config: &Config) -> bool {
        &&& forall|j: int|
            0 <= j < self.fields.len() ==> (#[trigger] self.fields[j]).match_tag_text(d, config)
                is Ok
        &&& forall|k: int|
            0 <= k < self.oneofs.len() ==> (#[trigger] self.oneofs[k]).match_tag_text(
                d,
                config,
                self.oneofs[k].fields.len() as int,
            ) is Ok
    }

    /// Whether the readers of the message and of all that is nested in it
    /// can be written.
    pub open spec fn is_readable(self, d: DescView, config: &Config) -> bool
        decreases self,
    {
        &&& self.fields_readable(d, config)
        &&& forall|i: int|
            0 <= i < self.messages.len() ==> (#[trigger] self.messages[i]).is_readable(d, config)
    }

    /// The lifetime parameter of the message, if it is lifetime-bound.
    pub open spec fn lifetime_text(self, d: DescView, config: &Config) -> Seq<char> {
        if d.is_lifetime_bound(config, self) {
            "<'a>"@
        } else {
            Seq::empty()
        }
    }

    /// The lines of the first `n` fields in the definition of the message.
    pub open spec fn field_lines_text(self, d: DescView, config: &Config, n: int) -> Seq<char>
        decreases n,
    {
        if n <= 0 {
            Seq::empty()
        } else {
            self.field_lines_text(d, config, n - 1) + self.fields[n - 1].definition_text(d, config)
        }
    }

    /// The lines of the first `n` oneofs in the definition of the message.
    pub open spec fn oneof_lines_text(self, d: DescView, config: &Config, n: int) -> Seq<char>
        decreases n,
    {
        if n <= 0 {
            Seq::empty()
        } else {
            self.oneof_lines_text(d, config, n - 1) + self.oneofs[n - 1].message_definition_text(
                d,
                config,
            )
        }
    }

    /// The definition of the message.
    #[verifier::opaque]
    pub open spec fn definition_text(self, d: DescView, config: &Config) -> Seq<char> {
        let repr = match config.custom_repr {
            Some(r) => "#[repr("@ + r@ + ")]\n"@,
            None => Seq::empty(),
        };
        let head = "#[allow(clippy::derive_partial_eq_without_eq)]\n"@ + "#[derive("@
            + derive_text(config, self.module, self.name)
            + "Debug, Default, PartialEq, Clone)]\n"@ + lines_text(self.attributes, Seq::empty())
            + repr + "pub struct "@ + self.name;
        if self.is_unit() {
            head + " { }\n"@
        } else {
            head + self.lifetime_text(d, config) + " {\n"@ + self.field_lines_text(
                d,
                config,
                self.fields.len() as int,
            ) + self.oneof_lines_text(d, config, self.oneofs.len() as int) + "}\n"@
        }
    }

    /// The path of the message, for the messages that tell their path.
    #[verifier::opaque]
    pub open spec fn message_info_text(self, d: DescView, config: &Config) -> Seq<char> {
        let head = if d.is_lifetime_bound(config, self) {
            "impl<'a> MessageInfo for "@ + self.name + "<'a> {\n"@
        } else {
            "impl MessageInfo for "@ + self.name + " {\n"@
        };
        head + "    const PATH : &'static str = \""@ + self.module + "."@ + self.name + "\";\n"@
            + "}\n"@
    }

    /// The lines that set the first `n` of `fields` to their defaults.
    pub open spec fn default_lines_text(fields: Seq<FieldView>, n: int) -> Seq<char>
        decreases n,
    {
        if n <= 0 {
            Seq::empty()
        } else {
            Self::default_lines_text(fields, n - 1) + "            "@ + fields[n - 1].name + ": "@
                + fields[n - 1].default->0 + ",\n"@
        }
    }

    /// The statement that makes the message that the reader fills.
    #[verifier::opaque]
    pub open spec fn start_text(self, d: DescView) -> Seq<char> {
        let own = unregular(d, self.fields);
        if own.len() == 0 {
            "        let mut msg = Self::default();\n"@
        } else {
            "        let mut msg = "@ + self.name + " {\n"@ + Self::default_lines_text(
                own,
                own.len() as int,
            ) + "            ..Self::default()\n"@ + "        };\n"@
        }
    }

    /// The arms of the reader for the first `n` fields.
    pub open spec fn field_arms_text(self, d: DescView, config: &Config, n: int) -> Seq<char>
        decreases n,
    {
        if n <= 0 {
            Seq::empty()
        } else {
            self.field_arms_text(d, config, n - 1) + self.fields[n - 1].match_tag_text(
                d,
                config,
            )->Ok_0
        }
    }

    /// The arms of the reader for the first `n` oneofs.
    pub open spec fn oneof_arms_text(self, d: DescView, config: &Config, n: int) -> Seq<char>
        decreases n,
    {
        if n <= 0 {
            Seq::empty()
        } else {
            self.oneof_arms_text(d, config, n - 1) + self.oneofs[n - 1].match_tag_text(
                d,
                config,
                self.oneofs[n - 1].fields.len() as int,
            )->Ok_0
        }
    }

    /// The reader of the message.
    #[verifier::opaque]
    pub open spec fn message_read_text(self, d: DescView, config: &Config) -> Seq<char> {
        if self.is_unit() {
            "impl<'a> MessageRead<'a> for "@ + self.name + " {\n"@
                + "    fn from_reader(r: &mut BytesReader, _: &[u8]) -> Result<Self> {\n"@
                + "        r.read_to_end();\n"@ + "        Ok(Self::default())\n"@ + "    }\n"@
                + "}\n"@
        } else {
            "impl<'a> MessageRead<'a> for "@ + self.name + self.lifetime_text(d, config) + " {\n"@
                + "    fn from_reader(r: &mut BytesReader, bytes: &'a [u8]) -> Result<Self> {\n"@
                + self.start_text(d) + "        while !r.is_eof() {\n"@
                + "            match r.next_tag(bytes) {\n"@ + self.field_arms_text(
                d,
                config,
                self.fields.len() as int,
            ) + self.oneof_arms_text(d, config, self.oneofs.len() as int)
                + "                Ok(t) => { r.read_unknown(bytes, t)?; }\n"@
                + "                Err(e) => return Err(e),\n"@ + "            }\n"@
                + "        }\n"@ + "        Ok(msg)\n"@ + "    }\n"@ + "}\n"@
        }
    }

    /// The terms that the first `n` fields add to the size of the message.
    pub open spec fn field_sizes_text(self, d: DescView, config: &Config, n: int) -> Seq<char>
        decreases n,
    {
        if n <= 0 {
            Seq::empty()
        } else {
            self.field_sizes_text(d, config, n - 1) + self.fields[n - 1].get_size_text(d, config)
        }
    }

    /// The terms that the first `n` oneofs add to the size of the message.
    pub open spec fn oneof_sizes_text(self, d: DescView, config: &Config, n: int) -> Seq<char>
        decreases n,
    {
        if n <= 0 {
            Seq::empty()
        } else {
            self.oneof_sizes_text(d, config, n - 1) + self.oneofs[n - 1].get_size_text(d, config)
        }
    }

    /// The function that gives the size of the message.
    #[verifier::opaque]
    pub open spec fn get_size_text(self, d: DescView, config: &Config) -> Seq<char> {
        "    fn get_size(&self) -> usize {\n"@ + "        0\n"@ + self.field_sizes_text(
            d,
            config,
            self.fields.len() as int,
        ) + self.oneof_sizes_text(d, config, self.oneofs.len() as int) + "    }\n"@
    }

    /// The statements that write the first `n` fields.
    pub open spec fn field_writes_text(self, d: DescView, config: &Config, n: int) -> Seq<char>
        decreases n,
    {
        if n <= 0 {
            Seq::empty()
        } else {
            self.field_writes_text(d, config, n - 1) + self.fields[n - 1].write_text(d, config)
        }
    }

    /// The statements that write the first `n` oneofs.
    pub open spec fn oneof_writes_text(self, d: DescView, config: &Config, n: int) -> Seq<char>
        decreases n,
    {
        if n <= 0 {
            Seq::empty()
        } else {
            self.oneof_writes_text(d, config, n - 1) + self.oneofs[n - 1].write_text(d, config)
        }
    }

    /// The function that writes the message.
    #[verifier::opaque]
    pub open spec fn write_message_text(self, d: DescView, config: &Config) -> Seq<char> {
        "    fn write_message<W: WriterBackend>(&self, w: &mut Writer<W>) -> Result<()> {\n"@
            + self.field_writes_text(d, config, self.fields.len() as int) + self.oneof_writes_text(
            d,
            config,
            self.oneofs.len() as int,
        ) + "        Ok(())\n"@ + "    }\n"@
    }

    /// The writer of the message.
    #[verifier::opaque]
    pub open spec fn message_write_text(self, d: DescView, config: &Config) -> Seq<char> {
        if self.is_unit() {
            "impl MessageWrite for "@ + self.name + " { }\n"@
        } else {
            let head = if d.is_lifetime_bound(config, self) {
                "impl<'a> MessageWrite for "@ + self.name + "<'a> {\n"@
            } else {
                "impl MessageWrite for "@ + self.name + " {\n"@
            };
            head + self.get_size_text(d, config) + "\n"@ + self.write_message_text(d, config)
                + "}\n"@
        }
    }

    /// The owned form of the message, with its path if messages tell their
    /// path.
    #[verifier::opaque]
    pub open spec fn impl_owned_text(self, config: &Config) -> Seq<char> {
        if config.gen_info {
            owned_text(self.name) + owned_info_text(self.name, self.module)
        } else {
            owned_text(self.name)
        }
    }

    /// What stands for each of the messages nested in the message.
    pub open spec fn child_texts(self, d: DescView, config: &Config) -> Seq<Seq<char>>
        decreases self, 0nat,
    {
        Seq::new(
            self.messages.len(),
            |i: int|
                if 0 <= i < self.messages.len() {
                    self.messages[i].text(d, config)
                } else {
                    Seq::empty()
                },
        )
    }

    /// What stands for the first `n` enums nested in the message.
    pub open spec fn nested_enums_text(self, config: &Config, n: int) -> Seq<char>
        decreases n,
    {
        if n <= 0 {
            Seq::empty()
        } else {
            self.nested_enums_text(config, n - 1) + self.enums[n - 1].text(config)
        }
    }

    /// What stands for the first `n` oneofs of the message.
    pub open spec fn nested_oneofs_text(self, d: DescView, config: &Config, n: int) -> Seq<char>
        decreases n,
    {
        if n <= 0 {
            Seq::empty()
        } else {
            self.nested_oneofs_text(d, config, n - 1) + self.oneofs[n - 1].text(d, config)
        }
    }

    /// The module of what is nested in the message, if anything is.
    #[verifier::opaque]
    pub open spec fn module_text(self, d: DescView, config: &Config, nested: Seq<char>) -> Seq<
        char,
    > {
        if self.messages.len() == 0 && self.enums.len() == 0 && self.oneofs.len() == 0 {
            Seq::empty()
        } else {
            let all = if self.messages.len() != 0 || self.oneofs.len() != 0 {
                "use super::*;\n"@
            } else {
                Seq::empty()
            };
            "\n"@ + "pub mod mod_"@ + self.name + " {\n"@ + "\n"@ + common_uses_text(
                d.common_uses(self.messages, config),
                config,
            ) + all + nested + self.nested_enums_text(config, self.enums.len() as int)
                + self.nested_oneofs_text(d, config, self.oneofs.len() as int) + "\n"@ + "}\n"@
        }
    }

    /// All that stands for the message in the generated code.
    #[verifier::opaque]
    pub open spec fn text(self, d: DescView, config: &Config) -> Seq<char>
        decreases self, 1nat,
    {
        let info = if config.gen_info {
            self.message_info_text(d, config) + "\n"@
        } else {
            Seq::empty()
        };
        let owned = if d.owned {
            if message_has_lifetime(d, config.add_deprecated_fields, self, Seq::empty()) {
                "\n"@ + self.impl_owned_text(config)
            } else {
                "\n"@ + try_from_text(self.name)
            }
        } else {
            Seq::empty()
        };
        "\n"@ + self.definition_text(d, config) + "\n"@ + self.message_read_text(d, config) + "\n"@
            + self.message_write_text(d, config) + info + owned + self.module_text(
            d,
            config,
            self.child_texts(d, config).flatten(),
        )
    }
}

/// The fields of a message whose types are known are all its fields.
pub proof fn lemma_all_fields_known(m: MessageView)
    requires
        m.fields_known(),
    ensures
        forall|j: int| 0 <= j < m.all_fields().len() ==> (#[trigger] m.all_fields()[j]).typ.is_known(),
{
    lemma_oneof_fields_known(m.oneofs, m.oneofs.len() as int);
    assert(m.oneofs.take(m.oneofs.len() as int) =~= m.oneofs);
}

/// The members of oneofs whose types are known are all their members.
pub proof fn lemma_oneof_fields_known(oneofs: Seq<OneOfView>, n: int)
    requires
        0 <= n <= oneofs.len(),
        forall|k: int| 0 <= k < oneofs.len() ==> (#[trigger] oneofs[k]).is_known(),
    ensures
        forall|j: int|
            0 <= j < oneof_fields(oneofs.take(n)).len() ==> (#[trigger] oneof_fields(
                oneofs.take(n),
            )[j]).typ.is_known(),
    decreases n,
{
    if n == 0 {
        assert(oneofs.take(0).map_values(|o: OneOfView| o.fields) =~= Seq::<Seq<FieldView>>::empty());
    } else {
        lemma_oneof_fields_known(oneofs, n - 1);
        lemma_oneof_fields_step(oneofs, n - 1);
        let before = oneof_fields(oneofs.take(n - 1));
        assert forall|j: int| 0 <= j < oneof_fields(oneofs.take(n)).len() implies (
        #[trigger] oneof_fields(oneofs.take(n))[j]).typ.is_known() by {
            if j >= before.len() {
                assert(oneofs[n - 1].is_known());
                assert(oneof_fields(oneofs.take(n))[j] == oneofs[n - 1].fields[j - before.len()]);
            } else {
                assert(oneof_fields(oneofs.take(n))[j] == before[j]);
            }
        }
    }
}

/// In messages whose fields are known, no field has a name as its type.
pub proof fn lemma_known_is_resolved(messages: Seq<MessageView>)
    requires
        forall|i: int| 0 <= i < messages.len() ==> (#[trigger] messages[i]).is_known(),
    ensures
        fields_resolved(messages),
{
    assert forall|k: int, j: int|
        0 <= k < messages.len() && 0 <= j < messages[k].all_fields().len() implies !(
    #[trigger] messages[k].all_fields()[j]).typ.is_unresolved() by {
        assert(messages[k].is_known());
        lemma_all_fields_known(messages[k]);
    }
}

impl Message {
    /// The lifetime parameter of the message, if it is lifetime-bound.
    fn lifetime_text(&self, desc: &FileDescriptor, config: &Config) -> (r: &'static str)
        ensures
            r@ == self@.lifetime_text(desc@, config),
    {
        if self.is_lifetime_bound(desc, config) {
            "<'a>"
        } else {
            proof {
                reveal_strlit("");
                assert(""@ =~= Seq::<char>::empty());
            }
            ""
        }
    }

    /// The imports that the code generated for `messages` needs.
    pub fn write_common_uses(messages: &Vec<Message>, desc: &FileDescriptor, config: &Config) -> (r:
        String)
        requires
            fields_resolved(messages_view(messages@)),
        ensures
            r@ == common_uses_text(desc@.common_uses(messages_view(messages@), config), config),
    {
        write_uses(Message::common_uses(messages, desc, config), config)
    }

    /// The definition of the message.
    pub fn write_definition(&self, desc: &FileDescriptor, config: &Config) -> (r: String)
        requires
            self@.fields_known(),
        ensures
            r@ == self@.definition_text(desc@, config),
    {
        proof {
            reveal(MessageView::definition_text);
        }
        proof {
            reveal_strlit("");
            assert(""@ =~= Seq::<char>::empty());
        }
        let mut out = String::from_str("#[allow(clippy::derive_partial_eq_without_eq)]\n");
        out.append("#[derive(");
        out.append(custom_derive(config, self.module.as_str(), self.name.as_str()).as_str());
        out.append("Debug, Default, PartialEq, Clone)]\n");
        out.append(write_lines(&self.attributes, "").as_str());
        let repr = match &config.custom_repr {
            Some(r) => {
                let mut text = String::from_str("#[repr(");
                text.append(r.as_str());
                text.append(")]\n");
                text
            },
            None => String::from_str(""),
        };
        out.append(repr.as_str());
        out.append("pub struct ");
        out.append(self.name.as_str());
        if self.is_unit() {
            out.append(" { }\n");
            return out;
        }
        out.append(self.lifetime_text(desc, config));
        out.append(" {\n");
        let mut lines = String::from_str("");
        let n = self.fields.len();
        let mut i: usize = 0;
        while i < n
            invariant
                i <= n,
                n == self.fields@.len(),
                self@.fields_known(),
                lines@ == self@.field_lines_text(desc@, config, i as int),
            decreases n - i,
        {
            proof {
                assert(self@.fields[i as int] == self.fields@[i as int]@);
                assert(self@.fields[i as int].typ.is_known());
                reveal_with_fuel(crate::model::TypeView::is_known, 2);
            }
            lines.append(self.fields[i].write_definition(desc, config).as_str());
            i += 1;
        }
        out.append(lines.as_str());
        let mut more = String::from_str("");
        let k = self.oneofs.len();
        let mut j: usize = 0;
        while j < k
            invariant
                j <= k,
                k == self.oneofs@.len(),
                more@ == self@.oneof_lines_text(desc@, config, j as int),
            decreases k - j,
        {
            assert(self@.oneofs[j as int] == self.oneofs@[j as int]@);
            more.append(self.oneofs[j].write_message_definition(desc, config).as_str());
            j += 1;
        }
        out.append(more.as_str());
        out.append("}\n");
        out
    }

    /// The path of the message, for the messages that tell their path.
    pub fn write_impl_message_info(&self, desc: &FileDescriptor, config: &Config) -> (r: String)
        ensures
            r@ == self@.message_info_text(desc@, config),
    {
        proof {
            reveal(MessageView::message_info_text);
        }
        let mut out = if self.is_lifetime_bound(desc, config) {
            let mut head = String::from_str("impl<'a> MessageInfo for ");
            head.append(self.name.as_str());
            head.append("<'a> {\n");
            head
        } else {
            let mut head = String::from_str("impl MessageInfo for ");
            head.append(self.name.as_str());
            head.append(" {\n");
            head
        };
        out.append("    const PATH : &'static str = \"");
        out.append(self.module.as_str());
        out.append(".");
        out.append(self.name.as_str());
        out.append("\";\n");
        out.append("}\n");
        out
    }

    /// The statement that makes the message that the reader fills.
    fn write_start(&self, desc: &FileDescriptor) -> (r: String)
        ensures
            r@ == self@.start_text(desc@),
    {
        proof {
            reveal(MessageView::start_text);
        }
        let own = self.unregular_defaults(desc);
        let ghost fields = unregular(desc@, self@.fields);
        assert(fields.len() == own@.len());
        if own.len() == 0 {
            return String::from_str("        let mut msg = Self::default();\n");
        }
        let mut out = String::from_str("        let mut msg = ");
        out.append(self.name.as_str());
        out.append(" {\n");
        let mut lines = String::from_str("");
        proof {
            reveal_strlit("");
            assert(""@ =~= Seq::<char>::empty());
        }
        let n = own.len();
        let mut i: usize = 0;
        while i < n
            invariant
                i <= n,
                n == own@.len(),
                fields == field_refs_view(own@),
                fields == unregular(desc@, self@.fields),
                lines@ == MessageView::default_lines_text(fields, i as int),
            decreases n - i,
        {
            let f: &Field = own[i];
            assert(fields[i as int] == f@);
            lines.append("            ");
            lines.append(f.name.as_str());
            lines.append(": ");
            match &f.default {
                Some(d) => {
                    lines.append(d.as_str());
                },
                None => {
                    proof {
                        lemma_unregular_has_default(desc@, self@.fields, i as int);
                    }
                },
            }
            lines.append(",\n");
            i += 1;
        }
        out.append(lines.as_str());
        out.append("            ..Self::default()\n");
        out.append("        };\n");
        out
    }

    /// The reader of the message. A map whose key or value is a map, and a
    /// map that is a member of a oneof, cannot be read.
    pub fn write_impl_message_read(&self, desc: &FileDescriptor, config: &Config) -> (r: Result<
        String,
        Error,
    >)
        requires
            self@.fields_known(),
        ensures
            r is Ok <==> self@.fields_readable(desc@, config),
            r is Ok ==> r->Ok_0@ == self@.message_read_text(desc@, config),
            r is Err ==> r->Err_0@ == ErrorView::ReadFnMap,
    {
        proof {
            reveal(MessageView::message_read_text);
        }
        proof {
            reveal_strlit("");
            assert(""@ =~= Seq::<char>::empty());
        }
        let mut arms = String::from_str("");
        let n = self.fields.len();
        let mut i: usize = 0;
        while i < n
            invariant
                i <= n,
                n == self.fields@.len(),
                self@.fields_known(),
                arms@ == self@.field_arms_text(desc@, config, i as int),
                forall|x: int|
                    0 <= x < i ==> (#[trigger] self@.fields[x]).match_tag_text(desc@, config) is Ok,
            decreases n - i,
        {
            proof {
                assert(self@.fields[i as int] == self.fields@[i as int]@);
                assert(self@.fields[i as int].typ.is_known());
            }
            match self.fields[i].write_match_tag(desc, config) {
                Ok(arm) => {
                    arms.append(arm.as_str());
                },
                Err(e) => {
                    proof {
                        lemma_read_rule_error(self@.fields[i as int], desc@, config);
                    }
                    return Err(e);
                },
            }
            i += 1;
        }
        let mut more = String::from_str("");
        let k = self.oneofs.len();
        let mut j: usize = 0;
        while j < k
            invariant
                j <= k,
                k == self.oneofs@.len(),
                self@.fields_known(),
                more@ == self@.oneof_arms_text(desc@, config, j as int),
                forall|x: int|
                    0 <= x < j ==> (#[trigger] self@.oneofs[x]).match_tag_text(
                        desc@,
                        config,
                        self@.oneofs[x].fields.len() as int,
                    ) is Ok,
            decreases k - j,
        {
            proof {
                assert(self@.oneofs[j as int] == self.oneofs@[j as int]@);
                assert(self@.oneofs[j as int].is_known());
            }
            match self.oneofs[j].write_match_tag(desc, config) {
                Ok(arm) => {
                    more.append(arm.as_str());
                },
                Err(e) => {
                    return Err(e);
                },
            }
            j += 1;
        }
        if self.is_unit() {
            let mut out = String::from_str("impl<'a> MessageRead<'a> for ");
            out.append(self.name.as_str());
            out.append(" {\n");
            out.append("    fn from_reader(r: &mut BytesReader, _: &[u8]) -> Result<Self> {\n");
            out.append("        r.read_to_end();\n");
            out.append("        Ok(Self::default())\n");
            out.append("    }\n");
            out.append("}\n");
            return Ok(out);
        }
        let mut out = String::from_str("impl<'a> MessageRead<'a> for ");
        out.append(self.name.as_str());
        out.append(self.lifetime_text(desc, config));
        out.append(" {\n");
        out.append("    fn from_reader(r: &mut BytesReader, bytes: &'a [u8]) -> Result<Self> {\n");
        out.append(self.write_start(desc).as_str());
        out.append("        while !r.is_eof() {\n");
        out.append("            match r.next_tag(bytes) {\n");
        out.append(arms.as_str());
        out.append(more.as_str());
        out.append("                Ok(t) => { r.read_unknown(bytes, t)?; }\n");
        out.append("                Err(e) => return Err(e),\n");
        out.append("            }\n");
        out.append("        }\n");
        out.append("        Ok(msg)\n");
        out.append("    }\n");
        out.append("}\n");
        Ok(out)
    }

    /// The function that gives the size of the message.
    pub fn write_get_size(&self, desc: &FileDescriptor, config: &Config) -> (r: String)
        requires
            self@.fields_known(),
        ensures
            r@ == self@.get_size_text(desc@, config),
    {
        proof {
            reveal(MessageView::get_size_text);
        }
        proof {
            reveal_strlit("");
            assert(""@ =~= Seq::<char>::empty());
        }
        let mut out = String::from_str("    fn get_size(&self) -> usize {\n");
        out.append("        0\n");
        let mut terms = String::from_str("");
        let n = self.fields.len();
        let mut i: usize = 0;
        while i < n
            invariant
                i <= n,
                n == self.fields@.len(),
                self@.fields_known(),
                terms@ == self@.field_sizes_text(desc@, config, i as int),
            decreases n - i,
        {
            proof {
                assert(self@.fields[i as int] == self.fields@[i as int]@);
                assert(self@.fields[i as int].typ.is_known());
                reveal_with_fuel(crate::model::TypeView::is_known, 2);
            }
            terms.append(self.fields[i].write_get_size(desc, config).as_str());
            i += 1;
        }
        out.append(terms.as_str());
        let mut more = String::from_str("");
        let k = self.oneofs.len();
        let mut j: usize = 0;
        while j < k
            invariant
                j <= k,
                k == self.oneofs@.len(),
                self@.fields_known(),
                more@ == self@.oneof_sizes_text(desc@, config, j as int),
            decreases k - j,
        {
            proof {
                assert(self@.oneofs[j as int] == self.oneofs@[j as int]@);
                assert(self@.oneofs[j as int].is_known());
            }
            more.append(self.oneofs[j].write_get_size(desc, config).as_str());
            j += 1;
        }
        out.append(more.as_str());
        out.append("    }\n");
        out
    }

    /// The function that writes the message.
    pub fn write_write_message(&self, desc: &FileDescriptor, config: &Config) -> (r: String)
        requires
            self@.fields_known(),
        ensures
            r@ == self@.write_message_text(desc@, config),
    {
        proof {
            reveal(MessageView::write_message_text);
        }
        proof {
            reveal_strlit("");
            assert(""@ =~= Seq::<char>::empty());
        }
        let mut out = String::from_str(
            "    fn write_message<W: WriterBackend>(&self, w: &mut Writer<W>) -> Result<()> {\n",
        );
        let mut lines = String::from_str("");
        let n = self.fields.len();
        let mut i: usize = 0;
        while i < n
            invariant
                i <= n,
                n == self.fields@.len(),
                self@.fields_known(),
                lines@ == self@.field_writes_text(desc@, config, i as int),
            decreases n - i,
        {
            proof {
                assert(self@.fields[i as int] == self.fields@[i as int]@);
                assert(self@.fields[i as int].typ.is_known());
            }
            lines.append(self.fields[i].write_write(desc, config).as_str());
            i += 1;
        }
        out.append(lines.as_str());
        let mut more = String::from_str("");
        let k = self.oneofs.len();
        let mut j: usize = 0;
        while j < k
            invariant
                j <= k,
                k == self.oneofs@.len(),
                self@.fields_known(),
                more@ == self@.oneof_writes_text(desc@, config, j as int),
            decreases k - j,
        {
            proof {
                assert(self@.oneofs[j as int] == self.oneofs@[j as int]@);
                assert(self@.oneofs[j as int].is_known());
            }
            more.append(self.oneofs[j].write_write(desc, config).as_str());
            j += 1;
        }
        out.append(more.as_str());
        out.append("        Ok(())\n");
        out.append("    }\n");
        out
    }

    /// The writer of the message.
    pub fn write_impl_message_write(&self, desc: &FileDescriptor, config: &Config) -> (r: String)
        requires
            self@.fields_known(),
        ensures
            r@ == self@.message_write_text(desc@, config),
    {
        proof {
            reveal(MessageView::message_write_text);
        }
        if self.is_unit() {
            let mut out = String::from_str("impl MessageWrite for ");
            out.append(self.name.as_str());
            out.append(" { }\n");
            return out;
        }
        let mut out = if self.is_lifetime_bound(desc, config) {
            let mut head = String::from_str("impl<'a> MessageWrite for ");
            head.append(self.name.as_str());
            head.append("<'a> {\n");
            head
        } else {
            let mut head = String::from_str("impl MessageWrite for ");
            head.append(self.name.as_str());
            head.append(" {\n");
            head
        };
        out.append(self.write_get_size(desc, config).as_str());
        out.append("\n");
        out.append(self.write_write_message(desc, config).as_str());
        out.append("}\n");
        out
    }

    /// The owned form of the message, with its path if messages tell their
    /// path.
    pub fn write_impl_owned(&self, config: &Config) -> (r: String)
        ensures
            r@ == self@.impl_owned_text(config),
    {
        proof {
            reveal(MessageView::impl_owned_text);
        }
        let mut out = write_owned(self.name.as_str());
        if config.gen_info {
            out.append(write_owned_info(self.name.as_str(), self.module.as_str()).as_str());
        }
        out
    }

    /// The conversions of the message from bytes, for a message that
    /// borrows nothing.
    pub fn write_impl_try_from(&self) -> (r: String)
        ensures
            r@ == try_from_text(self@.name),
    {
        write_try_from(self.name.as_str())
    }

    /// The module of what is nested in the message, if anything is.
    pub fn write_module(&self, desc: &FileDescriptor, config: &Config) -> (r: Result<String, Error>)
        requires
            self@.is_known(),
        ensures
            r is Ok <==> forall|i: int|
                0 <= i < self@.messages.len() ==> (#[trigger] self@.messages[i]).is_readable(
                    desc@,
                    config,
                ),
            r is Ok ==> r->Ok_0@ == self@.module_text(
                desc@,
                config,
                self@.child_texts(desc@, config).flatten(),
            ),
            r is Err ==> r->Err_0@ == ErrorView::ReadFnMap,
        decreases self, 0nat,
    {
        let ghost texts = self@.child_texts(desc@, config);
        proof {
            reveal_strlit("");
            assert(""@ =~= Seq::<char>::empty());
            lemma_nested_views(*self);
            lemma_known_is_resolved(self@.messages);
            reveal(MessageView::module_text);
            reveal(MessageView::text);
            assert(texts.take(0) =~= Seq::<Seq<char>>::empty());
        }
        let mut nested = String::from_str("");
        let n = self.messages.len();
        let mut i: usize = 0;
        while i < n
            invariant
                i <= n,
                n == self.messages@.len(),
                self@.is_known(),
                self@.messages == messages_view(self.messages@),
                texts == self@.child_texts(desc@, config),
                nested@ == texts.take(i as int).flatten(),
                forall|x: int|
                    0 <= x < i ==> (#[trigger] self@.messages[x]).is_readable(desc@, config),
            decreases n - i,
        {
            proof {
                assert(self@.messages[i as int] == self.messages@[i as int]@);
                assert(self@.messages[i as int].is_known());
            }
            match self.messages[i].write(desc, config) {
                Ok(text) => {
                    nested.append(text.as_str());
                    proof {
                        reveal(MessageView::text);
                        assert(texts[i as int] == self@.messages[i as int].text(desc@, config));
                        assert(texts.take(i as int + 1) =~= texts.take(i as int).push(
                            texts[i as int],
                        ));
                        texts.take(i as int).lemma_flatten_push(texts[i as int]);
                    }
                },
                Err(e) => {
                    return Err(e);
                },
            }
            i += 1;
        }
        proof {
            assert(texts.take(n as int) =~= texts);
        }
        if self.messages.len() == 0 && self.enums.len() == 0 && self.oneofs.len() == 0 {
            return Ok(String::from_str(""));
        }
        let mut out = String::from_str("\n");
        out.append("pub mod mod_");
        out.append(self.name.as_str());
        out.append(" {\n");
        out.append("\n");
        out.append(Message::write_common_uses(&self.messages, desc, config).as_str());
        let all = if self.messages.len() != 0 || self.oneofs.len() != 0 {
            "use super::*;\n"
        } else {
            ""
        };
        out.append(all);
        out.append(nested.as_str());
        let mut enums = String::from_str("");
        let k = self.enums.len();
        let mut j: usize = 0;
        while j < k
            invariant
                j <= k,
                k == self.enums@.len(),
                enums@ == self@.nested_enums_text(config, j as int),
            decreases k - j,
        {
            assert(self@.enums[j as int] == self.enums@[j as int]@);
            enums.append(self.enums[j].write(config).as_str());
            j += 1;
        }
        out.append(enums.as_str());
        let mut oneofs = String::from_str("");
        let c = self.oneofs.len();
        let mut x: usize = 0;
        while x < c
            invariant
                x <= c,
                c == self.oneofs@.len(),
                oneofs@ == self@.nested_oneofs_text(desc@, config, x as int),
            decreases c - x,
        {
            assert(self@.oneofs[x as int] == self.oneofs@[x as int]@);
            oneofs.append(self.oneofs[x].write(desc, config).as_str());
            x += 1;
        }
        out.append(oneofs.as_str());
        out.append("\n");
        out.append("}\n");
        Ok(out)
    }

    /// All that stands for the message in the generated code.
    pub fn write(&self, desc: &FileDescriptor, config: &Config) -> (r: Result<String, Error>)
        requires
            self@.is_known(),
        ensures
            r is Ok <==> self@.is_readable(desc@, config),
            r is Ok ==> r->Ok_0@ == self@.text(desc@, config),
            r is Err ==> r->Err_0@ == ErrorView::ReadFnMap,
        decreases self, 1nat,
    {
        proof {
            reveal_strlit("");
            assert(""@ =~= Seq::<char>::empty());
            reveal(MessageView::text);
        }
        let mut out = String::from_str("\n");
        out.append(self.write_definition(desc, config).as_str());
        out.append("\n");
        match self.write_impl_message_read(desc, config) {
            Ok(text) => {
                out.append(text.as_str());
            },
            Err(e) => {
                return Err(e);
            },
        }
        out.append("\n");
        out.append(self.write_impl_message_write(desc, config).as_str());
        let info = if config.gen_info {
            let mut info = self.write_impl_message_info(desc, config);
            info.append("\n");
            info
        } else {
            String::from_str("")
        };
        out.append(info.as_str());
        let owned = if desc.owned {
            let mut ignore: Vec<MessageIndex> = Vec::new();
            assert(paths_view(ignore@) =~= Seq::<Seq<usize>>::empty());
            let mut owned = String::from_str("\n");
            if self.has_lifetime(desc, config, &mut ignore) {
                owned.append(self.write_impl_owned(config).as_str());
            } else {
                owned.append(self.write_impl_try_from().as_str());
            }
            owned
        } else {
            String::from_str("")
        };
        out.append(owned.as_str());
        match self.write_module(desc, config) {
            Ok(text) => {
                out.append(text.as_str());
            },
            Err(e) => {
                return Err(e);
            },
        }
        Ok(out)
    }
}

/// A field among those with a default other than that of their type has a
/// default.
pub proof fn lemma_unregular_has_default(d: DescView, fields: Seq<FieldView>, i: int)
    requires
        0 <= i < unregular(d, fields).len(),
    ensures
        unregular(d, fields)[i].default is Some,
    decreases fields.len(),
{
    if fields.len() > 0 {
        let front = unregular(d, fields.drop_last());
        if i < front.len() {
            lemma_unregular_has_default(d, fields.drop_last(), i);
        }
    }
}

/// The arm of the reader for a field fails only for a map.
pub proof fn lemma_read_rule_error(f: FieldView, d: DescView, config: &Config)
    ensures
        f.match_tag_text(d, config) is Err ==> f.match_tag_text(d, config)->Err_0
            == ErrorView::ReadFnMap,
        f.read_rule(d.syntax, config) is Err ==> f.read_rule(d.syntax, config)->Err_0
            == ErrorView::ReadFnMap,
{
}

} // verus!

