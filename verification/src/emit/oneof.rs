//! The text of a oneof in the generated code: the enum that holds the
//! member that is set, and what the oneof adds to its message.

use vstd::prelude::*;
use vstd::string::*;
use crate::emit::enumerator::{custom_derive, derive_text};
use crate::emit::field::{lines_text, write_lines};
use crate::emit::number::{decimal_text, number_text};
use crate::errors::{Error, ErrorView};
use crate::lifetime::fields_have_lifetime;
use crate::model::{Config, DescView, Field, FieldView, FileDescriptor, OneOf, OneOfView};
use crate::typetext::{modules_of, type_text};

verus! {

impl OneOfView {
    /// Whether no type of a member is or holds a name.
    pub open spec fn is_known(self) -> bool {
        forall|i: int| 0 <= i < self.fields.len() ==> (#[trigger] self.fields[i]).typ.is_known()
    }

    /// Whether the enum of the oneof borrows the bytes it is read from.
    pub open spec fn has_lifetime(self, d: DescView, config: &Config) -> bool {
        fields_have_lifetime(d, config.add_deprecated_fields, self.fields, Seq::empty())
    }

    /// The path of the enum of the oneof as written in the file.
    pub open spec fn enum_path(self, d: DescView) -> Seq<char> {
        modules_of(self.module, self.imported, d.package) + "OneOf"@ + self.name
    }

    /// The lifetime parameter of the enum of the oneof, if it has one.
    pub open spec fn lifetime_text(self, d: DescView, config: &Config) -> Seq<char> {
        if self.has_lifetime(d, config) {
            "<'a>"@
        } else {
            Seq::empty()
        }
    }

    /// The variant of the member `f` in the enum of the oneof.
    pub open spec fn member_text(self, d: DescView, config: &Config, f: FieldView) -> Seq<char> {
        if !f.is_emitted(config) {
            Seq::empty()
        } else {
            let typ = type_text(d, config.add_deprecated_fields, f.typ);
            let mark = if f.deprecated {
                "    #[deprecated]\n"@
            } else {
                Seq::empty()
            };
            let head = mark + lines_text(f.attributes, "    "@) + "    "@ + f.name;
            if f.boxed {
                head + "(Box<"@ + typ + ">),\n"@
            } else {
                head + "("@ + typ + "),\n"@
            }
        }
    }

    /// The variants of the first `n` members.
    pub open spec fn members_text(self, d: DescView, config: &Config, n: int) -> Seq<char>
        decreases n,
    {
        if n <= 0 {
            Seq::empty()
        } else {
            self.members_text(d, config, n - 1) + self.member_text(d, config, self.fields[n - 1])
        }
    }

    /// The definition of the enum of the oneof.
    #[verifier::opaque]
    pub open spec fn definition_text(self, d: DescView, config: &Config) -> Seq<char> {
        "#[derive("@ + derive_text(config, self.module, self.name) + "Debug, PartialEq, Clone)]\n"@
            + lines_text(self.container_attributes, Seq::empty()) + "pub enum OneOf"@ + self.name
            + self.lifetime_text(d, config) + " {\n"@ + self.members_text(
            d,
            config,
            self.fields.len() as int,
        ) + "    None,\n"@ + "}\n"@
    }

    /// The default of the enum of the oneof: no member is set.
    #[verifier::opaque]
    pub open spec fn impl_default_text(self, d: DescView, config: &Config) -> Seq<char> {
        let head = if self.has_lifetime(d, config) {
            "impl<'a> Default for OneOf"@ + self.name + "<'a> {\n"@
        } else {
            "impl Default for OneOf"@ + self.name + " {\n"@
        };
        head + "    fn default() -> Self {\n"@ + "        OneOf"@ + self.name + "::None\n"@
            + "    }\n"@ + "}\n"@
    }

    /// The line of the oneof in the definition of its message.
    #[verifier::opaque]
    pub open spec fn message_definition_text(self, d: DescView, config: &Config) -> Seq<char> {
        lines_text(self.field_attributes, "    "@) + "    pub "@ + self.name + ": "@
            + self.enum_path(d) + self.lifetime_text(d, config) + ",\n"@
    }

    /// The arm of the reader for the tag of the member `f`.
    pub open spec fn member_arm_text(self, d: DescView, f: FieldView) -> Seq<char> {
        let texts = f.typ.read_texts(d)->Ok_0;
        let head = "                Ok("@ + decimal_text(f.tag() as nat) + ") => msg."@ + self.name
            + " = "@ + self.enum_path(d) + "::"@ + f.name;
        if f.boxed {
            head + "(Box::new("@ + texts.0 + ")),\n"@
        } else {
            head + "("@ + texts.1 + "),\n"@
        }
    }

    /// The arms of the reader for the tags of the first `n` members, or the
    /// error of the first member that is a map.
    pub open spec fn match_tag_text(self, d: DescView, config: &Config, n: int) -> Result<
        Seq<char>,
        ErrorView,
    >
        decreases n,
    {
        if n <= 0 {
            Ok(Seq::empty())
        } else {
            match self.match_tag_text(d, config, n - 1) {
                Err(e) => Err(e),
                Ok(before) => {
                    let f = self.fields[n - 1];
                    if !f.is_emitted(config) {
                        Ok(before)
                    } else if f.typ is Map_ {
                        Err(ErrorView::ReadFnMap)
                    } else {
                        Ok(before + self.member_arm_text(d, f))
                    }
                },
            }
        }
    }

    /// The arm for the member `f` in the size of the oneof.
    pub open spec fn member_size_text(self, d: DescView, config: &Config, f: FieldView) -> Seq<char> {
        if !f.is_emitted(config) {
            Seq::empty()
        } else {
            let head = "            "@ + self.enum_path(d) + "::"@ + f.name;
            if f.typ.is_fixed_size() {
                head + "(_) => "@ + decimal_text(f.tag_size()) + " + "@ + f.typ.size_text(
                    Seq::empty(),
                ) + ",\n"@
            } else {
                head + "(ref m) => "@ + decimal_text(f.tag_size()) + " + "@ + f.typ.size_text("m"@)
                    + ",\n"@
            }
        }
    }

    /// The arms for the first `n` members in the size of the oneof.
    pub open spec fn sizes_text(self, d: DescView, config: &Config, n: int) -> Seq<char>
        decreases n,
    {
        if n <= 0 {
            Seq::empty()
        } else {
            self.sizes_text(d, config, n - 1) + self.member_size_text(d, config, self.fields[n - 1])
        }
    }

    /// The term that the oneof adds to the size of its message.
    #[verifier::opaque]
    pub open spec fn get_size_text(self, d: DescView, config: &Config) -> Seq<char> {
        "        + match self."@ + self.name + " {\n"@ + self.sizes_text(
            d,
            config,
            self.fields.len() as int,
        ) + "            "@ + self.enum_path(d) + "::None => 0,\n"@ + "    }"@
    }

    /// The arm that writes the member `f`.
    pub open spec fn member_write_text(self, d: DescView, config: &Config, f: FieldView) -> Seq<char> {
        if !f.is_emitted(config) {
            Seq::empty()
        } else {
            "            "@ + self.enum_path(d) + "::"@ + f.name
                + "(ref m) => { w.write_with_tag("@ + decimal_text(f.tag() as nat) + ", |w| w."@
                + f.typ.write_text("m"@, f.boxed) + ")? },\n"@
        }
    }

    /// The arms that write the first `n` members.
    pub open spec fn writes_text(self, d: DescView, config: &Config, n: int) -> Seq<char>
        decreases n,
    {
        if n <= 0 {
            Seq::empty()
        } else {
            self.writes_text(d, config, n - 1) + self.member_write_text(
                d,
                config,
                self.fields[n - 1],
            )
        }
    }

    /// The statement that writes the oneof.
    #[verifier::opaque]
    pub open spec fn write_text(self, d: DescView, config: &Config) -> Seq<char> {
        "        match self."@ + self.name + " {"@ + self.writes_text(
            d,
            config,
            self.fields.len() as int,
        ) + "            "@ + self.enum_path(d) + "::None => {},\n"@ + "    }"@
    }

    /// Whether the type of the member at `i` is that of a member before it.
    pub open spec fn repeats_type(self, d: DescView, config: &Config, i: int) -> bool {
        exists|j: int|
            0 <= j < i && (#[trigger] self.fields[j]).is_emitted(config) && type_text(
                d,
                config.add_deprecated_fields,
                self.fields[j].typ,
            ) == type_text(d, config.add_deprecated_fields, self.fields[i].typ)
    }

    /// The conversion into the enum of the oneof from the type of the
    /// member `f`.
    pub open spec fn member_from_text(self, d: DescView, config: &Config, f: FieldView) -> Seq<char> {
        let typ = type_text(d, config.add_deprecated_fields, f.typ);
        "impl From<"@ + typ + "> for OneOf"@ + self.name + " {\n"@ + "   fn from(f: "@ + typ
            + ") -> OneOf"@ + self.name + " {\n"@ + "      OneOf"@ + self.name + "::"@ + f.name
            + "(f)\n"@ + "   }\n"@ + "}\n"@
    }

    /// The conversions into the enum of the oneof from the types of the
    /// first `n` members: for each type, from the first member that has it.
    pub open spec fn from_impls_text(self, d: DescView, config: &Config, n: int) -> Seq<char>
        decreases n,
    {
        if n <= 0 {
            Seq::empty()
        } else {
            let before = self.from_impls_text(d, config, n - 1);
            let f = self.fields[n - 1];
            if f.is_emitted(config) && !self.repeats_type(d, config, n - 1) {
                before + self.member_from_text(d, config, f)
            } else {
                before
            }
        }
    }

    /// All that stands for the oneof in the module of its message: the
    /// definition of its enum and the default.
    #[verifier::opaque]
    pub open spec fn text(self, d: DescView, config: &Config) -> Seq<char> {
        "\n"@ + self.definition_text(d, config) + "\n"@ + self.impl_default_text(d, config)
    }
}

impl OneOf {
    /// The path of the enum of the oneof as written in the file.
    pub fn enum_path(&self, desc: &FileDescriptor) -> (r: String)
        ensures
            r@ == self@.enum_path(desc@),
    {
        let mut s = self.get_modules(desc);
        s.append("OneOf");
        s.append(self.name.as_str());
        s
    }

    /// The lifetime parameter of the enum of the oneof, if it has one.
    fn lifetime_text(&self, desc: &FileDescriptor, config: &Config) -> (r: &'static str)
        ensures
            r@ == self@.lifetime_text(desc@, config),
    {
        if self.has_lifetime(desc, config) {
            "<'a>"
        } else {
            proof {
                reveal_strlit("");
                assert(""@ =~= Seq::<char>::empty());
            }
            ""
        }
    }

    /// The variant of the member `f` in the enum of the oneof.
    fn write_member(&self, desc: &FileDescriptor, config: &Config, f: &Field) -> (r: String)
        ensures
            r@ == self@.member_text(desc@, config, f@),
    {
        proof {
            reveal_strlit("");
            assert(""@ =~= Seq::<char>::empty());
        }
        if !f.is_emitted(config) {
            return String::from_str("");
        }
        let typ = f.typ.rust_type(desc, config);
        let mut out = if f.deprecated {
            String::from_str("    #[deprecated]\n")
        } else {
            String::from_str("")
        };
        out.append(write_lines(&f.attributes, "    ").as_str());
        out.append("    ");
        out.append(f.name.as_str());
        if f.boxed {
            out.append("(Box<");
            out.append(typ.as_str());
            out.append(">),\n");
        } else {
            out.append("(");
            out.append(typ.as_str());
            out.append("),\n");
        }
        out
    }

    /// The definition of the enum of the oneof.
    pub fn write_definition(&self, desc: &FileDescriptor, config: &Config) -> (r: String)
        ensures
            r@ == self@.definition_text(desc@, config),
    {
        proof {
            reveal(OneOfView::definition_text);
        }
        proof {
            reveal_strlit("");
            assert(""@ =~= Seq::<char>::empty());
        }
        let mut out = String::from_str("#[derive(");
        out.append(custom_derive(config, self.module.as_str(), self.name.as_str()).as_str());
        out.append("Debug, PartialEq, Clone)]\n");
        out.append(write_lines(&self.container_attributes, "").as_str());
        out.append("pub enum OneOf");
        out.append(self.name.as_str());
        out.append(self.lifetime_text(desc, config));
        out.append(" {\n");
        let mut members = String::from_str("");
        let n = self.fields.len();
        let mut i: usize = 0;
        while i < n
            invariant
                i <= n,
                n == self.fields@.len(),
                members@ == self@.members_text(desc@, config, i as int),
            decreases n - i,
        {
            assert(self@.fields[i as int] == self.fields@[i as int]@);
            members.append(self.write_member(desc, config, &self.fields[i]).as_str());
            i += 1;
        }
        out.append(members.as_str());
        out.append("    None,\n");
        out.append("}\n");
        out
    }

    /// The default of the enum of the oneof: no member is set.
    pub fn write_impl_default(&self, desc: &FileDescriptor, config: &Config) -> (r: String)
        ensures
            r@ == self@.impl_default_text(desc@, config),
    {
        proof {
            reveal(OneOfView::impl_default_text);
        }
        let mut out = if self.has_lifetime(desc, config) {
            let mut head = String::from_str("impl<'a> Default for OneOf");
            head.append(self.name.as_str());
            head.append("<'a> {\n");
            head
        } else {
            let mut head = String::from_str("impl Default for OneOf");
            head.append(self.name.as_str());
            head.append(" {\n");
            head
        };
        out.append("    fn default() -> Self {\n");
        out.append("        OneOf");
        out.append(self.name.as_str());
        out.append("::None\n");
        out.append("    }\n");
        out.append("}\n");
        out
    }

    /// The line of the oneof in the definition of its message.
    pub fn write_message_definition(&self, desc: &FileDescriptor, config: &Config) -> (r: String)
        ensures
            r@ == self@.message_definition_text(desc@, config),
    {
        proof {
            reveal(OneOfView::message_definition_text);
        }
        let mut out = write_lines(&self.field_attributes, "    ");
        out.append("    pub ");
        out.append(self.name.as_str());
        out.append(": ");
        out.append(self.enum_path(desc).as_str());
        out.append(self.lifetime_text(desc, config));
        out.append(",\n");
        out
    }

    /// The arms of the reader for the tags of the members. A map cannot be
    /// a member.
    pub fn write_match_tag(&self, desc: &FileDescriptor, config: &Config) -> (r: Result<String, Error>)
        requires
            self@.is_known(),
        ensures
            r is Ok <==> self@.match_tag_text(desc@, config, self@.fields.len() as int) is Ok,
            r is Ok ==> Ok::<Seq<char>, ErrorView>(r->Ok_0@) == self@.match_tag_text(
                desc@,
                config,
                self@.fields.len() as int,
            ),
            r is Err ==> r->Err_0@ == ErrorView::ReadFnMap,
    {
        proof {
            reveal_strlit("");
            assert(""@ =~= Seq::<char>::empty());
        }
        let path = self.enum_path(desc);
        let mut out = String::from_str("");
        let n = self.fields.len();
        let mut i: usize = 0;
        while i < n
            invariant
                i <= n,
                n == self.fields@.len(),
                n == self@.fields.len(),
                self@.is_known(),
                path@ == self@.enum_path(desc@),
                self@.match_tag_text(desc@, config, i as int) == Ok::<Seq<char>, ErrorView>(out@),
            decreases n - i,
        {
            let f = &self.fields[i];
            proof {
                assert(self@.fields[i as int] == f@);
                assert(f@.typ.is_known());
                reveal_with_fuel(crate::model::TypeView::is_known, 2);
            }
            if f.is_emitted(config) {
                let texts = match f.typ.read_fn(desc) {
                    Ok(texts) => texts,
                    Err(e) => {
                        proof {
                            lemma_match_tag_fails(self@, desc@, config, i as int + 1, n as int);
                        }
                        return Err(e);
                    },
                };
                let mut arm = String::from_str("                Ok(");
                arm.append(number_text(f.tag() as u64).as_str());
                arm.append(") => msg.");
                arm.append(self.name.as_str());
                arm.append(" = ");
                arm.append(path.as_str());
                arm.append("::");
                arm.append(f.name.as_str());
                if f.boxed {
                    arm.append("(Box::new(");
                    arm.append(texts.0.as_str());
                    arm.append(")),\n");
                } else {
                    arm.append("(");
                    arm.append(texts.1.as_str());
                    arm.append("),\n");
                }
                out.append(arm.as_str());
            }
            i += 1;
        }
        Ok(out)
    }

    /// The term that the oneof adds to the size of its message.
    pub fn write_get_size(&self, desc: &FileDescriptor, config: &Config) -> (r: String)
        requires
            self@.is_known(),
        ensures
            r@ == self@.get_size_text(desc@, config),
    {
        proof {
            reveal(OneOfView::get_size_text);
        }
        proof {
            reveal_strlit("");
            assert(""@ =~= Seq::<char>::empty());
        }
        let path = self.enum_path(desc);
        let mut out = String::from_str("        + match self.");
        out.append(self.name.as_str());
        out.append(" {\n");
        let mut arms = String::from_str("");
        let n = self.fields.len();
        let mut i: usize = 0;
        while i < n
            invariant
                i <= n,
                n == self.fields@.len(),
                self@.is_known(),
                path@ == self@.enum_path(desc@),
                arms@ == self@.sizes_text(desc@, config, i as int),
            decreases n - i,
        {
            let f = &self.fields[i];
            let ghost before = arms@;
            proof {
                assert(self@.fields[i as int] == f@);
                assert(f@.typ.is_known());
                reveal_with_fuel(crate::model::TypeView::is_known, 2);
            }
            if f.is_emitted(config) {
                let mut arm = String::from_str("            ");
                arm.append(path.as_str());
                arm.append("::");
                arm.append(f.name.as_str());
                if f.typ.is_fixed_size() {
                    arm.append("(_) => ");
                    arm.append(number_text(f.tag_size() as u64).as_str());
                    arm.append(" + ");
                    arm.append(f.typ.get_size("").as_str());
                } else {
                    arm.append("(ref m) => ");
                    arm.append(number_text(f.tag_size() as u64).as_str());
                    arm.append(" + ");
                    arm.append(f.typ.get_size("m").as_str());
                }
                arm.append(",\n");
                arms.append(arm.as_str());
            } else {
                assert(before + Seq::<char>::empty() =~= before);
            }
            i += 1;
        }
        out.append(arms.as_str());
        out.append("            ");
        out.append(path.as_str());
        out.append("::None => 0,\n");
        out.append("    }");
        out
    }

    /// The statement that writes the oneof.
    pub fn write_write(&self, desc: &FileDescriptor, config: &Config) -> (r: String)
        requires
            self@.is_known(),
        ensures
            r@ == self@.write_text(desc@, config),
    {
        proof {
            reveal(OneOfView::write_text);
        }
        proof {
            reveal_strlit("");
            assert(""@ =~= Seq::<char>::empty());
        }
        let path = self.enum_path(desc);
        let mut out = String::from_str("        match self.");
        out.append(self.name.as_str());
        out.append(" {");
        let mut arms = String::from_str("");
        let n = self.fields.len();
        let mut i: usize = 0;
        while i < n
            invariant
                i <= n,
                n == self.fields@.len(),
                self@.is_known(),
                path@ == self@.enum_path(desc@),
                arms@ == self@.writes_text(desc@, config, i as int),
            decreases n - i,
        {
            let f = &self.fields[i];
            let ghost before = arms@;
            proof {
                assert(self@.fields[i as int] == f@);
                assert(f@.typ.is_known());
                reveal_with_fuel(crate::model::TypeView::is_known, 2);
            }
            if f.is_emitted(config) {
                let mut arm = String::from_str("            ");
                arm.append(path.as_str());
                arm.append("::");
                arm.append(f.name.as_str());
                arm.append("(ref m) => { w.write_with_tag(");
                arm.append(number_text(f.tag() as u64).as_str());
                arm.append(", |w| w.");
                arm.append(f.typ.get_write("m", f.boxed).as_str());
                arm.append(")? },\n");
                arms.append(arm.as_str());
            } else {
                assert(before + Seq::<char>::empty() =~= before);
            }
            i += 1;
        }
        out.append(arms.as_str());
        out.append("            ");
        out.append(path.as_str());
        out.append("::None => {},\n");
        out.append("    }");
        out
    }

    /// The conversions into the enum of the oneof from the types of its
    /// members: for each type, from the first member that has it.
    pub fn generate_impl_from_for_enums(&self, desc: &FileDescriptor, config: &Config) -> (r: String)
        ensures
            r@ == self@.from_impls_text(desc@, config, self@.fields.len() as int),
    {
        proof {
            reveal_strlit("");
            assert(""@ =~= Seq::<char>::empty());
        }
        let mut out = String::from_str("");
        let mut handled: Vec<String> = Vec::new();
        let n = self.fields.len();
        let mut i: usize = 0;
        while i < n
            invariant
                i <= n,
                n == self.fields@.len(),
                out@ == self@.from_impls_text(desc@, config, i as int),
                forall|j: int|
                    0 <= j < i && (#[trigger] self@.fields[j]).is_emitted(config)
                        ==> crate::symbols::strings_view(handled@).contains(
                        type_text(desc@, config.add_deprecated_fields, self@.fields[j].typ),
                    ),
                forall|x: int|
                    0 <= x < handled@.len() ==> exists|j: int|
                        0 <= j < i && (#[trigger] self@.fields[j]).is_emitted(config) && type_text(
                            desc@,
                            config.add_deprecated_fields,
                            self@.fields[j].typ,
                        ) == (#[trigger] handled@[x])@,
            decreases n - i,
        {
            let f = &self.fields[i];
            let ghost seen = crate::symbols::strings_view(handled@);
            assert(self@.fields[i as int] == f@);
            if f.is_emitted(config) {
                let typ = f.typ.rust_type(desc, config);
                let known = crate::checks::holds_name(&handled, &typ);
                proof {
                    if known {
                        let x = choose|x: int| 0 <= x < seen.len() && seen[x] == typ@;
                        assert(seen[x] == handled@[x]@);
                    } else {
                        if self@.repeats_type(desc@, config, i as int) {
                            let j = choose|j: int|
                                0 <= j < i && (#[trigger] self@.fields[j]).is_emitted(config)
                                    && type_text(
                                    desc@,
                                    config.add_deprecated_fields,
                                    self@.fields[j].typ,
                                ) == type_text(
                                    desc@,
                                    config.add_deprecated_fields,
                                    self@.fields[i as int].typ,
                                );
                            assert(seen.contains(typ@));
                        }
                    }
                }
                if !known {
                    let mut text = String::from_str("impl From<");
                    text.append(typ.as_str());
                    text.append("> for OneOf");
                    text.append(self.name.as_str());
                    text.append(" {\n");
                    text.append("   fn from(f: ");
                    text.append(typ.as_str());
                    text.append(") -> OneOf");
                    text.append(self.name.as_str());
                    text.append(" {\n");
                    text.append("      OneOf");
                    text.append(self.name.as_str());
                    text.append("::");
                    text.append(f.name.as_str());
                    text.append("(f)\n");
                    text.append("   }\n");
                    text.append("}\n");
                    out.append(text.as_str());
                    handled.push(typ);
                    proof {
                        let now = crate::symbols::strings_view(handled@);
                        assert(now[now.len() - 1] == type_text(
                            desc@,
                            config.add_deprecated_fields,
                            self@.fields[i as int].typ,
                        ));
                        assert forall|j: int|
                            0 <= j < i + 1 && (#[trigger] self@.fields[j]).is_emitted(
                                config,
                            ) implies now.contains(
                            type_text(desc@, config.add_deprecated_fields, self@.fields[j].typ),
                        ) by {
                            if j < i {
                                let t = type_text(
                                    desc@,
                                    config.add_deprecated_fields,
                                    self@.fields[j].typ,
                                );
                                let x = choose|x: int| 0 <= x < seen.len() && seen[x] == t;
                                assert(now[x] == t);
                            }
                        }
                    }
                }
            }
            i += 1;
        }
        out
    }

    /// All that stands for the oneof in the module of its message.
    pub fn write(&self, desc: &FileDescriptor, config: &Config) -> (r: String)
        ensures
            r@ == self@.text(desc@, config),
    {
        proof {
            reveal(OneOfView::text);
        }
        let mut out = String::from_str("\n");
        out.append(self.write_definition(desc, config).as_str());
        out.append("\n");
        out.append(self.write_impl_default(desc, config).as_str());
        out
    }
}

/// Once the arms of the reader fail for some members, they fail for more.
pub proof fn lemma_match_tag_fails(o: OneOfView, d: DescView, config: &Config, from: int, to: int)
    requires
        0 <= from <= to,
        o.match_tag_text(d, config, from) is Err,
    ensures
        o.match_tag_text(d, config, to) is Err,
        o.match_tag_text(d, config, to)->Err_0 == ErrorView::ReadFnMap,
    decreases to - from,
{
    lemma_match_tag_error(o, d, config, from);
    if from < to {
        lemma_match_tag_fails(o, d, config, from + 1, to);
    }
}

/// The arms of the reader fail only for a map.
pub proof fn lemma_match_tag_error(o: OneOfView, d: DescView, config: &Config, n: int)
    ensures
        o.match_tag_text(d, config, n) is Err ==> o.match_tag_text(d, config, n)->Err_0
            == ErrorView::ReadFnMap,
    decreases n,
{
    if n > 0 {
        lemma_match_tag_error(o, d, config, n - 1);
    }
}

} // verus!
