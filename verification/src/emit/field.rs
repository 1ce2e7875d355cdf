//! The lines that a field contributes to the generated code: to the
//! definition of its message, to the reader, to the size and to the writer.

use vstd::prelude::*;
use vstd::string::*;
use crate::emit::number::{decimal_text, number_text};
use crate::errors::{Error, ErrorView};
use crate::model::{Config, DescView, Field, FieldType, FieldView, FileDescriptor, TypeView};
use crate::plan::{ReadRule, Shape, WireRule};
use crate::typetext::{regular_default_text, type_text};

verus! {

/// Lines of text, each behind `indent` and ended by a line feed.
pub open spec fn lines_text(lines: Seq<String>, indent: Seq<char>) -> Seq<char>
    decreases lines.len(),
{
    if lines.len() == 0 {
        Seq::empty()
    } else {
        lines_text(lines.drop_last(), indent) + indent + lines.last()@ + "\n"@
    }
}

/// Lines of text, each behind `indent` and ended by a line feed.
pub fn write_lines(lines: &Vec<String>, indent: &str) -> (r: String)
    ensures
        r@ == lines_text(lines@, indent@),
{
    let mut out = String::from_str("");
    proof {
        reveal_strlit("");
        assert(""@ =~= Seq::<char>::empty());
        assert(lines@.take(0) =~= Seq::<String>::empty());
    }
    let n = lines.len();
    let mut i: usize = 0;
    while i < n
        invariant
            i <= n,
            n == lines@.len(),
            out@ == lines_text(lines@.take(i as int), indent@),
        decreases n - i,
    {
        proof {
            assert(lines@.take(i as int + 1).drop_last() =~= lines@.take(i as int));
            assert(lines@.take(i as int + 1).last() == lines@[i as int]);
        }
        out.append(indent);
        out.append(lines[i].as_str());
        out.append("\n");
        i += 1;
    }
    assert(lines@.take(n as int) =~= lines@);
    out
}

impl FieldView {
    /// The text that the value of the field is compared with before it is
    /// written: its own default, else that of its type, else `None`.
    pub open spec fn compared_default(self, d: DescView) -> Seq<char> {
        match self.default {
            Some(own) => own,
            None => match regular_default_text(d, self.typ) {
                Some(regular) => regular,
                None => "None"@,
            },
        }
    }

    /// The line of the field in the definition of its message.
    #[verifier::opaque]
    pub open spec fn definition_text(self, d: DescView, config: &Config) -> Seq<char> {
        let typ = type_text(d, config.add_deprecated_fields, self.typ);
        let mark = if self.deprecated {
            "    #[deprecated]\n"@
        } else {
            Seq::empty()
        };
        let head = mark + lines_text(self.attributes, Seq::empty()) + "    pub "@ + self.name
            + ": "@;
        match self.shape(d.syntax, config) {
            Shape::Omitted => Seq::empty(),
            Shape::Boxed => head + "Option<Box<"@ + typ + ">>,\n"@,
            Shape::Presence => head + "Option<"@ + typ + ">,\n"@,
            Shape::BorrowedSequence => head + "Cow<'a, ["@ + typ + "]>,\n"@,
            Shape::Sequence => head + "Vec<"@ + typ + ">,\n"@,
            Shape::Bare => head + typ + ",\n"@,
        }
    }

    /// The arm of the reader for the tag of the field.
    pub open spec fn match_tag_text(self, d: DescView, config: &Config) -> Result<
        Seq<char>,
        ErrorView,
    > {
        let tag = decimal_text(self.tag() as nat);
        match self.read_rule(d.syntax, config) {
            Err(e) => Err(e),
            Ok(ReadRule::Omitted) => Ok(Seq::empty()),
            Ok(ReadRule::Entry(_, _)) => {
                let key = self.typ->Map__0.read_texts(d)->Ok_0.1;
                let value = self.typ->Map__1.read_texts(d)->Ok_0.1;
                Ok(
                    "                Ok("@ + tag + ") => {\n"@
                        + "                    let (key, value) = r.read_map(bytes, |r, bytes| Ok("@
                        + key + "), |r, bytes| Ok("@ + value + "))?;\n"@
                        + "                    msg."@ + self.name + ".insert(key, value);\n"@
                        + "                }\n"@,
                )
            },
            Ok(rule) => {
                let texts = self.typ.read_texts(d)->Ok_0;
                let head = "                Ok("@ + tag + ") => msg."@ + self.name;
                Ok(
                    match rule {
                        ReadRule::BoxedSome(_) => head + " = Some(Box::new("@ + texts.0 + ")),\n"@,
                        ReadRule::Present(_) => head + " = Some("@ + texts.1 + "),\n"@,
                        ReadRule::PackedFixed => head + " = r.read_packed_fixed(bytes)?.into(),\n"@,
                        ReadRule::Packed(_) => head + " = r.read_packed(bytes, |r, bytes| Ok("@
                            + texts.1 + "))?,\n"@,
                        ReadRule::Push(_) => head + ".push("@ + texts.1 + "),\n"@,
                        _ => head + " = "@ + texts.1 + ",\n"@,
                    },
                )
            },
        }
    }

    /// The term that the field adds to the size of its message.
    #[verifier::opaque]
    pub open spec fn get_size_text(self, d: DescView, config: &Config) -> Seq<char> {
        let tag_size = decimal_text(self.tag_size());
        let own = "&self."@ + self.name;
        let head = "        + "@;
        match self.wire_rule(d.syntax, config) {
            WireRule::Omitted => Seq::empty(),
            WireRule::IfPresent => if self.typ.is_fixed_size() {
                head + "self."@ + self.name + ".as_ref().map_or(0, |_| "@ + tag_size + " + "@
                    + self.typ.size_text(Seq::empty()) + ")\n"@
            } else {
                head + "self."@ + self.name + ".as_ref().map_or(0, |m| "@ + tag_size + " + "@
                    + self.typ.size_text("m"@) + ")\n"@
            },
            WireRule::UnlessDeclaredDefault | WireRule::UnlessRegularDefault => head + "if self."@
                + self.name + " == "@ + self.compared_default(d) + " { 0 } else { "@ + tag_size
                + " + "@ + self.typ.size_text(own) + " }\n"@,
            WireRule::UnlessEmpty => head + "if self."@ + self.name + ".is_empty() { 0 } else { "@
                + tag_size + " + "@ + self.typ.size_text(own) + " }\n"@,
            WireRule::Entries => head + "self."@ + self.name + ".iter().map(|(k, v)| "@ + tag_size
                + " + sizeof_len("@ + self.typ.size_text(Seq::empty()) + ")).sum::<usize>()\n"@,
            WireRule::Always => head + tag_size + " + "@ + self.typ.size_text(own) + "\n"@,
            WireRule::PackedFixed(width) => head + "if self."@ + self.name
                + ".is_empty() { 0 } else { "@ + tag_size + " + sizeof_len(self."@ + self.name
                + ".len() * "@ + decimal_text(width as nat) + ") }\n"@,
            WireRule::Packed => head + "if self."@ + self.name + ".is_empty() { 0 } else { "@
                + tag_size + " + sizeof_len(self."@ + self.name + ".iter().map(|s| "@
                + self.typ.size_text("s"@) + ").sum::<usize>()) }\n"@,
            WireRule::Repeated => if self.typ.is_fixed_size() {
                head + "("@ + tag_size + " + "@ + decimal_text(self.typ.fixed_width() as nat)
                    + ") * self."@ + self.name + ".len()\n"@
            } else {
                head + "self."@ + self.name + ".iter().map(|s| "@ + tag_size + " + "@
                    + self.typ.size_text("s"@) + ").sum::<usize>()\n"@
            },
        }
    }

    /// The statement that writes the field.
    #[verifier::opaque]
    pub open spec fn write_text(self, d: DescView, config: &Config) -> Seq<char> {
        let tag = decimal_text(self.tag() as nat);
        let own = "&self."@ + self.name;
        let call = ", |w| w."@;
        match self.wire_rule(d.syntax, config) {
            WireRule::Omitted => Seq::empty(),
            WireRule::IfPresent => "        if let Some(ref s) = self."@ + self.name
                + " { w.write_with_tag("@ + tag + call + self.typ.write_text("s"@, self.boxed)
                + ")?; }\n"@,
            WireRule::UnlessDeclaredDefault | WireRule::UnlessRegularDefault => "        if self."@
                + self.name + " != "@ + self.compared_default(d) + " { w.write_with_tag("@ + tag
                + call + self.typ.write_text(own, self.boxed) + ")?; }\n"@,
            WireRule::UnlessEmpty => "        if !self."@ + self.name
                + ".is_empty() { w.write_with_tag("@ + tag + call + self.typ.write_text(
                own,
                self.boxed,
            ) + ")?; }\n"@,
            WireRule::Entries => "        for (k, v) in self."@ + self.name
                + ".iter() { w.write_with_tag("@ + tag + call + self.typ.write_text(
                Seq::empty(),
                false,
            ) + ")?; }\n"@,
            WireRule::Always => "        w.write_with_tag("@ + tag + call + self.typ.write_text(
                own,
                self.boxed,
            ) + ")?;\n"@,
            WireRule::PackedFixed(_) => "        w.write_packed_fixed_with_tag("@ + tag
                + ", &self."@ + self.name + ")?;\n"@,
            WireRule::Packed => "        w.write_packed_with_tag("@ + tag + ", &self."@ + self.name
                + ", |w, m| w."@ + self.typ.write_text("m"@, self.boxed) + ", &|m| "@
                + self.typ.size_text("m"@) + ")?;\n"@,
            WireRule::Repeated => "        for s in &self."@ + self.name + " { w.write_with_tag("@
                + tag + call + self.typ.write_text("s"@, self.boxed) + ")?; }\n"@,
        }
    }
}

impl Field {
    /// The text that the value of the field is compared with before it is
    /// written.
    pub fn compared_default(&self, desc: &FileDescriptor) -> (r: String)
        ensures
            r@ == self@.compared_default(desc@),
    {
        match &self.default {
            Some(own) => own.clone(),
            None => match self.typ.regular_default(desc) {
                Some(regular) => regular,
                None => String::from_str("None"),
            },
        }
    }

    /// `&self.` and the name of the field.
    fn own_place(&self) -> (r: String)
        ensures
            r@ == "&self."@ + self@.name,
    {
        let mut s = String::from_str("&self.");
        s.append(self.name.as_str());
        s
    }

    /// The line of the field in the definition of its message.
    pub fn write_definition(&self, desc: &FileDescriptor, config: &Config) -> (r: String)
        requires
            !self@.typ.is_unresolved(),
        ensures
            r@ == self@.definition_text(desc@, config),
    {
        proof {
            reveal(FieldView::definition_text);
        }
        proof {
            reveal_strlit("");
            assert(""@ =~= Seq::<char>::empty());
        }
        let shape = self.shape(desc, config);
        if let Shape::Omitted = shape {
            return String::from_str("");
        }
        let typ = self.typ.rust_type(desc, config);
        let mut out = if self.deprecated {
            String::from_str("    #[deprecated]\n")
        } else {
            String::from_str("")
        };
        let attributes = write_lines(&self.attributes, "");
        out.append(attributes.as_str());
        out.append("    pub ");
        out.append(self.name.as_str());
        out.append(": ");
        match shape {
            Shape::Boxed => {
                out.append("Option<Box<");
                out.append(typ.as_str());
                out.append(">>,\n");
            },
            Shape::Presence => {
                out.append("Option<");
                out.append(typ.as_str());
                out.append(">,\n");
            },
            Shape::BorrowedSequence => {
                out.append("Cow<'a, [");
                out.append(typ.as_str());
                out.append("]>,\n");
            },
            Shape::Sequence => {
                out.append("Vec<");
                out.append(typ.as_str());
                out.append(">,\n");
            },
            _ => {
                out.append(typ.as_str());
                out.append(",\n");
            },
        }
        out
    }

    /// The arm of the reader for the tag of the field. A map whose key or
    /// value is a map cannot be read.
    pub fn write_match_tag(&self, desc: &FileDescriptor, config: &Config) -> (r: Result<String, Error>)
        requires
            self@.typ.is_known(),
        ensures
            r is Ok <==> self@.match_tag_text(desc@, config) is Ok,
            r is Ok ==> Ok::<Seq<char>, ErrorView>(r->Ok_0@) == self@.match_tag_text(desc@, config),
            r is Err ==> Err::<Seq<char>, ErrorView>(r->Err_0@) == self@.match_tag_text(
                desc@,
                config,
            ),
    {
        proof {
            reveal_strlit("");
            assert(""@ =~= Seq::<char>::empty());
            reveal_with_fuel(TypeView::is_known, 2);
        }
        let rule = match self.read_rule(desc, config) {
            Ok(rule) => rule,
            Err(e) => {
                return Err(e);
            },
        };
        if let ReadRule::Omitted = rule {
            return Ok(String::from_str(""));
        }
        let tag = number_text(self.tag() as u64);
        match &self.typ {
            FieldType::Map_(k, v) => {
                let key = match k.read_fn(desc) {
                    Ok(texts) => texts.1,
                    Err(e) => {
                        return Err(e);
                    },
                };
                let value = match v.read_fn(desc) {
                    Ok(texts) => texts.1,
                    Err(e) => {
                        return Err(e);
                    },
                };
                let mut out = String::from_str("                Ok(");
                out.append(tag.as_str());
                out.append(") => {\n");
                out.append("                    let (key, value) = r.read_map(bytes, |r, bytes| Ok(");
                out.append(key.as_str());
                out.append("), |r, bytes| Ok(");
                out.append(value.as_str());
                out.append("))?;\n");
                out.append("                    msg.");
                out.append(self.name.as_str());
                out.append(".insert(key, value);\n");
                out.append("                }\n");
                Ok(out)
            },
            _ => {
                let texts = match self.typ.read_fn(desc) {
                    Ok(texts) => texts,
                    Err(e) => {
                        return Err(e);
                    },
                };
                let mut out = String::from_str("                Ok(");
                out.append(tag.as_str());
                out.append(") => msg.");
                out.append(self.name.as_str());
                match rule {
                    ReadRule::BoxedSome(_) => {
                        out.append(" = Some(Box::new(");
                        out.append(texts.0.as_str());
                        out.append(")),\n");
                    },
                    ReadRule::Present(_) => {
                        out.append(" = Some(");
                        out.append(texts.1.as_str());
                        out.append("),\n");
                    },
                    ReadRule::PackedFixed => {
                        out.append(" = r.read_packed_fixed(bytes)?.into(),\n");
                    },
                    ReadRule::Packed(_) => {
                        out.append(" = r.read_packed(bytes, |r, bytes| Ok(");
                        out.append(texts.1.as_str());
                        out.append("))?,\n");
                    },
                    ReadRule::Push(_) => {
                        out.append(".push(");
                        out.append(texts.1.as_str());
                        out.append("),\n");
                    },
                    _ => {
                        out.append(" = ");
                        out.append(texts.1.as_str());
                        out.append(",\n");
                    },
                }
                Ok(out)
            },
        }
    }

    /// The term that the field adds to the size of its message.
    pub fn write_get_size(&self, desc: &FileDescriptor, config: &Config) -> (r: String)
        requires
            !self@.typ.is_unresolved(),
        ensures
            r@ == self@.get_size_text(desc@, config),
    {
        proof {
            reveal(FieldView::get_size_text);
        }
        proof {
            reveal_strlit("");
            assert(""@ =~= Seq::<char>::empty());
        }
        let rule = self.wire_rule(desc, config);
        if let WireRule::Omitted = rule {
            return String::from_str("");
        }
        let tag_size = number_text(self.tag_size() as u64);
        let own = self.own_place();
        let name = self.name.as_str();
        let mut out = String::from_str("        + ");
        match rule {
            WireRule::IfPresent => {
                out.append("self.");
                out.append(name);
                if self.typ.is_fixed_size() {
                    out.append(".as_ref().map_or(0, |_| ");
                    out.append(tag_size.as_str());
                    out.append(" + ");
                    out.append(self.typ.get_size("").as_str());
                } else {
                    out.append(".as_ref().map_or(0, |m| ");
                    out.append(tag_size.as_str());
                    out.append(" + ");
                    out.append(self.typ.get_size("m").as_str());
                }
                out.append(")\n");
            },
            WireRule::UnlessDeclaredDefault | WireRule::UnlessRegularDefault => {
                out.append("if self.");
                out.append(name);
                out.append(" == ");
                out.append(self.compared_default(desc).as_str());
                out.append(" { 0 } else { ");
                out.append(tag_size.as_str());
                out.append(" + ");
                out.append(self.typ.get_size(own.as_str()).as_str());
                out.append(" }\n");
            },
            WireRule::UnlessEmpty => {
                out.append("if self.");
                out.append(name);
                out.append(".is_empty() { 0 } else { ");
                out.append(tag_size.as_str());
                out.append(" + ");
                out.append(self.typ.get_size(own.as_str()).as_str());
                out.append(" }\n");
            },
            WireRule::Entries => {
                out.append("self.");
                out.append(name);
                out.append(".iter().map(|(k, v)| ");
                out.append(tag_size.as_str());
                out.append(" + sizeof_len(");
                out.append(self.typ.get_size("").as_str());
                out.append(")).sum::<usize>()\n");
            },
            WireRule::Always => {
                out.append(tag_size.as_str());
                out.append(" + ");
                out.append(self.typ.get_size(own.as_str()).as_str());
                out.append("\n");
            },
            WireRule::PackedFixed(width) => {
                out.append("if self.");
                out.append(name);
                out.append(".is_empty() { 0 } else { ");
                out.append(tag_size.as_str());
                out.append(" + sizeof_len(self.");
                out.append(name);
                out.append(".len() * ");
                out.append(number_text(width as u64).as_str());
                out.append(") }\n");
            },
            WireRule::Packed => {
                out.append("if self.");
                out.append(name);
                out.append(".is_empty() { 0 } else { ");
                out.append(tag_size.as_str());
                out.append(" + sizeof_len(self.");
                out.append(name);
                out.append(".iter().map(|s| ");
                out.append(self.typ.get_size("s").as_str());
                out.append(").sum::<usize>()) }\n");
            },
            _ => {
                if self.typ.is_fixed_size() {
                    let width: u64 = if self.typ.wire_type_num_non_packed() == 1 {
                        8
                    } else {
                        4
                    };
                    out.append("(");
                    out.append(tag_size.as_str());
                    out.append(" + ");
                    out.append(number_text(width).as_str());
                    out.append(") * self.");
                    out.append(name);
                    out.append(".len()\n");
                } else {
                    out.append("self.");
                    out.append(name);
                    out.append(".iter().map(|s| ");
                    out.append(tag_size.as_str());
                    out.append(" + ");
                    out.append(self.typ.get_size("s").as_str());
                    out.append(").sum::<usize>()\n");
                }
            },
        }
        out
    }

    /// The statement that writes the field.
    pub fn write_write(&self, desc: &FileDescriptor, config: &Config) -> (r: String)
        requires
            self@.typ.is_known(),
        ensures
            r@ == self@.write_text(desc@, config),
    {
        proof {
            reveal(FieldView::write_text);
        }
        proof {
            reveal_strlit("");
            assert(""@ =~= Seq::<char>::empty());
            reveal_with_fuel(TypeView::is_known, 2);
        }
        let rule = self.wire_rule(desc, config);
        if let WireRule::Omitted = rule {
            return String::from_str("");
        }
        let tag = number_text(self.tag() as u64);
        let own = self.own_place();
        let name = self.name.as_str();
        match rule {
            WireRule::IfPresent => {
                let mut out = String::from_str("        if let Some(ref s) = self.");
                out.append(name);
                out.append(" { w.write_with_tag(");
                out.append(tag.as_str());
                out.append(", |w| w.");
                out.append(self.typ.get_write("s", self.boxed).as_str());
                out.append(")?; }\n");
                out
            },
            WireRule::UnlessDeclaredDefault | WireRule::UnlessRegularDefault => {
                let mut out = String::from_str("        if self.");
                out.append(name);
                out.append(" != ");
                out.append(self.compared_default(desc).as_str());
                out.append(" { w.write_with_tag(");
                out.append(tag.as_str());
                out.append(", |w| w.");
                out.append(self.typ.get_write(own.as_str(), self.boxed).as_str());
                out.append(")?; }\n");
                out
            },
            WireRule::UnlessEmpty => {
                let mut out = String::from_str("        if !self.");
                out.append(name);
                out.append(".is_empty() { w.write_with_tag(");
                out.append(tag.as_str());
                out.append(", |w| w.");
                out.append(self.typ.get_write(own.as_str(), self.boxed).as_str());
                out.append(")?; }\n");
                out
            },
            WireRule::Entries => {
                let mut out = String::from_str("        for (k, v) in self.");
                out.append(name);
                out.append(".iter() { w.write_with_tag(");
                out.append(tag.as_str());
                out.append(", |w| w.");
                out.append(self.typ.get_write("", false).as_str());
                out.append(")?; }\n");
                out
            },
            WireRule::Always => {
                let mut out = String::from_str("        w.write_with_tag(");
                out.append(tag.as_str());
                out.append(", |w| w.");
                out.append(self.typ.get_write(own.as_str(), self.boxed).as_str());
                out.append(")?;\n");
                out
            },
            WireRule::PackedFixed(_) => {
                let mut out = String::from_str("        w.write_packed_fixed_with_tag(");
                out.append(tag.as_str());
                out.append(", &self.");
                out.append(name);
                out.append(")?;\n");
                out
            },
            WireRule::Packed => {
                let mut out = String::from_str("        w.write_packed_with_tag(");
                out.append(tag.as_str());
                out.append(", &self.");
                out.append(name);
                out.append(", |w, m| w.");
                out.append(self.typ.get_write("m", self.boxed).as_str());
                out.append(", &|m| ");
                out.append(self.typ.get_size("m").as_str());
                out.append(")?;\n");
                out
            },
            _ => {
                let mut out = String::from_str("        for s in &self.");
                out.append(name);
                out.append(" { w.write_with_tag(");
                out.append(tag.as_str());
                out.append(", |w| w.");
                out.append(self.typ.get_write("s", self.boxed).as_str());
                out.append(")?; }\n");
                out
            },
        }
    }
}

} // verus!
