//! The text of an enum in the generated code: its definition, its default
//! and its conversions from numbers and from names.

use vstd::prelude::*;
use vstd::string::*;
use crate::emit::field::{lines_text, write_lines};
use crate::emit::number::{quoted, quoted_text, signed_number_text, signed_text};
use crate::model::{Config, EnumField, Enumerator, EnumeratorView};
use crate::symbols::first_named;
use crate::text::{dotted, join_dotted};

verus! {

/// Views of a list of pairs of strings, in order.
pub open spec fn pairs_view(v: Seq<(String, String)>) -> Seq<(Seq<char>, Seq<char>)> {
    v.map_values(|p: (String, String)| (p.0@, p.1@))
}

/// The traits to derive, besides the usual ones, for the declaration
/// `name` of `module`: those asked for it by name, else those asked for
/// all declarations.
pub open spec fn derive_text(config: &Config, module: Seq<char>, name: Seq<char>) -> Seq<char> {
    match first_named(pairs_view(config.custom_struct_derive@), dotted(module, name)) {
        Some(own) => own,
        None => config.default_custom_struct_derive@,
    }
}

/// The traits to derive, besides the usual ones, for the declaration
/// `name` of `module`.
pub fn custom_derive(config: &Config, module: &str, name: &str) -> (r: String)
    ensures
        r@ == derive_text(config, module@, name@),
{
    let key = join_dotted(module, name);
    let ghost table = pairs_view(config.custom_struct_derive@);
    let n = config.custom_struct_derive.len();
    let mut i: usize = 0;
    assert(table.skip(0) =~= table);
    while i < n
        invariant
            i <= n,
            n == config.custom_struct_derive@.len(),
            table == pairs_view(config.custom_struct_derive@),
            key@ == dotted(module@, name@),
            first_named(table.skip(i as int), key@) == first_named(table, key@),
        decreases n - i,
    {
        proof {
            assert(table.skip(i as int)[0].0 == config.custom_struct_derive@[i as int].0@);
            assert(table.skip(i as int)[0].1 == config.custom_struct_derive@[i as int].1@);
            assert(table.skip(i as int).skip(1) =~= table.skip(i as int + 1));
        }
        if config.custom_struct_derive[i].0 == key {
            return config.custom_struct_derive[i].1.clone();
        }
        i += 1;
    }
    config.default_custom_struct_derive.clone()
}

impl EnumeratorView {
    /// The line of the variant at `i` in the definition of the enum, after
    /// the lines of its attributes.
    pub open spec fn variant_text(self, i: int) -> Seq<char> {
        lines_text(self.variant_attributes[i], "    "@) + "    "@ + self.fields[i].0 + " = "@
            + signed_text(self.fields[i].1 as int) + ",\n"@
    }

    /// The lines of the first `n` variants in the definition of the enum.
    pub open spec fn variants_text(self, n: int) -> Seq<char>
        decreases n,
    {
        if n <= 0 {
            Seq::empty()
        } else {
            self.variants_text(n - 1) + self.variant_text(n - 1)
        }
    }

    /// The definition of the enum.
    #[verifier::opaque]
    pub open spec fn definition_text(self, config: &Config) -> Seq<char> {
        "#[derive("@ + derive_text(config, self.module, self.name)
            + "Debug, PartialEq, Eq, Clone, Copy)]\n"@ + "pub enum "@ + self.name + " {\n"@
            + self.variants_text(self.fields.len() as int) + "}\n"@
    }

    /// The name of the first variant in the scope of the enum: the default
    /// of the enum. Nothing if the enum has no variant.
    pub open spec fn default_variant(self) -> Seq<char> {
        if self.partially_qualified_fields.len() > 0 {
            self.partially_qualified_fields[0].0
        } else {
            Seq::empty()
        }
    }

    /// The default of the enum: its first variant.
    #[verifier::opaque]
    pub open spec fn impl_default_text(self) -> Seq<char> {
        "impl Default for "@ + self.name + " {\n"@ + "    fn default() -> Self {\n"@ + "        "@
            + self.default_variant() + "\n"@ + "    }\n"@ + "}\n"@
    }

    /// The arms that turn the numbers of the first `n` variants into the
    /// variants.
    pub open spec fn number_arms_text(self, n: int) -> Seq<char>
        decreases n,
    {
        if n <= 0 {
            Seq::empty()
        } else {
            self.number_arms_text(n - 1) + "            "@ + signed_text(
                self.fields[n - 1].1 as int,
            ) + " => "@ + self.name + "::"@ + self.fields[n - 1].0 + ",\n"@
        }
    }

    /// The conversion from a number to the enum.
    #[verifier::opaque]
    pub open spec fn from_i32_text(self) -> Seq<char> {
        "impl From<i32> for "@ + self.name + " {\n"@ + "    fn from(i: i32) -> Self {\n"@
            + "        match i {\n"@ + self.number_arms_text(self.fields.len() as int)
            + "            _ => Self::default(),\n"@ + "        }\n"@ + "    }\n"@ + "}\n"@
    }

    /// The arms that turn the names of the first `n` variants into the
    /// variants.
    pub open spec fn name_arms_text(self, n: int) -> Seq<char>
        decreases n,
    {
        if n <= 0 {
            Seq::empty()
        } else {
            self.name_arms_text(n - 1) + "            "@ + quoted_text(self.fields[n - 1].0)
                + " => "@ + self.name + "::"@ + self.fields[n - 1].0 + ",\n"@
        }
    }

    /// The conversion from a name to the enum.
    #[verifier::opaque]
    pub open spec fn from_str_text(self) -> Seq<char> {
        "impl<'a> From<&'a str> for "@ + self.name + " {\n"@ + "    fn from(s: &'a str) -> Self {\n"@
            + "        match s {\n"@ + self.name_arms_text(self.fields.len() as int)
            + "            _ => Self::default(),\n"@ + "        }\n"@ + "    }\n"@ + "}\n"@
    }

    /// All that stands for the enum in the generated code: the definition
    /// and, if the enum has a variant, the default and the conversions.
    #[verifier::opaque]
    pub open spec fn text(self, config: &Config) -> Seq<char> {
        let head = "\n"@ + self.definition_text(config) + "\n"@;
        if self.fields.len() == 0 {
            head
        } else {
            head + self.impl_default_text() + "\n"@ + self.from_i32_text() + "\n"@
                + self.from_str_text()
        }
    }

    /// All that stands for a top-level enum in the generated code.
    #[verifier::opaque]
    pub open spec fn top_level_text(self, config: &Config) -> Seq<char> {
        "\n"@ + self.definition_text(config) + "\n"@ + self.impl_default_text() + "\n"@
            + self.from_i32_text() + "\n"@ + self.from_str_text()
    }
}

impl EnumField {
    /// The line of the variant in the definition of its enum, after the
    /// lines of its attributes.
    pub fn write_definition(&self) -> (r: String)
        ensures
            r@ == lines_text(self.attributes@, "    "@) + "    "@ + self.name@ + " = "@
                + signed_text(self.tag as int) + ",\n"@,
    {
        let mut out = write_lines(&self.attributes, "    ");
        out.append("    ");
        out.append(self.name.as_str());
        out.append(" = ");
        out.append(signed_number_text(self.tag).as_str());
        out.append(",\n");
        out
    }
}

impl Enumerator {
    /// The definition of the enum.
    pub fn write_definition(&self, config: &Config) -> (r: String)
        ensures
            r@ == self@.definition_text(config),
    {
        proof {
            reveal(EnumeratorView::definition_text);
        }
        let mut out = String::from_str("#[derive(");
        out.append(custom_derive(config, self.module.as_str(), self.name.as_str()).as_str());
        out.append("Debug, PartialEq, Eq, Clone, Copy)]\n");
        out.append("pub enum ");
        out.append(self.name.as_str());
        out.append(" {\n");
        let mut body = String::from_str("");
        proof {
            reveal_strlit("");
            assert(""@ =~= Seq::<char>::empty());
        }
        let n = self.fields.len();
        let mut i: usize = 0;
        while i < n
            invariant
                i <= n,
                n == self.fields@.len(),
                body@ == self@.variants_text(i as int),
            decreases n - i,
        {
            assert(self@.fields[i as int] == (self.fields@[i as int].name@, self.fields@[i as int].tag));
            assert(self@.variant_attributes[i as int] == self.fields@[i as int].attributes@);
            body.append(self.fields[i].write_definition().as_str());
            i += 1;
        }
        out.append(body.as_str());
        out.append("}\n");
        out
    }

    /// The default of the enum: its first variant.
    pub fn write_impl_default(&self) -> (r: String)
        ensures
            r@ == self@.impl_default_text(),
    {
        proof {
            reveal(EnumeratorView::impl_default_text);
        }
        let mut out = String::from_str("impl Default for ");
        out.append(self.name.as_str());
        out.append(" {\n");
        out.append("    fn default() -> Self {\n");
        out.append("        ");
        let first = if self.partially_qualified_fields.len() > 0 {
            assert(self@.partially_qualified_fields[0].0 == self.partially_qualified_fields@[0].0@);
            self.partially_qualified_fields[0].0.as_str()
        } else {
            proof {
                reveal_strlit("");
                assert(""@ =~= Seq::<char>::empty());
            }
            ""
        };
        out.append(first);
        out.append("\n");
        out.append("    }\n");
        out.append("}\n");
        out
    }

    /// The conversion from a number to the enum.
    pub fn write_from_i32(&self) -> (r: String)
        ensures
            r@ == self@.from_i32_text(),
    {
        proof {
            reveal(EnumeratorView::from_i32_text);
        }
        let mut out = String::from_str("impl From<i32> for ");
        out.append(self.name.as_str());
        out.append(" {\n");
        out.append("    fn from(i: i32) -> Self {\n");
        out.append("        match i {\n");
        let mut arms = String::from_str("");
        proof {
            reveal_strlit("");
            assert(""@ =~= Seq::<char>::empty());
        }
        let n = self.fields.len();
        let mut i: usize = 0;
        while i < n
            invariant
                i <= n,
                n == self.fields@.len(),
                arms@ == self@.number_arms_text(i as int),
            decreases n - i,
        {
            assert(self@.fields[i as int] == (self.fields@[i as int].name@, self.fields@[i as int].tag));
            arms.append("            ");
            arms.append(signed_number_text(self.fields[i].tag).as_str());
            arms.append(" => ");
            arms.append(self.name.as_str());
            arms.append("::");
            arms.append(self.fields[i].name.as_str());
            arms.append(",\n");
            i += 1;
        }
        out.append(arms.as_str());
        out.append("            _ => Self::default(),\n");
        out.append("        }\n");
        out.append("    }\n");
        out.append("}\n");
        out
    }

    /// The conversion from a name to the enum.
    pub fn write_from_str(&self) -> (r: String)
        ensures
            r@ == self@.from_str_text(),
    {
        proof {
            reveal(EnumeratorView::from_str_text);
        }
        let mut out = String::from_str("impl<'a> From<&'a str> for ");
        out.append(self.name.as_str());
        out.append(" {\n");
        out.append("    fn from(s: &'a str) -> Self {\n");
        out.append("        match s {\n");
        let mut arms = String::from_str("");
        proof {
            reveal_strlit("");
            assert(""@ =~= Seq::<char>::empty());
        }
        let n = self.fields.len();
        let mut i: usize = 0;
        while i < n
            invariant
                i <= n,
                n == self.fields@.len(),
                arms@ == self@.name_arms_text(i as int),
            decreases n - i,
        {
            assert(self@.fields[i as int] == (self.fields@[i as int].name@, self.fields@[i as int].tag));
            arms.append("            ");
            arms.append(quoted(self.fields[i].name.as_str()).as_str());
            arms.append(" => ");
            arms.append(self.name.as_str());
            arms.append("::");
            arms.append(self.fields[i].name.as_str());
            arms.append(",\n");
            i += 1;
        }
        out.append(arms.as_str());
        out.append("            _ => Self::default(),\n");
        out.append("        }\n");
        out.append("    }\n");
        out.append("}\n");
        out
    }

    /// All that stands for the enum in the generated code: the definition
    /// and, if the enum has a variant, the default and the conversions.
    pub fn write(&self, config: &Config) -> (r: String)
        ensures
            r@ == self@.text(config),
    {
        proof {
            reveal(EnumeratorView::text);
        }
        let mut out = String::from_str("\n");
        out.append(self.write_definition(config).as_str());
        out.append("\n");
        if self.fields.len() != 0 {
            out.append(self.write_impl_default().as_str());
            out.append("\n");
            out.append(self.write_from_i32().as_str());
            out.append("\n");
            out.append(self.write_from_str().as_str());
        }
        out
    }

    /// All that stands for a top-level enum in the generated code.
    pub fn write_top_level(&self, config: &Config) -> (r: String)
        ensures
            r@ == self@.top_level_text(config),
    {
        proof {
            reveal(EnumeratorView::top_level_text);
        }
        let mut out = String::from_str("\n");
        out.append(self.write_definition(config).as_str());
        out.append("\n");
        out.append(self.write_impl_default().as_str());
        out.append("\n");
        out.append(self.write_from_i32().as_str());
        out.append("\n");
        out.append(self.write_from_str().as_str());
        out
    }
}

} // verus!
