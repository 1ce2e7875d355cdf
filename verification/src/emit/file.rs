//! The text of the code generated for a whole file.

use vstd::prelude::*;
use vstd::string::*;
use crate::emit::field::{lines_text, write_lines};
use crate::emit::message::{common_uses_text, lemma_known_is_resolved};
use crate::errors::{Error, ErrorView};
use crate::model::{
    Config, DescView, FieldType, FileDescriptor, Message, MessageView, OneOf, TypeView,
    lemma_nested_views, messages_view,
};
use crate::typetext::split_dots;

verus! {

/// `super::`, `n` times.
pub open spec fn supers_text(n: int) -> Seq<char>
    decreases n,
{
    if n <= 0 {
        Seq::empty()
    } else {
        supers_text(n - 1) + "super::"@
    }
}

impl DescView {
    /// Whether no type of a field of a message of the file is or holds a name.
    pub open spec fn is_known(self) -> bool {
        forall|k: int| 0 <= k < self.messages.len() ==> (#[trigger] self.messages[k]).is_known()
    }

    /// Whether the readers of all messages of the file that are not
    /// imported can be written.
    pub open spec fn is_readable(self, config: &Config) -> bool {
        forall|k: int|
            0 <= k < self.messages.len() && !(#[trigger] self.messages[k]).imported
                ==> self.messages[k].is_readable(self, config)
    }

    /// The comment and the attributes at the head of the generated code.
    pub open spec fn headers_text(self, filename: Seq<char>, config: &Config) -> Seq<char> {
        let head = "// Automatically generated rust module for '"@ + filename + "' file\n"@ + "\n"@
            + "#![allow(non_snake_case)]\n"@ + "#![allow(non_upper_case_globals)]\n"@
            + "#![allow(non_camel_case_types)]\n"@ + "#![allow(unused_imports)]\n"@
            + "#![allow(unknown_lints)]\n"@ + "#![allow(clippy::all)]\n"@;
        let deprecated = if config.add_deprecated_fields {
            head + "#![allow(deprecated)]\n"@
        } else {
            head
        };
        deprecated + "#![cfg_attr(rustfmt, rustfmt_skip)]\n"@ + "\n"@
    }

    /// Whether every top-level message of the file is a unit.
    pub open spec fn all_units(self) -> bool {
        forall|k: int| 0 <= k < self.messages.len() ==> (#[trigger] self.messages[k]).is_unit()
    }

    /// The imports of the generated code.
    pub open spec fn uses_text(self, config: &Config) -> Seq<char> {
        if self.all_units() {
            let head =
                "use quick_protobuf::{BytesReader, Result, MessageInfo, MessageRead, MessageWrite};\n"@;
            if self.owned {
                head + "use core::convert::{TryFrom, TryInto};\n"@
            } else {
                head
            }
        } else {
            let head = common_uses_text(self.common_uses(self.messages, config), config)
                + "use quick_protobuf::{MessageInfo, MessageRead, MessageWrite, BytesReader, Writer, WriterBackend, Result};\n"@;
            let owned = if self.owned {
                head + "use core::convert::{TryFrom, TryInto};\n"@ + "use quick_protobuf::Owned;\n"@
            } else {
                head
            };
            owned + "use quick_protobuf::sizeofs::*;\n"@ + lines_text(
                config.custom_includes@,
                Seq::empty(),
            )
        }
    }

    /// The import of all that stands above the module of the file.
    pub open spec fn imports_text(self) -> Seq<char> {
        "use "@ + supers_text(split_dots(self.package).len() as int) + "*;\n"@
    }

    /// What stands for the first `n` enums of the file: for those that are
    /// not imported.
    pub open spec fn enums_text(self, config: &Config, n: int) -> Seq<char>
        decreases n,
    {
        if n <= 0 {
            Seq::empty()
        } else if self.enums[n - 1].imported {
            self.enums_text(config, n - 1)
        } else {
            self.enums_text(config, n - 1) + self.enums[n - 1].top_level_text(config)
        }
    }

    /// What stands for the first `n` messages of the file: for those that
    /// are not imported.
    pub open spec fn messages_text(self, config: &Config, n: int) -> Seq<char>
        decreases n,
    {
        if n <= 0 {
            Seq::empty()
        } else if self.messages[n - 1].imported {
            self.messages_text(config, n - 1)
        } else {
            self.messages_text(config, n - 1) + self.messages[n - 1].text(self, config)
        }
    }

    /// The code generated for the file `filename`, with `services` for what
    /// stands for its services.
    pub open spec fn text(self, filename: Seq<char>, config: &Config, services: Seq<char>) -> Seq<char> {
        let head = if config.headers {
            self.headers_text(filename, config) + "\n"@
        } else {
            "\n"@
        };
        head + self.uses_text(config) + self.imports_text() + self.enums_text(
            config,
            self.enums.len() as int,
        ) + self.messages_text(config, self.messages.len() as int) + services + "\n"@
    }
}

impl FieldType {
    /// Whether the type holds no name, neither itself nor as key or value
    /// of a map, at any depth.
    pub fn is_known(&self) -> (r: bool)
        ensures
            r == self@.is_known(),
        decreases self,
    {
        match self {
            FieldType::MessageOrEnum(_) => false,
            FieldType::Map_(k, v) => k.is_known() && v.is_known(),
            _ => true,
        }
    }
}

impl OneOf {
    /// Whether no type of a member is or holds a name.
    pub fn is_known(&self) -> (r: bool)
        ensures
            r == self@.is_known(),
    {
        let n = self.fields.len();
        let mut i: usize = 0;
        while i < n
            invariant
                i <= n,
                n == self.fields@.len(),
                forall|x: int| 0 <= x < i ==> (#[trigger] self@.fields[x]).typ.is_known(),
            decreases n - i,
        {
            assert(self@.fields[i as int] == self.fields@[i as int]@);
            if !self.fields[i].typ.is_known() {
                return false;
            }
            i += 1;
        }
        true
    }
}

impl Message {
    /// Whether no type of a field is or holds a name, in the message and in
    /// all that is nested in it.
    pub fn is_known(&self) -> (r: bool)
        ensures
            r == self@.is_known(),
        decreases self,
    {
        proof {
            lemma_nested_views(*self);
        }
        let n = self.fields.len();
        let mut i: usize = 0;
        while i < n
            invariant
                i <= n,
                n == self.fields@.len(),
                forall|x: int| 0 <= x < i ==> (#[trigger] self@.fields[x]).typ.is_known(),
            decreases n - i,
        {
            assert(self@.fields[i as int] == self.fields@[i as int]@);
            if !self.fields[i].typ.is_known() {
                return false;
            }
            i += 1;
        }
        let k = self.oneofs.len();
        let mut j: usize = 0;
        while j < k
            invariant
                j <= k,
                k == self.oneofs@.len(),
                forall|x: int| 0 <= x < j ==> (#[trigger] self@.oneofs[x]).is_known(),
            decreases k - j,
        {
            assert(self@.oneofs[j as int] == self.oneofs@[j as int]@);
            if !self.oneofs[j].is_known() {
                return false;
            }
            j += 1;
        }
        let c = self.messages.len();
        let mut x: usize = 0;
        while x < c
            invariant
                x <= c,
                c == self.messages@.len(),
                self@.messages == messages_view(self.messages@),
                self@.fields_known(),
                forall|y: int| 0 <= y < x ==> (#[trigger] self@.messages[y]).is_known(),
            decreases c - x,
        {
            assert(self@.messages[x as int] == self.messages@[x as int]@);
            if !self.messages[x].is_known() {
                return false;
            }
            x += 1;
        }
        true
    }
}

impl FileDescriptor {
    /// Whether no type of a field of a message of the file is or holds a name.
    pub fn is_known(&self) -> (r: bool)
        ensures
            r == self@.is_known(),
    {
        let n = self.messages.len();
        let mut k: usize = 0;
        while k < n
            invariant
                k <= n,
                n == self.messages@.len(),
                forall|x: int| 0 <= x < k ==> (#[trigger] self@.messages[x]).is_known(),
            decreases n - k,
        {
            assert(self@.messages[k as int] == self.messages@[k as int]@);
            if !self.messages[k].is_known() {
                return false;
            }
            k += 1;
        }
        true
    }

    /// The comment and the attributes at the head of the generated code.
    pub fn write_headers(&self, filename: &str, config: &Config) -> (r: String)
        ensures
            r@ == self@.headers_text(filename@, config),
    {
        let mut out = String::from_str("// Automatically generated rust module for '");
        out.append(filename);
        out.append("' file\n");
        out.append("\n");
        out.append("#![allow(non_snake_case)]\n");
        out.append("#![allow(non_upper_case_globals)]\n");
        out.append("#![allow(non_camel_case_types)]\n");
        out.append("#![allow(unused_imports)]\n");
        out.append("#![allow(unknown_lints)]\n");
        out.append("#![allow(clippy::all)]\n");
        if config.add_deprecated_fields {
            out.append("#![allow(deprecated)]\n");
        }
        out.append("#![cfg_attr(rustfmt, rustfmt_skip)]\n");
        out.append("\n");
        out
    }

    /// The line that opens the module of the file.
    pub fn write_package_start(&self) -> (r: String)
        ensures
            r@ == "\n"@,
    {
        String::from_str("\n")
    }

    /// The line that closes the module of the file.
    pub fn write_package_end(&self) -> (r: String)
        ensures
            r@ == "\n"@,
    {
        String::from_str("\n")
    }

    /// The imports of the generated code.
    pub fn write_uses(&self, config: &Config) -> (r: String)
        requires
            self@.is_known(),
        ensures
            r@ == self@.uses_text(config),
    {
        proof {
            lemma_known_is_resolved(self@.messages);
            reveal_strlit("");
            assert(""@ =~= Seq::<char>::empty());
        }
        if self.all_units() {
            let mut out = String::from_str(
                "use quick_protobuf::{BytesReader, Result, MessageInfo, MessageRead, MessageWrite};\n",
            );
            if self.owned {
                out.append("use core::convert::{TryFrom, TryInto};\n");
            }
            return out;
        }
        let mut out = Message::write_common_uses(&self.messages, self, config);
        out.append(
            "use quick_protobuf::{MessageInfo, MessageRead, MessageWrite, BytesReader, Writer, WriterBackend, Result};\n",
        );
        if self.owned {
            out.append("use core::convert::{TryFrom, TryInto};\n");
            out.append("use quick_protobuf::Owned;\n");
        }
        out.append("use quick_protobuf::sizeofs::*;\n");
        out.append(write_lines(&config.custom_includes, "").as_str());
        out
    }

    /// The import of all that stands above the module of the file.
    pub fn write_imports(&self) -> (r: String)
        ensures
            r@ == self@.imports_text(),
    {
        let depth = self.import_depth();
        let mut supers = String::from_str("");
        proof {
            reveal_strlit("");
            assert(""@ =~= Seq::<char>::empty());
        }
        let mut i: usize = 0;
        while i < depth
            invariant
                i <= depth,
                supers@ == supers_text(i as int),
            decreases depth - i,
        {
            supers.append("super::");
            i += 1;
        }
        let mut out = String::from_str("use ");
        out.append(supers.as_str());
        out.append("*;\n");
        out
    }

    /// What stands for the enums of the file that are not imported.
    pub fn write_enums(&self, config: &Config) -> (r: String)
        ensures
            r@ == self@.enums_text(config, self@.enums.len() as int),
    {
        let mut out = String::from_str("");
        proof {
            reveal_strlit("");
            assert(""@ =~= Seq::<char>::empty());
        }
        let n = self.enums.len();
        let mut i: usize = 0;
        while i < n
            invariant
                i <= n,
                n == self.enums@.len(),
                out@ == self@.enums_text(config, i as int),
            decreases n - i,
        {
            assert(self@.enums[i as int] == self.enums@[i as int]@);
            if !self.enums[i].imported {
                out.append(self.enums[i].write_top_level(config).as_str());
            }
            i += 1;
        }
        out
    }

    /// What stands for the messages of the file that are not imported.
    pub fn write_messages(&self, config: &Config) -> (r: Result<String, Error>)
        requires
            self@.is_known(),
        ensures
            r is Ok <==> self@.is_readable(config),
            r is Ok ==> r->Ok_0@ == self@.messages_text(config, self@.messages.len() as int),
            r is Err ==> r->Err_0@ == ErrorView::ReadFnMap,
    {
        let mut out = String::from_str("");
        proof {
            reveal_strlit("");
            assert(""@ =~= Seq::<char>::empty());
        }
        let n = self.messages.len();
        let mut i: usize = 0;
        while i < n
            invariant
                i <= n,
                n == self.messages@.len(),
                self@.is_known(),
                out@ == self@.messages_text(config, i as int),
                forall|x: int|
                    0 <= x < i && !(#[trigger] self@.messages[x]).imported
                        ==> self@.messages[x].is_readable(self@, config),
            decreases n - i,
        {
            proof {
                assert(self@.messages[i as int] == self.messages@[i as int]@);
                assert(self@.messages[i as int].is_known());
            }
            if !self.messages[i].imported {
                match self.messages[i].write(self, config) {
                    Ok(text) => {
                        out.append(text.as_str());
                    },
                    Err(e) => {
                        return Err(e);
                    },
                }
            }
            i += 1;
        }
        Ok(out)
    }

    /// The code generated for the file `filename`, with `services` for what
    /// stands for its services. A map whose key or value is a map, and a
    /// map that is a member of a oneof, cannot be read, and then no code is
    /// generated.
    pub fn write(&self, filename: &str, config: &Config, services: &str) -> (r: Result<String, Error>)
        requires
            self@.is_known(),
        ensures
            r is Ok <==> self@.is_readable(config),
            r is Ok ==> r->Ok_0@ == self@.text(filename@, config, services@),
            r is Err ==> r->Err_0@ == ErrorView::ReadFnMap,
    {
        let mut out = if config.headers {
            let mut head = self.write_headers(filename, config);
            head.append(self.write_package_start().as_str());
            head
        } else {
            self.write_package_start()
        };
        out.append(self.write_uses(config).as_str());
        out.append(self.write_imports().as_str());
        out.append(self.write_enums(config).as_str());
        match self.write_messages(config) {
            Ok(text) => {
                out.append(text.as_str());
            },
            Err(e) => {
                return Err(e);
            },
        }
        out.append(services);
        out.append(self.write_package_end().as_str());
        Ok(out)
    }
}

} // verus!
