//! How types and default values read in the generated code: the module path
//! of a declaration, the text of a type, the default of a type, and the
//! literal default of a field brought into that form.

use vstd::prelude::*;
use vstd::string::*;
use crate::index::{enum_at, message_at};
use crate::lifetime::message_has_lifetime;
use crate::model::{
    Config, DescView, Enumerator, Field, FieldType, FieldView, FileDescriptor, Message,
    MessageIndex, OneOf, TypeView,
};
use crate::passes::paths_view;
use crate::symbols::strings_view;
use crate::text::concat3;

verus! {

/// The segments of a dotted name: what stands between its dots.
pub open spec fn split_dots(s: Seq<char>) -> Seq<Seq<char>>
    decreases s.len(),
{
    if s.len() == 0 {
        seq![Seq::empty()]
    } else {
        let before = split_dots(s.drop_last());
        if s.last() == '.' {
            before.push(Seq::empty())
        } else {
            before.drop_last().push(before.last().push(s.last()))
        }
    }
}

/// The segments that are not empty, without the first `skip` of them, each
/// followed by two colons.
pub open spec fn module_prefix(parts: Seq<Seq<char>>, skip: nat) -> Seq<char>
    decreases parts.len(),
{
    if parts.len() == 0 {
        Seq::empty()
    } else if parts[0].len() == 0 {
        module_prefix(parts.skip(1), skip)
    } else if skip > 0 {
        module_prefix(parts.skip(1), (skip - 1) as nat)
    } else {
        parts[0] + "::"@ + module_prefix(parts.skip(1), 0)
    }
}

/// The path that leads to a declaration standing in `module`, as written in
/// a file of package `package`. A file without package is a module itself,
/// so its own declarations are reached without its first segment.
pub open spec fn modules_of(module: Seq<char>, imported: bool, package: Seq<char>) -> Seq<char> {
    module_prefix(
        split_dots(module),
        if package.len() == 0 && !imported {
            1
        } else {
            0
        },
    )
}

/// The text of the type `t` in the generated code. A type that names no
/// declared message or enum has the empty text.
pub open spec fn type_text(d: DescView, deprecated_too: bool, t: TypeView) -> Seq<char>
    decreases t,
{
    match t {
        TypeView::Int32 | TypeView::Sint32 | TypeView::Sfixed32 => "i32"@,
        TypeView::Int64 | TypeView::Sint64 | TypeView::Sfixed64 => "i64"@,
        TypeView::Uint32 | TypeView::Fixed32 => "u32"@,
        TypeView::Uint64 | TypeView::Fixed64 => "u64"@,
        TypeView::Double => "f64"@,
        TypeView::Float => "f32"@,
        TypeView::StringCow => "Cow<'a, str>"@,
        TypeView::BytesCow => "Cow<'a, [u8]>"@,
        TypeView::String_ => "String"@,
        TypeView::Bytes_ => "Vec<u8>"@,
        TypeView::Bool => "bool"@,
        TypeView::Enum(e) => match enum_at(d, e) {
            Some(found) => modules_of(found.module, found.imported, d.package) + found.name,
            None => Seq::empty(),
        },
        TypeView::Message(p) => match message_at(d.messages, p) {
            Some(m) => modules_of(m.module, m.imported, d.package) + m.name + if message_has_lifetime(
                d,
                deprecated_too,
                m,
                Seq::empty(),
            ) {
                "<'a>"@
            } else {
                Seq::empty()
            },
            None => Seq::empty(),
        },
        TypeView::Map_(k, v) => "KVMap<"@ + type_text(d, deprecated_too, *k) + ", "@ + type_text(
            d,
            deprecated_too,
            *v,
        ) + ">"@,
        TypeView::MessageOrEnum(_) => Seq::empty(),
    }
}

/// The default value of the type `t` in the generated code: zero, false,
/// the empty string or bytes, the first variant of an enum. Messages and
/// maps have none, nor has an enum without variants.
pub open spec fn regular_default_text(d: DescView, t: TypeView) -> Option<Seq<char>> {
    match t {
        TypeView::Int32 | TypeView::Sint32 | TypeView::Sfixed32 => Some("0i32"@),
        TypeView::Int64 | TypeView::Sint64 | TypeView::Sfixed64 => Some("0i64"@),
        TypeView::Uint32 | TypeView::Fixed32 => Some("0u32"@),
        TypeView::Uint64 | TypeView::Fixed64 => Some("0u64"@),
        TypeView::Bool => Some("false"@),
        TypeView::Float => Some("0f32"@),
        TypeView::Double => Some("0f64"@),
        TypeView::StringCow => Some("\"\""@),
        TypeView::BytesCow => Some("Cow::Borrowed(b\"\")"@),
        TypeView::String_ => Some("String::default()"@),
        TypeView::Bytes_ => Some("vec![]"@),
        TypeView::Enum(e) => match enum_at(d, e) {
            Some(found) => if found.fully_qualified_fields.len() > 0 {
                Some(found.fully_qualified_fields[0].0)
            } else {
                None
            },
            None => None,
        },
        _ => None,
    }
}

/// The lower-case form of a text, by the rules of Unicode.
pub uninterp spec fn lowercase_of(s: Seq<char>) -> Seq<char>;

/// The text with upper-case letters replaced by their lower-case forms,
/// as `str::to_lowercase` of the standard library gives it; nothing more is
/// claimed of the result than that it depends on the text alone.
#[verifier::external_body]
fn lowercase(s: &str) -> (r: String)
    ensures
        r@ == lowercase_of(s@),
{
    s.to_lowercase()
}

/// A literal default of a floating-point field of the given width, as the
/// generated code writes it: infinities and not-a-number by name,
/// whatever the case of the letters, any other literal with its suffix.
pub open spec fn float_default(literal: Seq<char>, width: Seq<char>) -> Seq<char> {
    float_default_of(lowercase_of(literal), literal, width)
}

/// The same for a literal whose lower-case form is `lower`.
pub open spec fn float_default_of(lower: Seq<char>, literal: Seq<char>, width: Seq<char>) -> Seq<
    char,
> {
    if lower == "inf"@ {
        "::core::"@ + width + "::INFINITY"@
    } else if lower == "-inf"@ {
        "::core::"@ + width + "::NEG_INFINITY"@
    } else if lower == "nan"@ {
        "::core::"@ + width + "::NAN"@
    } else {
        literal + width
    }
}

/// Whether a literal is one of the two boolean literals.
pub open spec fn is_bool_literal(literal: Seq<char>) -> bool {
    literal == "true"@ || literal == "false"@
}

/// A literal default of a field of type `t`, as the generated code writes it.
pub open spec fn default_text(d: DescView, deprecated_too: bool, t: TypeView, literal: Seq<char>) -> Seq<char> {
    match t {
        TypeView::Uint32 | TypeView::Fixed32 => literal + "u32"@,
        TypeView::Uint64 | TypeView::Fixed64 => literal + "u64"@,
        TypeView::Int32 | TypeView::Sint32 | TypeView::Sfixed32 => literal + "i32"@,
        TypeView::Int64 | TypeView::Sint64 | TypeView::Sfixed64 => literal + "i64"@,
        TypeView::Float => float_default(literal, "f32"@),
        TypeView::Double => float_default(literal, "f64"@),
        TypeView::StringCow => "Cow::Borrowed("@ + literal + ")"@,
        TypeView::BytesCow => "Cow::Borrowed(b"@ + literal + ")"@,
        TypeView::String_ => "String::from("@ + literal + ")"@,
        TypeView::Bytes_ => "b"@ + literal + ".to_vec()"@,
        TypeView::Bool => literal,
        _ => type_text(d, deprecated_too, t) + "::"@ + literal,
    }
}

impl FieldView {
    /// The field with its literal default, if it has one, as the generated
    /// code writes it.
    pub open spec fn sanitize_default(self, d: DescView, deprecated_too: bool) -> FieldView {
        match self.default {
            Some(literal) => FieldView {
                default: Some(default_text(d, deprecated_too, self.typ, literal)),
                ..self
            },
            None => self,
        }
    }

    /// Whether the field has the default of its type: no default of its
    /// own, or one that reads as the default of the type.
    pub open spec fn has_regular_default(self, d: DescView) -> bool {
        self.default is None || self.default == regular_default_text(d, self.typ)
    }

    /// Whether the field has a boolean default that is no boolean literal.
    pub open spec fn has_bad_bool_default(self) -> bool {
        self.typ is Bool && self.default is Some && !is_bool_literal(self.default->0)
    }
}

/// The segments of a dotted name.
pub fn split_at_dots(s: &str) -> (r: Vec<String>)
    ensures
        strings_view(r@) == split_dots(s@),
{
    let n = s.unicode_len();
    let mut out: Vec<String> = Vec::new();
    let mut start: usize = 0;
    let mut i: usize = 0;
    proof {
        assert(s@.take(0) =~= Seq::<char>::empty());
        assert(strings_view(out@).push(s@.subrange(0, 0)) =~= split_dots(s@.take(0)));
    }
    while i < n
        invariant
            start <= i <= n,
            n == s@.len(),
            strings_view(out@).push(s@.subrange(start as int, i as int)) == split_dots(
                s@.take(i as int),
            ),
        decreases n - i,
    {
        let ghost before = strings_view(out@);
        let ghost segment = s@.subrange(start as int, i as int);
        proof {
            assert(s@.take(i as int + 1).drop_last() =~= s@.take(i as int));
            assert(s@.take(i as int + 1).last() == s@[i as int]);
            assert(before.push(segment).drop_last() =~= before);
            assert(before.push(segment).last() == segment);
        }
        if s.get_char(i) == '.' {
            out.push(String::from_str(s.substring_char(start, i)));
            start = i + 1;
            proof {
                assert(strings_view(out@) =~= before.push(segment));
                assert(s@.subrange(start as int, i as int + 1) =~= Seq::<char>::empty());
            }
        } else {
            proof {
                assert(s@.subrange(start as int, i as int + 1) =~= segment.push(s@[i as int]));
            }
        }
        i += 1;
    }
    let ghost before = strings_view(out@);
    out.push(String::from_str(s.substring_char(start, n)));
    proof {
        assert(s@.take(n as int) =~= s@);
        assert(strings_view(out@) =~= before.push(s@.subrange(start as int, n as int)));
    }
    out
}

/// The path that leads to a declaration standing in `module`, as written in
/// the file `desc`.
pub fn get_modules(module: &str, imported: bool, desc: &FileDescriptor) -> (r: String)
    ensures
        r@ == modules_of(module@, imported, desc@.package),
{
    let parts = split_at_dots(module);
    let mut skip: usize = if desc.package.as_str().unicode_len() == 0 && !imported {
        1
    } else {
        0
    };
    let ghost all = split_dots(module@);
    let ghost first_skip = skip as nat;
    let mut out = String::from_str("");
    proof {
        reveal_strlit("");
        assert(""@ =~= Seq::<char>::empty());
        assert(all.skip(0) =~= all);
        assert(out@ + module_prefix(all.skip(0), skip as nat) =~= module_prefix(all, first_skip));
    }
    let n = parts.len();
    let mut i: usize = 0;
    while i < n
        invariant
            i <= n,
            n == parts@.len(),
            strings_view(parts@) == all,
            skip <= 1,
            out@ + module_prefix(all.skip(i as int), skip as nat) == module_prefix(all, first_skip),
        decreases n - i,
    {
        proof {
            assert(all.len() == n);
            assert(all.skip(i as int)[0] == parts@[i as int]@);
            assert(all.skip(i as int).skip(1) =~= all.skip(i as int + 1));
        }
        if parts[i].as_str().unicode_len() != 0 {
            if skip > 0 {
                skip = skip - 1;
            } else {
                let ghost before = out@;
                out.append(parts[i].as_str());
                out.append("::");
                proof {
                    assert(out@ + module_prefix(all.skip(i as int + 1), 0) =~= before + (
                    parts@[i as int]@ + "::"@ + module_prefix(all.skip(i as int + 1), 0)));
                }
            }
        }
        i += 1;
    }
    proof {
        assert(all.len() == n);
        assert(module_prefix(all.skip(n as int), skip as nat) =~= Seq::<char>::empty());
        assert(out@ + Seq::<char>::empty() =~= out@);
    }
    out
}

impl Message {
    /// The path that leads to this message, as written in the file `desc`.
    pub fn get_modules(&self, desc: &FileDescriptor) -> (r: String)
        ensures
            r@ == modules_of(self@.module, self@.imported, desc@.package),
    {
        get_modules(self.module.as_str(), self.imported, desc)
    }
}

impl Enumerator {
    /// The path that leads to this enum, as written in the file `desc`.
    pub fn get_modules(&self, desc: &FileDescriptor) -> (r: String)
        ensures
            r@ == modules_of(self@.module, self@.imported, desc@.package),
    {
        get_modules(self.module.as_str(), self.imported, desc)
    }
}

impl OneOf {
    /// The path that leads to this oneof, as written in the file `desc`.
    pub fn get_modules(&self, desc: &FileDescriptor) -> (r: String)
        ensures
            r@ == modules_of(self@.module, self@.imported, desc@.package),
    {
        get_modules(self.module.as_str(), self.imported, desc)
    }
}

/// Whether a text is `wanted` once its letters are made lower-case.
fn lowers_to(lower: &str, wanted: &str) -> (r: bool)
    ensures
        r == (lower@ == wanted@),
{
    let given = String::from_str(lower);
    let other = String::from_str(wanted);
    given == other
}

/// A literal default of a floating-point field of the given width.
pub fn float_default_text(literal: &str, width: &str) -> (r: String)
    ensures
        r@ == float_default(literal@, width@),
{
    let lower = lowercase(literal);
    float_default_from(lower.as_str(), literal, width)
}

/// A literal default of a floating-point field of the given width, for a
/// literal whose lower-case form is `lower`: `inf`, `-inf` and `nan` give
/// the constant of that name, any other form the literal with its suffix.
pub fn float_default_from(lower: &str, literal: &str, width: &str) -> (r: String)
    ensures
        r@ == float_default_of(lower@, literal@, width@),
{
    if lowers_to(lower, "inf") {
        concat3("::core::", width, "::INFINITY")
    } else if lowers_to(lower, "-inf") {
        concat3("::core::", width, "::NEG_INFINITY")
    } else if lowers_to(lower, "nan") {
        concat3("::core::", width, "::NAN")
    } else {
        let mut s = String::from_str(literal);
        s.append(width);
        s
    }
}

/// Whether a literal is one of the two boolean literals.
pub fn is_bool(literal: &String) -> (r: bool)
    ensures
        r == is_bool_literal(literal@),
{
    lowers_to(literal.as_str(), "true") || lowers_to(literal.as_str(), "false")
}

/// A text followed by a suffix.
fn suffixed(literal: &str, suffix: &str) -> (r: String)
    ensures
        r@ == literal@ + suffix@,
{
    let mut s = String::from_str(literal);
    s.append(suffix);
    s
}

impl FieldType {
    /// The text of this type in the generated code.
    pub fn rust_type(&self, desc: &FileDescriptor, config: &Config) -> (r: String)
        ensures
            r@ == type_text(desc@, config.add_deprecated_fields, self@),
        decreases self,
    {
        proof {
            reveal_strlit("");
            assert(""@ =~= Seq::<char>::empty());
        }
        match self {
            FieldType::Int32 | FieldType::Sint32 | FieldType::Sfixed32 => String::from_str("i32"),
            FieldType::Int64 | FieldType::Sint64 | FieldType::Sfixed64 => String::from_str("i64"),
            FieldType::Uint32 | FieldType::Fixed32 => String::from_str("u32"),
            FieldType::Uint64 | FieldType::Fixed64 => String::from_str("u64"),
            FieldType::Double => String::from_str("f64"),
            FieldType::Float => String::from_str("f32"),
            FieldType::StringCow => String::from_str("Cow<'a, str>"),
            FieldType::BytesCow => String::from_str("Cow<'a, [u8]>"),
            FieldType::String_ => String::from_str("String"),
            FieldType::Bytes_ => String::from_str("Vec<u8>"),
            FieldType::Bool => String::from_str("bool"),
            FieldType::Enum(e) => match e.find_enum(desc) {
                Some(found) => {
                    let mut s = found.get_modules(desc);
                    s.append(found.name.as_str());
                    s
                },
                None => String::from_str(""),
            },
            FieldType::Message(p) => match p.find_message(desc) {
                Some(m) => {
                    let mut s = m.get_modules(desc);
                    s.append(m.name.as_str());
                    let mut ignore: Vec<MessageIndex> = Vec::new();
                    assert(paths_view(ignore@) =~= Seq::<Seq<usize>>::empty());
                    if m.has_lifetime(desc, config, &mut ignore) {
                        s.append("<'a>");
                    } else {
                        assert(s@ + Seq::<char>::empty() =~= s@);
                    }
                    s
                },
                None => String::from_str(""),
            },
            FieldType::Map_(k, v) => {
                let mut s = String::from_str("KVMap<");
                let key = k.rust_type(desc, config);
                let value = v.rust_type(desc, config);
                s.append(key.as_str());
                s.append(", ");
                s.append(value.as_str());
                s.append(">");
                s
            },
            FieldType::MessageOrEnum(_) => String::from_str(""),
        }
    }

    /// The default value of this type in the generated code.
    pub fn regular_default(&self, desc: &FileDescriptor) -> (r: Option<String>)
        ensures
            r is Some <==> regular_default_text(desc@, self@) is Some,
            r is Some ==> r->0@ == regular_default_text(desc@, self@)->0,
    {
        match self {
            FieldType::Int32 | FieldType::Sint32 | FieldType::Sfixed32 => Some(
                String::from_str("0i32"),
            ),
            FieldType::Int64 | FieldType::Sint64 | FieldType::Sfixed64 => Some(
                String::from_str("0i64"),
            ),
            FieldType::Uint32 | FieldType::Fixed32 => Some(String::from_str("0u32")),
            FieldType::Uint64 | FieldType::Fixed64 => Some(String::from_str("0u64")),
            FieldType::Bool => Some(String::from_str("false")),
            FieldType::Float => Some(String::from_str("0f32")),
            FieldType::Double => Some(String::from_str("0f64")),
            FieldType::StringCow => Some(String::from_str("\"\"")),
            FieldType::BytesCow => Some(String::from_str("Cow::Borrowed(b\"\")")),
            FieldType::String_ => Some(String::from_str("String::default()")),
            FieldType::Bytes_ => Some(String::from_str("vec![]")),
            FieldType::Enum(e) => match e.find_enum(desc) {
                Some(found) => {
                    if found.fully_qualified_fields.len() > 0 {
                        Some(found.fully_qualified_fields[0].0.clone())
                    } else {
                        None
                    }
                },
                None => None,
            },
            _ => None,
        }
    }

    /// A literal default of a field of this type, as the generated code
    /// writes it.
    pub fn default_text(&self, desc: &FileDescriptor, config: &Config, literal: &String) -> (r: String)
        ensures
            r@ == default_text(desc@, config.add_deprecated_fields, self@, literal@),
    {
        let d = literal.as_str();
        match self {
            FieldType::Uint32 | FieldType::Fixed32 => suffixed(d, "u32"),
            FieldType::Uint64 | FieldType::Fixed64 => suffixed(d, "u64"),
            FieldType::Int32 | FieldType::Sint32 | FieldType::Sfixed32 => suffixed(d, "i32"),
            FieldType::Int64 | FieldType::Sint64 | FieldType::Sfixed64 => suffixed(d, "i64"),
            FieldType::Float => float_default_text(d, "f32"),
            FieldType::Double => float_default_text(d, "f64"),
            FieldType::StringCow => concat3("Cow::Borrowed(", d, ")"),
            FieldType::BytesCow => concat3("Cow::Borrowed(b", d, ")"),
            FieldType::String_ => concat3("String::from(", d, ")"),
            FieldType::Bytes_ => concat3("b", d, ".to_vec()"),
            FieldType::Bool => literal.clone(),
            _ => {
                let text = self.rust_type(desc, config);
                concat3(text.as_str(), "::", d)
            },
        }
    }
}

impl Field {
    /// Brings the literal default of the field, if it has one, into the
    /// form that the generated code writes.
    pub fn sanitize_default(&mut self, desc: &FileDescriptor, config: &Config)
        ensures
            final(self)@ == old(self)@.sanitize_default(desc@, config.add_deprecated_fields),
    {
        let text = match &self.default {
            Some(literal) => Some(self.typ.default_text(desc, config, literal)),
            None => None,
        };
        match text {
            Some(t) => {
                self.default = Some(t);
            },
            None => {},
        }
    }

    /// Whether the field has the default of its type.
    pub fn has_regular_default(&self, desc: &FileDescriptor) -> (r: bool)
        ensures
            r == self@.has_regular_default(desc@),
    {
        match &self.default {
            None => true,
            Some(own) => match self.typ.regular_default(desc) {
                Some(regular) => *own == regular,
                None => false,
            },
        }
    }
}

} // verus!
