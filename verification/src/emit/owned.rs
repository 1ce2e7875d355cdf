//! The text of an owned message in the generated code: a message together
//! with the bytes that it borrows.

use vstd::prelude::*;
use vstd::string::*;

verus! {

/// The comment on the lifetime of the owned message, and the structure that
/// holds the bytes and the message read from them.
#[verifier::opaque]
pub open spec fn inner_struct_text(name: Seq<char>) -> Seq<char> {
    "\n"@
        + "            // IMPORTANT: For any future changes, note that the lifetime parameter\n"@
        + "            // of the `proto` field is set to 'static!!!\n"@
        + "            //\n"@
        + "            // This means that the internals of `proto` should at no point create a\n"@
        + "            // mutable reference to something using that lifetime parameter, on pain\n"@
        + "            // of UB. This applies even though it may be transmuted to a smaller\n"@
        + "            // lifetime later (through `proto()` or `proto_mut()`).\n"@
        + "            //\n"@
        + "            // At the time of writing, the only possible thing that uses the\n"@
        + "            // lifetime parameter is `Cow<'a, T>`, which never does this, so it's\n"@
        + "            // not UB.\n"@
        + "            //\n"@
        + "            #[derive(Debug)]\n"@
        + "            struct "@
        + name
        + "OwnedInner {\n"@
        + "                buf: Vec<u8>,\n"@
        + "                proto: Option<"@
        + name
        + "<'static>>,\n"@
        + "                _pin: core::marker::PhantomPinned,\n"@
        + "            }\n"@
        + "\n"@
}

/// The comment on the lifetime of the owned message, and the structure that
/// holds the bytes and the message read from them.
pub fn write_inner_struct(name: &str) -> (r: String)
    ensures
        r@ == inner_struct_text(name@),
{
    proof {
        reveal(inner_struct_text);
    }
    let mut out = String::from_str("\n");
    out.append("            // IMPORTANT: For any future changes, note that the lifetime parameter\n");
    out.append("            // of the `proto` field is set to 'static!!!\n");
    out.append("            //\n");
    out.append("            // This means that the internals of `proto` should at no point create a\n");
    out.append("            // mutable reference to something using that lifetime parameter, on pain\n");
    out.append("            // of UB. This applies even though it may be transmuted to a smaller\n");
    out.append("            // lifetime later (through `proto()` or `proto_mut()`).\n");
    out.append("            //\n");
    out.append("            // At the time of writing, the only possible thing that uses the\n");
    out.append("            // lifetime parameter is `Cow<'a, T>`, which never does this, so it's\n");
    out.append("            // not UB.\n");
    out.append("            //\n");
    out.append("            #[derive(Debug)]\n");
    out.append("            struct ");
    out.append(name);
    out.append("OwnedInner {\n");
    out.append("                buf: Vec<u8>,\n");
    out.append("                proto: Option<");
    out.append(name);
    out.append("<'static>>,\n");
    out.append("                _pin: core::marker::PhantomPinned,\n");
    out.append("            }\n");
    out.append("\n");
    out
}

/// The constructor that reads the message from the bytes it keeps.
#[verifier::opaque]
pub open spec fn inner_new_text(name: Seq<char>) -> Seq<char> {
    "            impl "@
        + name
        + "OwnedInner {\n"@
        + "                fn new(buf: Vec<u8>) -> Result<core::pin::Pin<Box<Self>>> {\n"@
        + "                    let inner = Self {\n"@
        + "                        buf,\n"@
        + "                        proto: None,\n"@
        + "                        _pin: core::marker::PhantomPinned,\n"@
        + "                    };\n"@
        + "                    let mut pinned = Box::pin(inner);\n"@
        + "\n"@
        + "                    let mut reader = BytesReader::from_bytes(&pinned.buf);\n"@
        + "                    let proto = "@
        + name
        + "::from_reader(&mut reader, &pinned.buf)?;\n"@
        + "\n"@
        + "                    unsafe {\n"@
        + "                        let proto = core::mem::transmute::<_, "@
        + name
        + "<'_>>(proto);\n"@
        + "                        pinned.as_mut().get_unchecked_mut().proto = Some(proto);\n"@
        + "                    }\n"@
        + "                    Ok(pinned)\n"@
        + "                }\n"@
        + "            }\n"@
        + "\n"@
}

/// The constructor that reads the message from the bytes it keeps.
pub fn write_inner_new(name: &str) -> (r: String)
    ensures
        r@ == inner_new_text(name@),
{
    proof {
        reveal(inner_new_text);
    }
    let mut out = String::from_str("            impl ");
    out.append(name);
    out.append("OwnedInner {\n");
    out.append("                fn new(buf: Vec<u8>) -> Result<core::pin::Pin<Box<Self>>> {\n");
    out.append("                    let inner = Self {\n");
    out.append("                        buf,\n");
    out.append("                        proto: None,\n");
    out.append("                        _pin: core::marker::PhantomPinned,\n");
    out.append("                    };\n");
    out.append("                    let mut pinned = Box::pin(inner);\n");
    out.append("\n");
    out.append("                    let mut reader = BytesReader::from_bytes(&pinned.buf);\n");
    out.append("                    let proto = ");
    out.append(name);
    out.append("::from_reader(&mut reader, &pinned.buf)?;\n");
    out.append("\n");
    out.append("                    unsafe {\n");
    out.append("                        let proto = core::mem::transmute::<_, ");
    out.append(name);
    out.append("<'_>>(proto);\n");
    out.append("                        pinned.as_mut().get_unchecked_mut().proto = Some(proto);\n");
    out.append("                    }\n");
    out.append("                    Ok(pinned)\n");
    out.append("                }\n");
    out.append("            }\n");
    out.append("\n");
    out
}

/// The owned message and the constructor that reads it with a given function.
#[verifier::opaque]
pub open spec fn owned_struct_text(name: Seq<char>) -> Seq<char> {
    "            pub struct "@
        + name
        + "Owned {\n"@
        + "                inner: core::pin::Pin<Box<"@
        + name
        + "OwnedInner>>,\n"@
        + "            }\n"@
        + "\n"@
        + "            #[allow(dead_code)]\n"@
        + "            impl quick_protobuf::Owned for "@
        + name
        + "Owned {\n"@
        + "                type Inner<'a> = "@
        + name
        + "<'a>;\n"@
        + "\n"@
        + "                unsafe fn try_owned_from<E>(\n"@
        + "                    buf: Vec<u8>,\n"@
        + "                    f: impl Fn(&[u8]) -> core::result::Result<Self::Inner<'_>, E>,\n"@
        + "                ) -> core::result::Result<Self, E>\n"@
        + "                where\n"@
        + "                    E: core::fmt::Debug + core::fmt::Display,\n"@
        + "                {\n"@
        + "                    let inner = "@
        + name
        + "OwnedInner {\n"@
        + "                        buf,\n"@
        + "                        proto: None,\n"@
        + "                        _pin: core::marker::PhantomPinned,\n"@
        + "                    };\n"@
        + "                    let mut inner = Box::pin(inner);\n"@
        + "\n"@
        + "                    let proto = f(&inner.buf)?;\n"@
        + "\n"@
        + "                    unsafe {\n"@
        + "                        let proto = core::mem::transmute::<_, "@
        + name
        + "<'_>>(proto);\n"@
        + "                        inner.as_mut().get_unchecked_mut().proto = Some(proto);\n"@
        + "                    }\n"@
        + "                    Ok(Self { inner })\n"@
        + "                }\n"@
        + "\n"@
}

/// The owned message and the constructor that reads it with a given function.
pub fn write_owned_struct(name: &str) -> (r: String)
    ensures
        r@ == owned_struct_text(name@),
{
    proof {
        reveal(owned_struct_text);
    }
    let mut out = String::from_str("            pub struct ");
    out.append(name);
    out.append("Owned {\n");
    out.append("                inner: core::pin::Pin<Box<");
    out.append(name);
    out.append("OwnedInner>>,\n");
    out.append("            }\n");
    out.append("\n");
    out.append("            #[allow(dead_code)]\n");
    out.append("            impl quick_protobuf::Owned for ");
    out.append(name);
    out.append("Owned {\n");
    out.append("                type Inner<'a> = ");
    out.append(name);
    out.append("<'a>;\n");
    out.append("\n");
    out.append("                unsafe fn try_owned_from<E>(\n");
    out.append("                    buf: Vec<u8>,\n");
    out.append("                    f: impl Fn(&[u8]) -> core::result::Result<Self::Inner<'_>, E>,\n");
    out.append("                ) -> core::result::Result<Self, E>\n");
    out.append("                where\n");
    out.append("                    E: core::fmt::Debug + core::fmt::Display,\n");
    out.append("                {\n");
    out.append("                    let inner = ");
    out.append(name);
    out.append("OwnedInner {\n");
    out.append("                        buf,\n");
    out.append("                        proto: None,\n");
    out.append("                        _pin: core::marker::PhantomPinned,\n");
    out.append("                    };\n");
    out.append("                    let mut inner = Box::pin(inner);\n");
    out.append("\n");
    out.append("                    let proto = f(&inner.buf)?;\n");
    out.append("\n");
    out.append("                    unsafe {\n");
    out.append("                        let proto = core::mem::transmute::<_, ");
    out.append(name);
    out.append("<'_>>(proto);\n");
    out.append("                        inner.as_mut().get_unchecked_mut().proto = Some(proto);\n");
    out.append("                    }\n");
    out.append("                    Ok(Self { inner })\n");
    out.append("                }\n");
    out.append("\n");
    out
}

/// The accessors of the owned message: its bytes, the message, and the
/// message for writing.
#[verifier::opaque]
pub open spec fn accessors_text(name: Seq<char>) -> Seq<char> {
    "                fn buf(&self) -> &[u8] {\n"@
        + "                    &self.inner.buf\n"@
        + "                }\n"@
        + "\n"@
        + "                fn proto<'a>(&'a self) -> &'a "@
        + name
        + "<'a> {\n"@
        + "                    let proto = self.inner.proto.as_ref().unwrap();\n"@
        + "                    unsafe { core::mem::transmute::<&"@
        + name
        + "<'static>, &"@
        + name
        + "<'a>>(proto) }\n"@
        + "                }\n"@
        + "\n"@
        + "                fn proto_mut<'a>(&'a mut self) -> &'a mut "@
        + name
        + "<'a> {\n"@
        + "                    let inner = self.inner.as_mut();\n"@
        + "                    let inner = unsafe { inner.get_unchecked_mut() };\n"@
        + "                    let proto = inner.proto.as_mut().unwrap();\n"@
        + "                    unsafe { core::mem::transmute::<_, &mut "@
        + name
        + "<'a>>(proto) }\n"@
        + "                }\n"@
        + "            }\n"@
        + "\n"@
}

/// The accessors of the owned message: its bytes, the message, and the
/// message for writing.
pub fn write_accessors(name: &str) -> (r: String)
    ensures
        r@ == accessors_text(name@),
{
    proof {
        reveal(accessors_text);
    }
    let mut out = String::from_str("                fn buf(&self) -> &[u8] {\n");
    out.append("                    &self.inner.buf\n");
    out.append("                }\n");
    out.append("\n");
    out.append("                fn proto<'a>(&'a self) -> &'a ");
    out.append(name);
    out.append("<'a> {\n");
    out.append("                    let proto = self.inner.proto.as_ref().unwrap();\n");
    out.append("                    unsafe { core::mem::transmute::<&");
    out.append(name);
    out.append("<'static>, &");
    out.append(name);
    out.append("<'a>>(proto) }\n");
    out.append("                }\n");
    out.append("\n");
    out.append("                fn proto_mut<'a>(&'a mut self) -> &'a mut ");
    out.append(name);
    out.append("<'a> {\n");
    out.append("                    let inner = self.inner.as_mut();\n");
    out.append("                    let inner = unsafe { inner.get_unchecked_mut() };\n");
    out.append("                    let proto = inner.proto.as_mut().unwrap();\n");
    out.append("                    unsafe { core::mem::transmute::<_, &mut ");
    out.append(name);
    out.append("<'a>>(proto) }\n");
    out.append("                }\n");
    out.append("            }\n");
    out.append("\n");
    out
}

/// The debug formatting of the owned message.
#[verifier::opaque]
pub open spec fn debug_text(name: Seq<char>) -> Seq<char> {
    "            impl core::fmt::Debug for "@
        + name
        + "Owned {\n"@
        + "                fn fmt(&self, f: &mut core::fmt::Formatter<'_>) -> core::fmt::Result {\n"@
        + "                    self.inner.proto.as_ref().unwrap().fmt(f)\n"@
        + "                }\n"@
        + "            }\n"@
        + "\n"@
}

/// The debug formatting of the owned message.
pub fn write_debug(name: &str) -> (r: String)
    ensures
        r@ == debug_text(name@),
{
    proof {
        reveal(debug_text);
    }
    let mut out = String::from_str("            impl core::fmt::Debug for ");
    out.append(name);
    out.append("Owned {\n");
    out.append("                fn fmt(&self, f: &mut core::fmt::Formatter<'_>) -> core::fmt::Result {\n");
    out.append("                    self.inner.proto.as_ref().unwrap().fmt(f)\n");
    out.append("                }\n");
    out.append("            }\n");
    out.append("\n");
    out
}

/// The conversions of the owned message from and into bytes.
#[verifier::opaque]
pub open spec fn conversions_text(name: Seq<char>) -> Seq<char> {
    "            impl TryFrom<Vec<u8>> for "@
        + name
        + "Owned {\n"@
        + "                type Error=quick_protobuf::Error;\n"@
        + "\n"@
        + "                fn try_from(buf: Vec<u8>) -> Result<Self> {\n"@
        + "                    Ok(Self { inner: "@
        + name
        + "OwnedInner::new(buf)? })\n"@
        + "                }\n"@
        + "            }\n"@
        + "\n"@
        + "            impl TryInto<Vec<u8>> for "@
        + name
        + "Owned {\n"@
        + "                type Error=quick_protobuf::Error;\n"@
        + "\n"@
        + "                fn try_into(self) -> Result<Vec<u8>> {\n"@
        + "                    let mut buf = Vec::new();\n"@
        + "                    let mut writer = Writer::new(&mut buf);\n"@
        + "                    self.inner.proto.as_ref().unwrap().write_message(&mut writer)?;\n"@
        + "                    Ok(buf)\n"@
        + "                }\n"@
        + "            }\n"@
        + "\n"@
}

/// The conversions of the owned message from and into bytes.
pub fn write_conversions(name: &str) -> (r: String)
    ensures
        r@ == conversions_text(name@),
{
    proof {
        reveal(conversions_text);
    }
    let mut out = String::from_str("            impl TryFrom<Vec<u8>> for ");
    out.append(name);
    out.append("Owned {\n");
    out.append("                type Error=quick_protobuf::Error;\n");
    out.append("\n");
    out.append("                fn try_from(buf: Vec<u8>) -> Result<Self> {\n");
    out.append("                    Ok(Self { inner: ");
    out.append(name);
    out.append("OwnedInner::new(buf)? })\n");
    out.append("                }\n");
    out.append("            }\n");
    out.append("\n");
    out.append("            impl TryInto<Vec<u8>> for ");
    out.append(name);
    out.append("Owned {\n");
    out.append("                type Error=quick_protobuf::Error;\n");
    out.append("\n");
    out.append("                fn try_into(self) -> Result<Vec<u8>> {\n");
    out.append("                    let mut buf = Vec::new();\n");
    out.append("                    let mut writer = Writer::new(&mut buf);\n");
    out.append("                    self.inner.proto.as_ref().unwrap().write_message(&mut writer)?;\n");
    out.append("                    Ok(buf)\n");
    out.append("                }\n");
    out.append("            }\n");
    out.append("\n");
    out
}

/// The owned message made of a message, and the default.
#[verifier::opaque]
pub open spec fn constructors_text(name: Seq<char>) -> Seq<char> {
    "            impl From<"@
        + name
        + "<'static>> for "@
        + name
        + "Owned {\n"@
        + "                fn from(proto: "@
        + name
        + "<'static>) -> Self {\n"@
        + "                    Self {\n"@
        + "                        inner: Box::pin("@
        + name
        + "OwnedInner {\n"@
        + "                            buf: Vec::new(),\n"@
        + "                            proto: Some(proto),\n"@
        + "                            _pin: core::marker::PhantomPinned,\n"@
        + "                        })\n"@
        + "                    }\n"@
        + "                }\n"@
        + "            }\n"@
        + "\n"@
        + "            impl Default for "@
        + name
        + "Owned {\n"@
        + "                fn default() -> Self {\n"@
        + "                    Self {\n"@
        + "                        inner: Box::pin("@
        + name
        + "OwnedInner {\n"@
        + "                            buf: Vec::new(),\n"@
        + "                            proto: Some("@
        + name
        + "::default()),\n"@
        + "                            _pin: core::marker::PhantomPinned,\n"@
        + "                        })\n"@
        + "                    }\n"@
        + "                }\n"@
        + "            }\n"@
        + "            "@
}

/// The owned message made of a message, and the default.
pub fn write_constructors(name: &str) -> (r: String)
    ensures
        r@ == constructors_text(name@),
{
    proof {
        reveal(constructors_text);
    }
    let mut out = String::from_str("            impl From<");
    out.append(name);
    out.append("<'static>> for ");
    out.append(name);
    out.append("Owned {\n");
    out.append("                fn from(proto: ");
    out.append(name);
    out.append("<'static>) -> Self {\n");
    out.append("                    Self {\n");
    out.append("                        inner: Box::pin(");
    out.append(name);
    out.append("OwnedInner {\n");
    out.append("                            buf: Vec::new(),\n");
    out.append("                            proto: Some(proto),\n");
    out.append("                            _pin: core::marker::PhantomPinned,\n");
    out.append("                        })\n");
    out.append("                    }\n");
    out.append("                }\n");
    out.append("            }\n");
    out.append("\n");
    out.append("            impl Default for ");
    out.append(name);
    out.append("Owned {\n");
    out.append("                fn default() -> Self {\n");
    out.append("                    Self {\n");
    out.append("                        inner: Box::pin(");
    out.append(name);
    out.append("OwnedInner {\n");
    out.append("                            buf: Vec::new(),\n");
    out.append("                            proto: Some(");
    out.append(name);
    out.append("::default()),\n");
    out.append("                            _pin: core::marker::PhantomPinned,\n");
    out.append("                        })\n");
    out.append("                    }\n");
    out.append("                }\n");
    out.append("            }\n");
    out.append("            ");
    out
}

/// The path of the owned message, for the messages that tell their path.
#[verifier::opaque]
pub open spec fn owned_info_text(name: Seq<char>, module: Seq<char>) -> Seq<char> {
    "\n"@
        + "            impl MessageInfo for "@
        + name
        + "Owned {\n"@
        + "                const PATH: &'static str = \""@
        + module
        + "."@
        + name
        + "\";\n"@
        + "            }\n"@
        + "            "@
}

/// The path of the owned message, for the messages that tell their path.
pub fn write_owned_info(name: &str, module: &str) -> (r: String)
    ensures
        r@ == owned_info_text(name@, module@),
{
    proof {
        reveal(owned_info_text);
    }
    let mut out = String::from_str("\n");
    out.append("            impl MessageInfo for ");
    out.append(name);
    out.append("Owned {\n");
    out.append("                const PATH: &'static str = \"");
    out.append(module);
    out.append(".");
    out.append(name);
    out.append("\";\n");
    out.append("            }\n");
    out.append("            ");
    out
}

/// The conversions from bytes of a message that borrows nothing.
#[verifier::opaque]
pub open spec fn try_from_text(name: Seq<char>) -> Seq<char> {
    "\n"@
        + "            impl TryFrom<&[u8]> for "@
        + name
        + " {\n"@
        + "                type Error=quick_protobuf::Error;\n"@
        + "\n"@
        + "                fn try_from(buf: &[u8]) -> Result<Self> {\n"@
        + "                    let mut reader = BytesReader::from_bytes(&buf);\n"@
        + "                    Ok("@
        + name
        + "::from_reader(&mut reader, &buf)?)\n"@
        + "                }\n"@
        + "            }\n"@
        + "\n"@
        + "            impl TryFrom<Vec<u8>> for "@
        + name
        + " {\n"@
        + "                type Error=quick_protobuf::Error;\n"@
        + "\n"@
        + "                fn try_from(buf: Vec<u8>) -> Result<Self> {\n"@
        + "                    "@
        + name
        + "::try_from(buf.as_slice())\n"@
        + "                }\n"@
        + "            }\n"@
        + "            "@
}

/// The conversions from bytes of a message that borrows nothing.
pub fn write_try_from(name: &str) -> (r: String)
    ensures
        r@ == try_from_text(name@),
{
    proof {
        reveal(try_from_text);
    }
    let mut out = String::from_str("\n");
    out.append("            impl TryFrom<&[u8]> for ");
    out.append(name);
    out.append(" {\n");
    out.append("                type Error=quick_protobuf::Error;\n");
    out.append("\n");
    out.append("                fn try_from(buf: &[u8]) -> Result<Self> {\n");
    out.append("                    let mut reader = BytesReader::from_bytes(&buf);\n");
    out.append("                    Ok(");
    out.append(name);
    out.append("::from_reader(&mut reader, &buf)?)\n");
    out.append("                }\n");
    out.append("            }\n");
    out.append("\n");
    out.append("            impl TryFrom<Vec<u8>> for ");
    out.append(name);
    out.append(" {\n");
    out.append("                type Error=quick_protobuf::Error;\n");
    out.append("\n");
    out.append("                fn try_from(buf: Vec<u8>) -> Result<Self> {\n");
    out.append("                    ");
    out.append(name);
    out.append("::try_from(buf.as_slice())\n");
    out.append("                }\n");
    out.append("            }\n");
    out.append("            ");
    out
}

/// The owned form of the message `name`.
#[verifier::opaque]
pub open spec fn owned_text(name: Seq<char>) -> Seq<char> {
    inner_struct_text(name)
        + inner_new_text(name)
        + owned_struct_text(name)
        + accessors_text(name)
        + debug_text(name)
        + conversions_text(name)
        + constructors_text(name)
}

/// The owned form of the message `name`.
pub fn write_owned(name: &str) -> (r: String)
    ensures
        r@ == owned_text(name@),
{
    proof {
        reveal(owned_text);
    }
    let mut out = write_inner_struct(name);
    out.append(write_inner_new(name).as_str());
    out.append(write_owned_struct(name).as_str());
    out.append(write_accessors(name).as_str());
    out.append(write_debug(name).as_str());
    out.append(write_conversions(name).as_str());
    out.append(write_constructors(name).as_str());
    out
}

} // verus!
