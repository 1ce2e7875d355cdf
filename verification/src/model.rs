//! The declaration model: messages, enums, oneofs, fields and their types,
//! together with the mathematical view of each that the contracts speak of.

use vstd::prelude::*;

verus! {

/// Syntax variant of a schema file.
#[derive(Debug, Clone, Copy, PartialEq, Eq, Structural)]
pub enum Syntax {
    Proto2,
    Proto3,
}

impl Default for Syntax {
    fn default() -> (r: Syntax)
        ensures
            r == Syntax::Proto2,
    {
        Syntax::Proto2
    }
}

/// How often a field may occur.
#[derive(Debug, Clone, Copy, PartialEq, Eq, Structural)]
pub enum Frequency {
    Optional,
    Repeated,
    Required,
}

/// Identity of a message: the child positions that lead to it from the file
/// root, outermost first.
#[derive(Debug, Clone, Default)]
pub struct MessageIndex {
    pub indexes: Vec<usize>,
}

impl MessageIndex {
    /// A copy of this index.
    pub fn duplicate(&self) -> (r: MessageIndex)
        ensures
            r@ == self@,
    {
        MessageIndex { indexes: self.indexes.clone() }
    }
}

impl View for MessageIndex {
    type V = Seq<usize>;

    open spec fn view(&self) -> Seq<usize> {
        self.indexes@
    }
}

/// Identity of an enum: the message that holds it (empty for the file root)
/// and its position in that holder's enum list.
#[derive(Debug, Clone, Default)]
pub struct EnumIndex {
    pub msg_index: MessageIndex,
    pub index: usize,
}

impl EnumIndex {
    /// A copy of this index.
    pub fn duplicate(&self) -> (r: EnumIndex)
        ensures
            r@ == self@,
    {
        EnumIndex { msg_index: self.msg_index.duplicate(), index: self.index }
    }
}

/// Mathematical value of an [`EnumIndex`].
pub struct EnumPath {
    pub msg: Seq<usize>,
    pub index: usize,
}

impl View for EnumIndex {
    type V = EnumPath;

    open spec fn view(&self) -> EnumPath {
        EnumPath { msg: self.msg_index@, index: self.index }
    }
}

/// Type of a field.
#[derive(Debug)]
pub enum FieldType {
    Int32,
    Int64,
    Uint32,
    Uint64,
    Sint32,
    Sint64,
    Bool,
    Enum(EnumIndex),
    Fixed64,
    Sfixed64,
    Double,
    StringCow,
    BytesCow,
    String_,
    Bytes_,
    Message(MessageIndex),
    MessageOrEnum(String),
    Fixed32,
    Sfixed32,
    Float,
    Map_(Box<FieldType>, Box<FieldType>),
}

/// Mathematical value of a [`FieldType`].
pub enum TypeView {
    Int32,
    Int64,
    Uint32,
    Uint64,
    Sint32,
    Sint64,
    Bool,
    Enum(EnumPath),
    Fixed64,
    Sfixed64,
    Double,
    StringCow,
    BytesCow,
    String_,
    Bytes_,
    Message(Seq<usize>),
    MessageOrEnum(Seq<char>),
    Fixed32,
    Sfixed32,
    Float,
    Map_(Box<TypeView>, Box<TypeView>),
}

/// Mathematical value of a field type.
pub open spec fn type_view(t: FieldType) -> TypeView
    decreases t,
{
    match t {
        FieldType::Int32 => TypeView::Int32,
        FieldType::Int64 => TypeView::Int64,
        FieldType::Uint32 => TypeView::Uint32,
        FieldType::Uint64 => TypeView::Uint64,
        FieldType::Sint32 => TypeView::Sint32,
        FieldType::Sint64 => TypeView::Sint64,
        FieldType::Bool => TypeView::Bool,
        FieldType::Enum(e) => TypeView::Enum(e@),
        FieldType::Fixed64 => TypeView::Fixed64,
        FieldType::Sfixed64 => TypeView::Sfixed64,
        FieldType::Double => TypeView::Double,
        FieldType::StringCow => TypeView::StringCow,
        FieldType::BytesCow => TypeView::BytesCow,
        FieldType::String_ => TypeView::String_,
        FieldType::Bytes_ => TypeView::Bytes_,
        FieldType::Message(m) => TypeView::Message(m@),
        FieldType::MessageOrEnum(s) => TypeView::MessageOrEnum(s@),
        FieldType::Fixed32 => TypeView::Fixed32,
        FieldType::Sfixed32 => TypeView::Sfixed32,
        FieldType::Float => TypeView::Float,
        FieldType::Map_(k, v) => TypeView::Map_(Box::new(type_view(*k)), Box::new(type_view(*v))),
    }
}

impl View for FieldType {
    type V = TypeView;

    open spec fn view(&self) -> TypeView {
        type_view(*self)
    }
}

impl FieldType {
    /// A copy of this type.
    pub fn duplicate(&self) -> (r: FieldType)
        ensures
            r@ == self@,
        decreases self,
    {
        match self {
            FieldType::Int32 => FieldType::Int32,
            FieldType::Int64 => FieldType::Int64,
            FieldType::Uint32 => FieldType::Uint32,
            FieldType::Uint64 => FieldType::Uint64,
            FieldType::Sint32 => FieldType::Sint32,
            FieldType::Sint64 => FieldType::Sint64,
            FieldType::Bool => FieldType::Bool,
            FieldType::Enum(e) => FieldType::Enum(e.duplicate()),
            FieldType::Fixed64 => FieldType::Fixed64,
            FieldType::Sfixed64 => FieldType::Sfixed64,
            FieldType::Double => FieldType::Double,
            FieldType::StringCow => FieldType::StringCow,
            FieldType::BytesCow => FieldType::BytesCow,
            FieldType::String_ => FieldType::String_,
            FieldType::Bytes_ => FieldType::Bytes_,
            FieldType::Message(m) => FieldType::Message(m.duplicate()),
            FieldType::MessageOrEnum(s) => FieldType::MessageOrEnum(s.clone()),
            FieldType::Fixed32 => FieldType::Fixed32,
            FieldType::Sfixed32 => FieldType::Sfixed32,
            FieldType::Float => FieldType::Float,
            FieldType::Map_(k, v) => FieldType::Map_(
                Box::new(k.duplicate()),
                Box::new(v.duplicate()),
            ),
        }
    }
}

impl Clone for FieldType {
    fn clone(&self) -> (r: FieldType)
        ensures
            r@ == self@,
    {
        self.duplicate()
    }
}

/// A field of a message or of a oneof.
#[derive(Debug, Clone)]
pub struct Field {
    pub name: String,
    pub frequency: Frequency,
    pub typ: FieldType,
    pub number: i32,
    pub default: Option<String>,
    pub packed: Option<bool>,
    pub boxed: bool,
    pub deprecated: bool,
    pub attributes: Vec<String>,
}

/// Mathematical value of a [`Field`].
pub struct FieldView {
    pub name: Seq<char>,
    pub frequency: Frequency,
    pub typ: TypeView,
    pub number: i32,
    pub default: Option<Seq<char>>,
    pub packed: Option<bool>,
    pub boxed: bool,
    pub deprecated: bool,
    pub attributes: Seq<String>,
}

impl View for Field {
    type V = FieldView;

    open spec fn view(&self) -> FieldView {
        FieldView {
            name: self.name@,
            frequency: self.frequency,
            typ: self.typ@,
            number: self.number,
            default: match self.default {
                Some(d) => Some(d@),
                None => None,
            },
            packed: self.packed,
            boxed: self.boxed,
            deprecated: self.deprecated,
            attributes: self.attributes@,
        }
    }
}

/// Views of a list of fields, in order.
pub open spec fn fields_view(fields: Seq<Field>) -> Seq<FieldView> {
    fields.map_values(|f: Field| f@)
}

/// One variant of an enum.
#[derive(Debug, Clone, Default)]
pub struct EnumField {
    pub name: String,
    pub tag: i32,
    pub attributes: Vec<String>,
}

/// An enum declaration.
#[derive(Debug, Clone, Default)]
pub struct Enumerator {
    pub name: String,
    pub fields: Vec<EnumField>,
    pub fully_qualified_fields: Vec<(String, i32)>,
    pub partially_qualified_fields: Vec<(String, i32)>,
    pub imported: bool,
    pub package: String,
    pub module: String,
    pub path: String,
    pub import: String,
    pub index: EnumIndex,
    pub attributes: Vec<String>,
}

/// Mathematical value of an [`Enumerator`].
pub struct EnumeratorView {
    pub name: Seq<char>,
    pub fields: Seq<(Seq<char>, i32)>,
    pub fully_qualified_fields: Seq<(Seq<char>, i32)>,
    pub partially_qualified_fields: Seq<(Seq<char>, i32)>,
    pub imported: bool,
    pub package: Seq<char>,
    pub module: Seq<char>,
    pub path: Seq<char>,
    pub import: Seq<char>,
    pub index: EnumPath,
    pub attributes: Seq<String>,
    pub variant_attributes: Seq<Seq<String>>,
}

/// Views of a list of named tags, in order.
pub open spec fn tagged_view(items: Seq<(String, i32)>) -> Seq<(Seq<char>, i32)> {
    items.map_values(|p: (String, i32)| (p.0@, p.1))
}

impl View for Enumerator {
    type V = EnumeratorView;

    open spec fn view(&self) -> EnumeratorView {
        EnumeratorView {
            name: self.name@,
            fields: self.fields@.map_values(|f: EnumField| (f.name@, f.tag)),
            fully_qualified_fields: tagged_view(self.fully_qualified_fields@),
            partially_qualified_fields: tagged_view(self.partially_qualified_fields@),
            imported: self.imported,
            package: self.package@,
            module: self.module@,
            path: self.path@,
            import: self.import@,
            index: self.index@,
            attributes: self.attributes@,
            variant_attributes: self.fields@.map_values(|f: EnumField| f.attributes@),
        }
    }
}

/// Views of a list of enums, in order.
pub open spec fn enums_view(enums: Seq<Enumerator>) -> Seq<EnumeratorView> {
    enums.map_values(|e: Enumerator| e@)
}

/// A group of fields of which at most one is set.
#[derive(Debug, Clone, Default)]
pub struct OneOf {
    pub name: String,
    pub fields: Vec<Field>,
    pub package: String,
    pub module: String,
    pub imported: bool,
    pub field_attributes: Vec<String>,
    pub container_attributes: Vec<String>,
}

/// Mathematical value of a [`OneOf`].
pub struct OneOfView {
    pub name: Seq<char>,
    pub fields: Seq<FieldView>,
    pub package: Seq<char>,
    pub module: Seq<char>,
    pub imported: bool,
    pub field_attributes: Seq<String>,
    pub container_attributes: Seq<String>,
}

impl View for OneOf {
    type V = OneOfView;

    open spec fn view(&self) -> OneOfView {
        OneOfView {
            name: self.name@,
            fields: fields_view(self.fields@),
            package: self.package@,
            module: self.module@,
            imported: self.imported,
            field_attributes: self.field_attributes@,
            container_attributes: self.container_attributes@,
        }
    }
}

/// Views of a list of oneofs, in order.
pub open spec fn oneofs_view(oneofs: Seq<OneOf>) -> Seq<OneOfView> {
    oneofs.map_values(|o: OneOf| o@)
}

/// A message declaration, with the messages and enums nested in it.
#[derive(Debug, Default)]
pub struct Message {
    pub name: String,
    pub fields: Vec<Field>,
    pub oneofs: Vec<OneOf>,
    pub reserved_nums: Option<Vec<i32>>,
    pub reserved_names: Option<Vec<String>>,
    pub imported: bool,
    pub package: String,
    pub messages: Vec<Message>,
    pub enums: Vec<Enumerator>,
    pub module: String,
    pub path: String,
    pub import: String,
    pub index: MessageIndex,
    pub attributes: Vec<String>,
}

/// Mathematical value of a [`Message`].
pub struct MessageView {
    pub name: Seq<char>,
    pub fields: Seq<FieldView>,
    pub oneofs: Seq<OneOfView>,
    pub reserved_nums: Option<Seq<i32>>,
    pub reserved_names: Option<Seq<Seq<char>>>,
    pub imported: bool,
    pub package: Seq<char>,
    pub messages: Seq<MessageView>,
    pub enums: Seq<EnumeratorView>,
    pub module: Seq<char>,
    pub path: Seq<char>,
    pub import: Seq<char>,
    pub index: Seq<usize>,
    pub attributes: Seq<String>,
}

/// Mathematical value of a message.
pub open spec fn message_view(m: Message) -> MessageView
    decreases m,
{
    MessageView {
        name: m.name@,
        fields: fields_view(m.fields@),
        oneofs: oneofs_view(m.oneofs@),
        reserved_nums: match m.reserved_nums {
            Some(v) => Some(v@),
            None => None,
        },
        reserved_names: match m.reserved_names {
            Some(v) => Some(v@.map_values(|s: String| s@)),
            None => None,
        },
        imported: m.imported,
        package: m.package@,
        messages: Seq::new(
            m.messages@.len(),
            |i: int|
                if 0 <= i < m.messages@.len() {
                    message_view(m.messages@[i])
                } else {
                    arbitrary()
                },
        ),
        enums: enums_view(m.enums@),
        module: m.module@,
        path: m.path@,
        import: m.import@,
        index: m.index@,
        attributes: m.attributes@,
    }
}

impl View for Message {
    type V = MessageView;

    open spec fn view(&self) -> MessageView {
        message_view(*self)
    }
}

/// Views of a list of messages, in order.
pub open spec fn messages_view(messages: Seq<Message>) -> Seq<MessageView> {
    messages.map_values(|m: Message| m@)
}

/// One function of an RPC service.
#[derive(Debug, Clone, Default)]
pub struct RpcFunctionDeclaration {
    pub name: String,
    pub arg: String,
    pub ret: String,
}

/// An RPC service declaration.
#[derive(Debug, Clone, Default)]
pub struct RpcService {
    pub service_name: String,
    pub functions: Vec<RpcFunctionDeclaration>,
}

/// Settings of one run.
#[derive(Debug, Clone)]
pub struct Config {
    pub in_file: String,
    pub out_file: String,
    pub single_module: bool,
    pub import_search_path: Vec<String>,
    pub no_output: bool,
    pub error_cycle: bool,
    pub headers: bool,
    pub dont_use_cow: bool,
    pub custom_repr: Option<String>,
    pub default_custom_struct_derive: String,
    pub custom_struct_derive: Vec<(String, String)>,
    pub custom_includes: Vec<String>,
    pub owned: bool,
    pub nostd: bool,
    pub hashbrown: bool,
    pub gen_info: bool,
    pub add_deprecated_fields: bool,
}

/// One schema file, with what it imports merged in.
#[derive(Debug, Default)]
pub struct FileDescriptor {
    pub import_paths: Vec<String>,
    pub package: String,
    pub syntax: Syntax,
    pub messages: Vec<Message>,
    pub enums: Vec<Enumerator>,
    pub module: String,
    pub rpc_services: Vec<RpcService>,
    pub owned: bool,
}

/// Mathematical value of an [`RpcFunctionDeclaration`].
pub struct RpcFunctionView {
    pub name: Seq<char>,
    pub arg: Seq<char>,
    pub ret: Seq<char>,
}

impl View for RpcFunctionDeclaration {
    type V = RpcFunctionView;

    open spec fn view(&self) -> RpcFunctionView {
        RpcFunctionView { name: self.name@, arg: self.arg@, ret: self.ret@ }
    }
}

/// Mathematical value of an [`RpcService`].
pub struct RpcServiceView {
    pub service_name: Seq<char>,
    pub functions: Seq<RpcFunctionView>,
}

impl View for RpcService {
    type V = RpcServiceView;

    open spec fn view(&self) -> RpcServiceView {
        RpcServiceView {
            service_name: self.service_name@,
            functions: self.functions@.map_values(|f: RpcFunctionDeclaration| f@),
        }
    }
}

/// Views of a list of services, in order.
pub open spec fn services_view(services: Seq<RpcService>) -> Seq<RpcServiceView> {
    services.map_values(|s: RpcService| s@)
}

/// Mathematical value of a [`FileDescriptor`].
pub struct DescView {
    pub import_paths: Seq<Seq<char>>,
    pub rpc_services: Seq<RpcServiceView>,
    pub package: Seq<char>,
    pub syntax: Syntax,
    pub messages: Seq<MessageView>,
    pub enums: Seq<EnumeratorView>,
    pub module: Seq<char>,
    pub owned: bool,
}

impl View for FileDescriptor {
    type V = DescView;

    open spec fn view(&self) -> DescView {
        DescView {
            import_paths: self.import_paths@.map_values(|s: String| s@),
            rpc_services: services_view(self.rpc_services@),
            package: self.package@,
            syntax: self.syntax,
            messages: messages_view(self.messages@),
            enums: enums_view(self.enums@),
            module: self.module@,
            owned: self.owned,
        }
    }
}

/// The message views of one level are those of `messages_view`.
pub proof fn lemma_nested_views(m: Message)
    ensures
        m@.messages == messages_view(m.messages@),
{
    assert(m@.messages.len() == m.messages@.len());
    assert forall|i: int| 0 <= i < m.messages@.len() implies m@.messages[i] == messages_view(
        m.messages@,
    )[i] by {
        assert(m@.messages[i] == m.messages@[i]@);
    }
    assert(m@.messages =~= messages_view(m.messages@));
}

} // verus!
