//! Copies of the model: a copy of a declaration has the same mathematical
//! value as the declaration.

use vstd::prelude::*;
use crate::model::{
    EnumField, Enumerator, Field, FileDescriptor, Message, OneOf, RpcFunctionDeclaration,
    RpcService, enums_view, fields_view, lemma_nested_views, messages_view, oneofs_view,
    services_view, tagged_view,
};

verus! {

/// A copy of a list of strings.
pub fn copy_strings(v: &Vec<String>) -> (r: Vec<String>)
    ensures
        r@ == v@,
{
    let mut out: Vec<String> = Vec::new();
    let n = v.len();
    let mut i: usize = 0;
    while i < n
        invariant
            i <= n,
            n == v@.len(),
            out@ == v@.take(i as int),
        decreases n - i,
    {
        out.push(v[i].clone());
        assert(out@ =~= v@.take(i as int + 1));
        i += 1;
    }
    assert(v@.take(n as int) =~= v@);
    out
}

/// A copy of a list of named tags.
pub fn copy_tagged(v: &Vec<(String, i32)>) -> (r: Vec<(String, i32)>)
    ensures
        r@ == v@,
{
    let mut out: Vec<(String, i32)> = Vec::new();
    let n = v.len();
    let mut i: usize = 0;
    while i < n
        invariant
            i <= n,
            n == v@.len(),
            out@ == v@.take(i as int),
        decreases n - i,
    {
        out.push((v[i].0.clone(), v[i].1));
        assert(out@ =~= v@.take(i as int + 1));
        i += 1;
    }
    assert(v@.take(n as int) =~= v@);
    out
}

/// A copy of a list of numbers.
pub fn copy_numbers(v: &Vec<i32>) -> (r: Vec<i32>)
    ensures
        r@ == v@,
{
    let mut out: Vec<i32> = Vec::new();
    let n = v.len();
    let mut i: usize = 0;
    while i < n
        invariant
            i <= n,
            n == v@.len(),
            out@ == v@.take(i as int),
        decreases n - i,
    {
        out.push(v[i]);
        assert(out@ =~= v@.take(i as int + 1));
        i += 1;
    }
    assert(v@.take(n as int) =~= v@);
    out
}

impl Field {
    /// A copy of this field.
    pub fn duplicate(&self) -> (r: Field)
        ensures
            r@ == self@,
    {
        Field {
            name: self.name.clone(),
            frequency: self.frequency,
            typ: self.typ.duplicate(),
            number: self.number,
            default: match &self.default {
                Some(d) => Some(d.clone()),
                None => None,
            },
            packed: self.packed,
            boxed: self.boxed,
            deprecated: self.deprecated,
            attributes: copy_strings(&self.attributes),
        }
    }
}

/// A copy of a list of fields.
pub fn copy_fields(v: &Vec<Field>) -> (r: Vec<Field>)
    ensures
        fields_view(r@) == fields_view(v@),
{
    let mut out: Vec<Field> = Vec::new();
    let n = v.len();
    let mut i: usize = 0;
    while i < n
        invariant
            i <= n,
            n == v@.len(),
            out@.len() == i,
            forall|j: int| 0 <= j < i ==> (#[trigger] out@[j])@ == v@[j]@,
        decreases n - i,
    {
        out.push(v[i].duplicate());
        i += 1;
    }
    assert(fields_view(out@) =~= fields_view(v@));
    out
}

impl EnumField {
    /// A copy of this variant.
    pub fn duplicate(&self) -> (r: EnumField)
        ensures
            r.name@ == self.name@,
            r.tag == self.tag,
            r.attributes@ == self.attributes@,
    {
        EnumField {
            name: self.name.clone(),
            tag: self.tag,
            attributes: copy_strings(&self.attributes),
        }
    }
}

impl Enumerator {
    /// A copy of this enum.
    pub fn duplicate(&self) -> (r: Enumerator)
        ensures
            r@ == self@,
    {
        let mut fields: Vec<EnumField> = Vec::new();
        let n = self.fields.len();
        let mut i: usize = 0;
        while i < n
            invariant
                i <= n,
                n == self.fields@.len(),
                fields@.len() == i,
                forall|j: int|
                    0 <= j < i ==> (#[trigger] fields@[j]).name@ == self.fields@[j].name@
                        && fields@[j].tag == self.fields@[j].tag && fields@[j].attributes@
                        == self.fields@[j].attributes@,
            decreases n - i,
        {
            fields.push(self.fields[i].duplicate());
            i += 1;
        }
        let out = Enumerator {
            name: self.name.clone(),
            fields,
            fully_qualified_fields: copy_tagged(&self.fully_qualified_fields),
            partially_qualified_fields: copy_tagged(&self.partially_qualified_fields),
            imported: self.imported,
            package: self.package.clone(),
            module: self.module.clone(),
            path: self.path.clone(),
            import: self.import.clone(),
            index: self.index.duplicate(),
            attributes: copy_strings(&self.attributes),
        };
        assert(out@.fields =~= self@.fields);
        assert(out@.variant_attributes =~= self@.variant_attributes);
        out
    }
}

/// A copy of a list of enums.
pub fn copy_enums(v: &Vec<Enumerator>) -> (r: Vec<Enumerator>)
    ensures
        enums_view(r@) == enums_view(v@),
{
    let mut out: Vec<Enumerator> = Vec::new();
    let n = v.len();
    let mut i: usize = 0;
    while i < n
        invariant
            i <= n,
            n == v@.len(),
            out@.len() == i,
            forall|j: int| 0 <= j < i ==> (#[trigger] out@[j])@ == v@[j]@,
        decreases n - i,
    {
        out.push(v[i].duplicate());
        i += 1;
    }
    assert(enums_view(out@) =~= enums_view(v@));
    out
}

impl OneOf {
    /// A copy of this oneof.
    pub fn duplicate(&self) -> (r: OneOf)
        ensures
            r@ == self@,
    {
        OneOf {
            name: self.name.clone(),
            fields: copy_fields(&self.fields),
            package: self.package.clone(),
            module: self.module.clone(),
            imported: self.imported,
            field_attributes: copy_strings(&self.field_attributes),
            container_attributes: copy_strings(&self.container_attributes),
        }
    }
}

/// A copy of a list of oneofs.
pub fn copy_oneofs(v: &Vec<OneOf>) -> (r: Vec<OneOf>)
    ensures
        oneofs_view(r@) == oneofs_view(v@),
{
    let mut out: Vec<OneOf> = Vec::new();
    let n = v.len();
    let mut i: usize = 0;
    while i < n
        invariant
            i <= n,
            n == v@.len(),
            out@.len() == i,
            forall|j: int| 0 <= j < i ==> (#[trigger] out@[j])@ == v@[j]@,
        decreases n - i,
    {
        out.push(v[i].duplicate());
        i += 1;
    }
    assert(oneofs_view(out@) =~= oneofs_view(v@));
    out
}

impl Message {
    /// A copy of this message, with all that is nested in it.
    pub fn duplicate(&self) -> (r: Message)
        ensures
            r@ == self@,
        decreases self,
    {
        let mut messages: Vec<Message> = Vec::new();
        let n = self.messages.len();
        let mut i: usize = 0;
        while i < n
            invariant
                i <= n,
                n == self.messages@.len(),
                messages@.len() == i,
                forall|j: int| 0 <= j < i ==> (#[trigger] messages@[j])@ == self.messages@[j]@,
            decreases n - i,
        {
            messages.push(self.messages[i].duplicate());
            i += 1;
        }
        let out = Message {
            name: self.name.clone(),
            fields: copy_fields(&self.fields),
            oneofs: copy_oneofs(&self.oneofs),
            reserved_nums: match &self.reserved_nums {
                Some(v) => Some(copy_numbers(v)),
                None => None,
            },
            reserved_names: match &self.reserved_names {
                Some(v) => Some(copy_strings(v)),
                None => None,
            },
            imported: self.imported,
            package: self.package.clone(),
            messages,
            enums: copy_enums(&self.enums),
            module: self.module.clone(),
            path: self.path.clone(),
            import: self.import.clone(),
            index: self.index.duplicate(),
            attributes: copy_strings(&self.attributes),
        };
        proof {
            lemma_nested_views(out);
            lemma_nested_views(*self);
            assert(out@.messages =~= self@.messages);
        }
        out
    }
}

impl Clone for Message {
    fn clone(&self) -> (r: Message)
        ensures
            r@ == self@,
    {
        self.duplicate()
    }
}

/// A copy of a list of messages.
pub fn copy_messages(v: &Vec<Message>) -> (r: Vec<Message>)
    ensures
        messages_view(r@) == messages_view(v@),
{
    let mut out: Vec<Message> = Vec::new();
    let n = v.len();
    let mut i: usize = 0;
    while i < n
        invariant
            i <= n,
            n == v@.len(),
            out@.len() == i,
            forall|j: int| 0 <= j < i ==> (#[trigger] out@[j])@ == v@[j]@,
        decreases n - i,
    {
        out.push(v[i].duplicate());
        i += 1;
    }
    assert(messages_view(out@) =~= messages_view(v@));
    out
}

impl RpcService {
    /// A copy of this service.
    pub fn duplicate(&self) -> (r: RpcService)
        ensures
            r@ == self@,
    {
        let mut functions: Vec<RpcFunctionDeclaration> = Vec::new();
        let n = self.functions.len();
        let mut i: usize = 0;
        while i < n
            invariant
                i <= n,
                n == self.functions@.len(),
                functions@.len() == i,
                forall|j: int| 0 <= j < i ==> (#[trigger] functions@[j])@ == self.functions@[j]@,
            decreases n - i,
        {
            let f = &self.functions[i];
            functions.push(
                RpcFunctionDeclaration {
                    name: f.name.clone(),
                    arg: f.arg.clone(),
                    ret: f.ret.clone(),
                },
            );
            i += 1;
        }
        let out = RpcService { service_name: self.service_name.clone(), functions };
        assert(out@.functions =~= self@.functions);
        out
    }
}

/// A copy of a list of services.
pub fn copy_services(v: &Vec<RpcService>) -> (r: Vec<RpcService>)
    ensures
        services_view(r@) == services_view(v@),
{
    let mut out: Vec<RpcService> = Vec::new();
    let n = v.len();
    let mut i: usize = 0;
    while i < n
        invariant
            i <= n,
            n == v@.len(),
            out@.len() == i,
            forall|j: int| 0 <= j < i ==> (#[trigger] out@[j])@ == v@[j]@,
        decreases n - i,
    {
        out.push(v[i].duplicate());
        i += 1;
    }
    assert(services_view(out@) =~= services_view(v@));
    out
}

impl FileDescriptor {
    /// A copy of this file.
    pub fn duplicate(&self) -> (r: FileDescriptor)
        ensures
            r@ == self@,
    {
        FileDescriptor {
            import_paths: copy_strings(&self.import_paths),
            package: self.package.clone(),
            syntax: self.syntax,
            messages: copy_messages(&self.messages),
            enums: copy_enums(&self.enums),
            module: self.module.clone(),
            rpc_services: copy_services(&self.rpc_services),
            owned: self.owned,
        }
    }
}

impl Clone for FileDescriptor {
    fn clone(&self) -> (r: FileDescriptor)
        ensures
            r@ == self@,
    {
        self.duplicate()
    }
}

} // verus!
