//! Validation of a resolved file: fields against the names and numbers that
//! their message reserves, and literal defaults against the types of their
//! fields.

use vstd::prelude::*;
use vstd::string::*;
use crate::errors::{Error, ErrorView};
use crate::index::enum_at;
use crate::model::{
    DescView, EnumIndex, EnumPath, Field, FieldType, FieldView, FileDescriptor, Message,
    MessageView, messages_view,
};
use crate::tree::{field_refs_view, forest, message_refs_view};
use crate::typetext::{is_bool, is_bool_literal};

verus! {

/// What can be wrong with a field.
pub enum Fault {
    /// Its name or its number is reserved by its message.
    Reserved,
    /// It has a literal default though its type is a message or a map.
    DefaultOnMessage,
    /// Its literal default names no variant of its enum.
    UnknownVariant,
}

/// Whether the message `m` reserves the name or the number of the field `f`.
pub open spec fn is_reserved(m: MessageView, f: FieldView) -> bool {
    ||| (m.reserved_names is Some && m.reserved_names->0.contains(f.name))
    ||| (m.reserved_nums is Some && m.reserved_nums->0.contains(f.number))
}

/// Whether `literal` is the name of a variant of the enum that `e` names.
pub open spec fn names_variant(d: DescView, e: EnumPath, literal: Seq<char>) -> bool {
    match enum_at(d, e) {
        Some(found) => exists|i: int|
            0 <= i < found.fields.len() && (#[trigger] found.fields[i]).0 == literal,
        None => false,
    }
}

/// What is wrong with the field `f` of the message `m`, if anything: a
/// reserved name or number before a misplaced default, that before a
/// default that names no variant.
pub open spec fn field_fault(d: DescView, m: MessageView, f: FieldView) -> Option<Fault> {
    if is_reserved(m, f) {
        Some(Fault::Reserved)
    } else if f.default is Some && (f.typ is Message || f.typ is Map_) {
        Some(Fault::DefaultOnMessage)
    } else if f.default is Some && f.typ is Enum && !names_variant(
        d,
        f.typ->Enum_0,
        f.default->0,
    ) {
        Some(Fault::UnknownVariant)
    } else {
        None
    }
}

/// The error that reports a fault of the field `f` of the message `m`.
pub open spec fn fault_error(m: MessageView, f: FieldView, fault: Fault) -> ErrorView {
    match fault {
        Fault::Reserved => ErrorView::InvalidMessage(
            "Error in message "@ + m.name + "\nField "@ + f.name
                + " conflict with reserved fields"@,
        ),
        Fault::DefaultOnMessage => ErrorView::InvalidMessage(
            "Error in message "@ + m.name + "\nField "@ + f.name
                + " is a message or a map and cannot have a default value"@,
        ),
        Fault::UnknownVariant => ErrorView::InvalidDefaultEnum(
            "Error in message "@ + m.name + "\nEnum field "@ + f.name + " has a default value '"@
                + f.default->0 + "' which is not valid for its enum"@,
        ),
    }
}

/// The error for the first faulty field among `fields`, fields of `m`.
pub open spec fn first_fault_in_fields(d: DescView, m: MessageView, fields: Seq<FieldView>) -> Option<
    ErrorView,
>
    decreases fields.len(),
{
    if fields.len() == 0 {
        None
    } else {
        match field_fault(d, m, fields[0]) {
            Some(fault) => Some(fault_error(m, fields[0], fault)),
            None => first_fault_in_fields(d, m, fields.skip(1)),
        }
    }
}

impl MessageView {
    /// The error for the first faulty field of this message, if it has one.
    pub open spec fn sanity_fault(self, d: DescView) -> Option<ErrorView> {
        first_fault_in_fields(d, self, self.all_fields())
    }

    /// Whether no field of this message is faulty.
    pub open spec fn is_sane(self, d: DescView) -> bool {
        forall|j: int|
            0 <= j < self.all_fields().len() ==> field_fault(
                d,
                self,
                #[trigger] self.all_fields()[j],
            ) is None
    }
}

/// The error for the first faulty field of the first faulty message.
pub open spec fn first_fault_in_messages(d: DescView, messages: Seq<MessageView>) -> Option<
    ErrorView,
>
    decreases messages.len(),
{
    if messages.len() == 0 {
        None
    } else {
        match messages[0].sanity_fault(d) {
            Some(e) => Some(e),
            None => first_fault_in_messages(d, messages.skip(1)),
        }
    }
}

impl DescView {
    /// The error for the first faulty field of the file, if there is one:
    /// the messages are taken in declaration order, each before the
    /// messages nested in it.
    pub open spec fn sanity_fault(self) -> Option<ErrorView> {
        first_fault_in_messages(self, forest(self.messages))
    }
}

/// A message without a first fault has no faulty field.
pub proof fn lemma_no_fault_is_sane(d: DescView, m: MessageView, fields: Seq<FieldView>)
    requires
        first_fault_in_fields(d, m, fields) is None,
    ensures
        forall|j: int| 0 <= j < fields.len() ==> field_fault(d, m, #[trigger] fields[j]) is None,
    decreases fields.len(),
{
    if fields.len() > 0 {
        lemma_no_fault_is_sane(d, m, fields.skip(1));
        assert forall|j: int| 0 <= j < fields.len() implies field_fault(
            d,
            m,
            #[trigger] fields[j],
        ) is None by {
            if j > 0 {
                assert(fields[j] == fields.skip(1)[j - 1]);
            }
        }
    }
}

/// Validation is exact: a file passes exactly if none of its top-level
/// messages has a field whose name or number is reserved, that has a
/// default though it is a message or a map, or whose default names no
/// variant of its enum.
pub proof fn lemma_sanity_is_exact(d: DescView, messages: Seq<MessageView>)
    ensures
        first_fault_in_messages(d, messages) is None <==> forall|k: int|
            0 <= k < messages.len() ==> (#[trigger] messages[k]).is_sane(d),
    decreases messages.len(),
{
    if messages.len() > 0 {
        let rest = messages.skip(1);
        lemma_sanity_is_exact(d, rest);
        let m = messages[0];
        if m.sanity_fault(d) is None {
            lemma_no_fault_is_sane(d, m, m.all_fields());
        } else {
            lemma_fault_is_not_sane(d, m, m.all_fields());
        }
        if first_fault_in_messages(d, messages) is None {
            assert forall|k: int| 0 <= k < messages.len() implies (#[trigger] messages[k]).is_sane(
                d,
            ) by {
                if k > 0 {
                    assert(messages[k] == rest[k - 1]);
                }
            }
        }
        if forall|k: int| 0 <= k < messages.len() ==> (#[trigger] messages[k]).is_sane(d) {
            assert(messages[0].is_sane(d));
            assert forall|k: int| 0 <= k < rest.len() implies (#[trigger] rest[k]).is_sane(d) by {
                assert(rest[k] == messages[k + 1]);
            }
        }
    }
}

/// Where there is a first fault among the fields, one of them is faulty.
pub proof fn lemma_fault_is_not_sane(d: DescView, m: MessageView, fields: Seq<FieldView>)
    requires
        first_fault_in_fields(d, m, fields) is Some,
    ensures
        exists|j: int| 0 <= j < fields.len() && field_fault(d, m, #[trigger] fields[j]) is Some,
    decreases fields.len(),
{
    if field_fault(d, m, fields[0]) is Some {
    } else {
        lemma_fault_is_not_sane(d, m, fields.skip(1));
        let j = choose|j: int|
            0 <= j < fields.skip(1).len() && field_fault(d, m, #[trigger] fields.skip(1)[j])
                is Some;
        assert(fields[j + 1] == fields.skip(1)[j]);
    }
}

/// Whether a list of strings holds `wanted`.
pub fn holds_name(names: &Vec<String>, wanted: &String) -> (r: bool)
    ensures
        r == names@.map_values(|s: String| s@).contains(wanted@),
{
    let ghost all = names@.map_values(|s: String| s@);
    let n = names.len();
    let mut i: usize = 0;
    while i < n
        invariant
            i <= n,
            n == names@.len(),
            all == names@.map_values(|s: String| s@),
            forall|j: int| 0 <= j < i ==> all[j] != wanted@,
        decreases n - i,
    {
        assert(all[i as int] == names@[i as int]@);
        if names[i] == *wanted {
            return true;
        }
        i += 1;
    }
    false
}

/// Whether a list of numbers holds `wanted`.
pub fn holds_number(numbers: &Vec<i32>, wanted: i32) -> (r: bool)
    ensures
        r == numbers@.contains(wanted),
{
    let n = numbers.len();
    let mut i: usize = 0;
    while i < n
        invariant
            i <= n,
            n == numbers@.len(),
            forall|j: int| 0 <= j < i ==> numbers@[j] != wanted,
        decreases n - i,
    {
        if numbers[i] == wanted {
            return true;
        }
        i += 1;
    }
    false
}

/// Five pieces of text, one after the other.
fn concat5(a: &str, b: &str, c: &str, d: &str, e: &str) -> (r: String)
    ensures
        r@ == a@ + b@ + c@ + d@ + e@,
{
    let mut s = String::from_str(a);
    s.append(b);
    s.append(c);
    s.append(d);
    s.append(e);
    s
}

impl EnumIndex {
    /// Whether `literal` is the name of a variant of the enum of `desc`
    /// that this index names.
    pub fn names_variant(&self, desc: &FileDescriptor, literal: &String) -> (r: bool)
        ensures
            r == names_variant(desc@, self@, literal@),
    {
        match self.find_enum(desc) {
            Some(found) => {
                let n = found.fields.len();
                let mut i: usize = 0;
                while i < n
                    invariant
                        i <= n,
                        n == found.fields@.len(),
                        n == found@.fields.len(),
                        enum_at(desc@, self@) == Some(found@),
                        forall|j: int| 0 <= j < i ==> (#[trigger] found@.fields[j]).0 != literal@,
                    decreases n - i,
                {
                    assert(found@.fields[i as int].0 == found.fields@[i as int].name@);
                    if found.fields[i].name == *literal {
                        proof {
                            let e = enum_at(desc@, self@)->0;
                            assert(e.fields[i as int].0 == literal@);
                            assert(names_variant(desc@, self@, literal@));
                        }
                        return true;
                    }
                    i += 1;
                }
                false
            },
            None => false,
        }
    }
}

impl Message {
    /// Whether this message reserves the name or the number of `f`.
    pub fn reserves(&self, f: &Field) -> (r: bool)
        ensures
            r == is_reserved(self@, f@),
    {
        let by_name = match &self.reserved_names {
            Some(names) => holds_name(names, &f.name),
            None => false,
        };
        if by_name {
            return true;
        }
        match &self.reserved_nums {
            Some(numbers) => holds_number(numbers, f.number),
            None => false,
        }
    }

    /// What is wrong with the field `f` of this message, if anything.
    pub fn check_field(&self, desc: &FileDescriptor, f: &Field) -> (r: Result<(), Error>)
        ensures
            r is Ok <==> field_fault(desc@, self@, f@) is None,
            r is Err ==> r->Err_0@ == fault_error(
                self@,
                f@,
                field_fault(desc@, self@, f@)->0,
            ),
    {
        if self.reserves(f) {
            return Err(
                Error::InvalidMessage(
                    concat5(
                        "Error in message ",
                        self.name.as_str(),
                        "\nField ",
                        f.name.as_str(),
                        " conflict with reserved fields",
                    ),
                ),
            );
        }
        match &f.default {
            Some(literal) => {
                match &f.typ {
                    FieldType::Message(_) | FieldType::Map_(_, _) => {
                        Err(
                            Error::InvalidMessage(
                                concat5(
                                    "Error in message ",
                                    self.name.as_str(),
                                    "\nField ",
                                    f.name.as_str(),
                                    " is a message or a map and cannot have a default value",
                                ),
                            ),
                        )
                    },
                    FieldType::Enum(e) => {
                        if e.names_variant(desc, literal) {
                            Ok(())
                        } else {
                            let mut text = concat5(
                                "Error in message ",
                                self.name.as_str(),
                                "\nEnum field ",
                                f.name.as_str(),
                                " has a default value '",
                            );
                            text.append(literal.as_str());
                            text.append("' which is not valid for its enum");
                            Err(Error::InvalidDefaultEnum(text))
                        }
                    },
                    _ => Ok(()),
                }
            },
            None => Ok(()),
        }
    }

    /// Checks the fields of this message against what the message reserves
    /// and their literal defaults against their types.
    pub fn sanity_checks(&self, desc: &FileDescriptor) -> (r: Result<(), Error>)
        ensures
            r is Ok <==> self@.sanity_fault(desc@) is None,
            r is Err ==> Some(r->Err_0@) == self@.sanity_fault(desc@),
    {
        let fields = self.all_fields();
        let ghost all = self@.all_fields();
        let n = fields.len();
        let mut i: usize = 0;
        assert(all.skip(0) =~= all);
        assert(all.len() == n);
        while i < n
            invariant
                i <= n,
                n == fields@.len(),
                n == all.len(),
                all == self@.all_fields(),
                field_refs_view(fields@) == all,
                first_fault_in_fields(desc@, self@, all.skip(i as int)) == first_fault_in_fields(
                    desc@,
                    self@,
                    all,
                ),
            decreases n - i,
        {
            proof {
                assert(all.skip(i as int)[0] == fields@[i as int]@);
                assert(all.skip(i as int).skip(1) =~= all.skip(i as int + 1));
            }
            match self.check_field(desc, fields[i]) {
                Ok(_) => {},
                Err(e) => {
                    return Err(e);
                },
            }
            i += 1;
        }
        Ok(())
    }
}

impl FileDescriptor {
    /// Checks every message of the file, nested messages included.
    pub fn sanity_checks(&self) -> (r: Result<(), Error>)
        ensures
            r is Ok <==> self@.sanity_fault() is None,
            r is Err ==> Some(r->Err_0@) == self@.sanity_fault(),
            r is Ok <==> forall|k: int|
                0 <= k < forest(self@.messages).len() ==> (#[trigger] forest(
                    self@.messages,
                )[k]).is_sane(self@),
    {
        let messages = self.all_messages();
        let ghost all = forest(self@.messages);
        let n = messages.len();
        let mut i: usize = 0;
        proof {
            assert(all.skip(0) =~= all);
            lemma_sanity_is_exact(self@, all);
        }
        while i < n
            invariant
                i <= n,
                n == messages@.len(),
                all == message_refs_view(messages@),
                all == forest(self@.messages),
                first_fault_in_messages(self@, all.skip(i as int)) == first_fault_in_messages(
                    self@,
                    all,
                ),
            decreases n - i,
        {
            proof {
                assert(all.skip(i as int)[0] == messages@[i as int]@);
                assert(all.skip(i as int).skip(1) =~= all.skip(i as int + 1));
            }
            match messages[i].sanity_checks(self) {
                Ok(_) => {},
                Err(e) => {
                    proof {
                        lemma_sanity_is_exact(self@, all);
                    }
                    return Err(e);
                },
            }
            i += 1;
        }
        proof {
            lemma_sanity_is_exact(self@, all);
        }
        Ok(())
    }
}

/// The error that reports a boolean default that is no boolean literal.
pub open spec fn bad_bool_error(m: MessageView, f: FieldView) -> ErrorView {
    ErrorView::InvalidMessage(
        "Error in message "@ + m.name + "\nField "@ + f.name + " has a default value '"@
            + f.default->0 + "' which is not a boolean"@,
    )
}

/// The error for the first field among `fields`, fields of `m`, with a
/// boolean default that is no boolean literal.
pub open spec fn bad_bool_in_fields(m: MessageView, fields: Seq<FieldView>) -> Option<ErrorView>
    decreases fields.len(),
{
    if fields.len() == 0 {
        None
    } else if fields[0].has_bad_bool_default() {
        Some(bad_bool_error(m, fields[0]))
    } else {
        bad_bool_in_fields(m, fields.skip(1))
    }
}

/// The error for the first field of the first of `messages` with a boolean
/// default that is no boolean literal.
pub open spec fn bad_bool_in_messages(messages: Seq<MessageView>) -> Option<ErrorView>
    decreases messages.len(),
{
    if messages.len() == 0 {
        None
    } else {
        match bad_bool_in_fields(messages[0], messages[0].all_fields()) {
            Some(e) => Some(e),
            None => bad_bool_in_messages(messages.skip(1)),
        }
    }
}

impl DescView {
    /// The error for the first boolean default, in declaration order and
    /// nested messages included, that is no boolean literal.
    pub open spec fn bad_bool_default(self) -> Option<ErrorView> {
        bad_bool_in_messages(forest(self.messages))
    }
}

impl Message {
    /// Checks the boolean defaults of the fields of this message.
    pub fn check_bool_defaults(&self) -> (r: Result<(), Error>)
        ensures
            r is Ok <==> bad_bool_in_fields(self@, self@.all_fields()) is None,
            r is Err ==> Some(r->Err_0@) == bad_bool_in_fields(self@, self@.all_fields()),
    {
        let fields = self.all_fields();
        let ghost all = self@.all_fields();
        let n = fields.len();
        let mut i: usize = 0;
        assert(all.skip(0) =~= all);
        assert(all.len() == n);
        while i < n
            invariant
                i <= n,
                n == fields@.len(),
                n == all.len(),
                all == self@.all_fields(),
                field_refs_view(fields@) == all,
                bad_bool_in_fields(self@, all.skip(i as int)) == bad_bool_in_fields(self@, all),
            decreases n - i,
        {
            proof {
                assert(all.skip(i as int)[0] == fields@[i as int]@);
                assert(all.skip(i as int).skip(1) =~= all.skip(i as int + 1));
            }
            let f: &Field = fields[i];
            let bad = match (&f.typ, &f.default) {
                (FieldType::Bool, Some(literal)) => !is_bool(literal),
                _ => false,
            };
            if bad {
                let mut text = concat5(
                    "Error in message ",
                    self.name.as_str(),
                    "\nField ",
                    f.name.as_str(),
                    " has a default value '",
                );
                match &f.default {
                    Some(literal) => {
                        text.append(literal.as_str());
                    },
                    None => {},
                }
                text.append("' which is not a boolean");
                return Err(Error::InvalidMessage(text));
            }
            i += 1;
        }
        Ok(())
    }
}

impl FileDescriptor {
    /// Checks the boolean defaults of all fields of the file.
    pub fn check_bool_defaults(&self) -> (r: Result<(), Error>)
        ensures
            r is Ok <==> self@.bad_bool_default() is None,
            r is Err ==> Some(r->Err_0@) == self@.bad_bool_default(),
    {
        let messages = self.all_messages();
        let ghost all = forest(self@.messages);
        let n = messages.len();
        let mut i: usize = 0;
        assert(all.skip(0) =~= all);
        while i < n
            invariant
                i <= n,
                n == messages@.len(),
                all == message_refs_view(messages@),
                all == forest(self@.messages),
                bad_bool_in_messages(all.skip(i as int)) == bad_bool_in_messages(all),
            decreases n - i,
        {
            proof {
                assert(all.skip(i as int)[0] == messages@[i as int]@);
                assert(all.skip(i as int).skip(1) =~= all.skip(i as int + 1));
            }
            match messages[i].check_bool_defaults() {
                Ok(_) => {},
                Err(e) => {
                    return Err(e);
                },
            }
            i += 1;
        }
        Ok(())
    }
}

} // verus!
