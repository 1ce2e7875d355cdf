//! The symbol table of a file and the scoped lookup of type names in it.

use vstd::prelude::*;
use vstd::string::*;
use crate::model::{EnumIndex, EnumPath, FieldType, MessageIndex, TypeView};
use crate::text::{dotted, join_dotted};

verus! {

/// Fully-qualified names of the messages and enums of a file, each list in
/// the order of registration. Of two entries with one name the first counts.
#[derive(Debug)]
pub struct SymbolTable {
    pub messages: Vec<(String, MessageIndex)>,
    pub enums: Vec<(String, EnumIndex)>,
}

/// Mathematical value of a [`SymbolTable`].
pub struct SymbolsView {
    pub messages: Seq<(Seq<char>, Seq<usize>)>,
    pub enums: Seq<(Seq<char>, EnumPath)>,
}

/// Views of a list of named messages, in order.
pub open spec fn named_messages_view(v: Seq<(String, MessageIndex)>) -> Seq<
    (Seq<char>, Seq<usize>),
> {
    v.map_values(|p: (String, MessageIndex)| (p.0@, p.1@))
}

/// Views of a list of named enums, in order.
pub open spec fn named_enums_view(v: Seq<(String, EnumIndex)>) -> Seq<(Seq<char>, EnumPath)> {
    v.map_values(|p: (String, EnumIndex)| (p.0@, p.1@))
}

/// Views of a list of strings, in order.
pub open spec fn strings_view(v: Seq<String>) -> Seq<Seq<char>> {
    v.map_values(|s: String| s@)
}

impl View for SymbolTable {
    type V = SymbolsView;

    open spec fn view(&self) -> SymbolsView {
        SymbolsView {
            messages: named_messages_view(self.messages@),
            enums: named_enums_view(self.enums@),
        }
    }
}

/// What the first entry named `key` holds, if there is one.
pub open spec fn first_named<T>(table: Seq<(Seq<char>, T)>, key: Seq<char>) -> Option<T>
    decreases table.len(),
{
    if table.len() == 0 {
        None
    } else if table[0].0 == key {
        Some(table[0].1)
    } else {
        first_named(table.skip(1), key)
    }
}

/// A name is found in a table exactly if some entry has it.
pub proof fn lemma_first_named_exists<T>(table: Seq<(Seq<char>, T)>, key: Seq<char>)
    ensures
        first_named(table, key) is Some <==> exists|i: int|
            0 <= i < table.len() && (#[trigger] table[i]).0 == key,
    decreases table.len(),
{
    if table.len() > 0 {
        if table[0].0 == key {
        } else {
            lemma_first_named_exists(table.skip(1), key);
            if first_named(table, key) is Some {
                let i = choose|i: int|
                    0 <= i < table.skip(1).len() && (#[trigger] table.skip(1)[i]).0 == key;
                assert(table[i + 1].0 == key);
            }
            if exists|i: int| 0 <= i < table.len() && (#[trigger] table[i]).0 == key {
                let i = choose|i: int| 0 <= i < table.len() && (#[trigger] table[i]).0 == key;
                assert(table.skip(1)[i - 1].0 == key);
            }
        }
    }
}

/// What is found under a name is what some entry of that name holds.
pub proof fn lemma_first_named_entry<T>(table: Seq<(Seq<char>, T)>, key: Seq<char>)
    requires
        first_named(table, key) is Some,
    ensures
        exists|i: int|
            0 <= i < table.len() && (#[trigger] table[i]).0 == key && table[i].1 == first_named(
                table,
                key,
            )->0,
    decreases table.len(),
{
    if table[0].0 == key {
    } else {
        lemma_first_named_entry(table.skip(1), key);
        let i = choose|i: int|
            0 <= i < table.skip(1).len() && (#[trigger] table.skip(1)[i]).0 == key
                && table.skip(1)[i].1 == first_named(table.skip(1), key)->0;
        assert(table[i + 1] == table.skip(1)[i]);
    }
}

/// The names tried for `name` with the package prefixes that end at a dot
/// before position `upto`, innermost first.
pub open spec fn ancestor_candidates(package: Seq<char>, name: Seq<char>, upto: nat) -> Seq<
    Seq<char>,
>
    decreases upto,
{
    if upto == 0 || upto > package.len() {
        Seq::empty()
    } else {
        let at = (upto - 1) as nat;
        let here = if package[at as int] == '.' {
            seq![dotted(package.take(at as int), name)]
        } else {
            Seq::empty()
        };
        here + ancestor_candidates(package, name, at)
    }
}

/// The fully-qualified names tried, in order, for the reference `name`
/// written in the message `owner` of `package`.
pub open spec fn candidate_names(package: Seq<char>, owner: Seq<char>, name: Seq<char>) -> Seq<
    Seq<char>,
> {
    if name.len() > 0 && name[0] == '.' {
        seq![name.skip(1)]
    } else if package.len() == 0 {
        seq![dotted(owner, name), name]
    } else {
        seq![dotted(dotted(package, owner), name), dotted(package, name)] + ancestor_candidates(
            package,
            name,
            package.len(),
        ) + seq![name]
    }
}

impl SymbolsView {
    /// What one fully-qualified name stands for: a message before an enum.
    pub open spec fn lookup(self, key: Seq<char>) -> Option<TypeView> {
        match first_named(self.messages, key) {
            Some(m) => Some(TypeView::Message(m)),
            None => match first_named(self.enums, key) {
                Some(e) => Some(TypeView::Enum(e)),
                None => None,
            },
        }
    }

    /// What the first of `names` that is found stands for.
    pub open spec fn lookup_first(self, names: Seq<Seq<char>>) -> Option<TypeView>
        decreases names.len(),
    {
        if names.len() == 0 {
            None
        } else {
            match self.lookup(names[0]) {
                Some(t) => Some(t),
                None => self.lookup_first(names.skip(1)),
            }
        }
    }

    /// What the reference `name`, written in the message `owner` of
    /// `package`, stands for.
    pub open spec fn resolve_name(self, package: Seq<char>, owner: Seq<char>, name: Seq<char>) -> Option<
        TypeView,
    > {
        self.lookup_first(candidate_names(package, owner, name))
    }

    /// A type with a reference at its top replaced by what the reference
    /// stands for; a reference that stands for nothing stays.
    pub open spec fn resolve_leaf(self, package: Seq<char>, owner: Seq<char>, t: TypeView) -> TypeView {
        match t {
            TypeView::MessageOrEnum(name) => match self.resolve_name(package, owner, name) {
                Some(r) => r,
                None => t,
            },
            _ => t,
        }
    }

    /// A type with its references resolved: the type itself, or the key and
    /// the value of a map.
    pub open spec fn resolve_type(self, package: Seq<char>, owner: Seq<char>, t: TypeView) -> TypeView {
        match t {
            TypeView::Map_(k, v) => TypeView::Map_(
                Box::new(self.resolve_leaf(package, owner, *k)),
                Box::new(self.resolve_leaf(package, owner, *v)),
            ),
            _ => self.resolve_leaf(package, owner, t),
        }
    }

    /// The reference at the top of a type if it stands for nothing.
    pub open spec fn missing_leaf(self, package: Seq<char>, owner: Seq<char>, t: TypeView) -> Option<
        Seq<char>,
    > {
        match t {
            TypeView::MessageOrEnum(name) => if self.resolve_name(package, owner, name) is None {
                Some(name)
            } else {
                None
            },
            _ => None,
        }
    }

    /// The first reference of a type that stands for nothing: for a map the
    /// key before the value.
    pub open spec fn missing_in_type(self, package: Seq<char>, owner: Seq<char>, t: TypeView) -> Option<
        Seq<char>,
    > {
        match t {
            TypeView::Map_(k, v) => match self.missing_leaf(package, owner, *k) {
                Some(n) => Some(n),
                None => self.missing_leaf(package, owner, *v),
            },
            _ => self.missing_leaf(package, owner, t),
        }
    }
}

/// Whatever a lookup finds is a message or an enum.
pub proof fn lemma_lookup_first_resolved(symbols: SymbolsView, names: Seq<Seq<char>>)
    ensures
        symbols.lookup_first(names) is Some ==> (symbols.lookup_first(names)->0 is Message
            || symbols.lookup_first(names)->0 is Enum),
    decreases names.len(),
{
    if names.len() > 0 {
        lemma_lookup_first_resolved(symbols, names.skip(1));
    }
}

/// The first of the names that stands for anything decides the lookup.
pub proof fn lemma_lookup_first_at(symbols: SymbolsView, names: Seq<Seq<char>>, c: int)
    requires
        0 <= c < names.len(),
        symbols.lookup(names[c]) is Some,
        forall|b: int| 0 <= b < c ==> symbols.lookup(#[trigger] names[b]) is None,
    ensures
        symbols.lookup_first(names) == symbols.lookup(names[c]),
    decreases c,
{
    if c > 0 {
        let rest = names.skip(1);
        assert(rest[c - 1] == names[c]);
        assert forall|b: int| 0 <= b < c - 1 implies symbols.lookup(#[trigger] rest[b]) is None by {
            assert(rest[b] == names[b + 1]);
        }
        lemma_lookup_first_at(symbols, rest, c - 1);
        assert(symbols.lookup(names[0]) is None);
    }
}

/// Resolution leaves a type that holds no name as it is.
pub proof fn lemma_resolved_type_stays(symbols: SymbolsView, package: Seq<char>, owner: Seq<char>, t: TypeView)
    requires
        !t.has_unresolved(),
    ensures
        symbols.resolve_type(package, owner, t) == t,
{
    match t {
        TypeView::Map_(k, v) => {
            assert(symbols.resolve_leaf(package, owner, *k) == *k);
            assert(symbols.resolve_leaf(package, owner, *v) == *v);
        },
        _ => {},
    }
}

/// A type in which no reference is missing holds no reference once resolved.
pub proof fn lemma_resolved_type(symbols: SymbolsView, package: Seq<char>, owner: Seq<char>, t: TypeView)
    requires
        symbols.missing_in_type(package, owner, t) is None,
    ensures
        !symbols.resolve_type(package, owner, t).has_unresolved(),
{
    assert forall|name: Seq<char>|
        symbols.resolve_name(package, owner, name) is Some implies ({
            let found = (#[trigger] symbols.resolve_name(package, owner, name))->0;
            found is Message || found is Enum
        }) by {
        lemma_lookup_first_resolved(symbols, candidate_names(package, owner, name));
    }
}

/// Scoped lookup precedence: a name written in a message that has a
/// package stands for the message of that name nested in the message, if
/// there is one, whatever else carries the name.
pub proof fn lemma_nested_scope_first(
    symbols: SymbolsView,
    package: Seq<char>,
    owner: Seq<char>,
    name: Seq<char>,
)
    requires
        package.len() > 0,
        name.len() > 0 ==> name[0] != '.',
        first_named(symbols.messages, dotted(dotted(package, owner), name)) is Some,
    ensures
        symbols.resolve_name(package, owner, name) == Some(
            TypeView::Message(
                first_named(symbols.messages, dotted(dotted(package, owner), name))->0,
            ),
        ),
{
    let names = candidate_names(package, owner, name);
    assert(names[0] == dotted(dotted(package, owner), name));
}

/// The names tried for a reference, in order.
pub fn candidates(package: &String, owner: &String, name: &String) -> (r: Vec<String>)
    ensures
        strings_view(r@) == candidate_names(package@, owner@, name@),
{
    let name_len = name.as_str().unicode_len();
    let mut out: Vec<String> = Vec::new();
    if name_len > 0 && name.as_str().get_char(0) == '.' {
        let rest = name.as_str().substring_char(1, name_len);
        out.push(String::from_str(rest));
        assert(name@.subrange(1, name_len as int) =~= name@.skip(1));
        assert(strings_view(out@) =~= seq![name@.skip(1)]);
        return out;
    }
    let package_len = package.as_str().unicode_len();
    if package_len == 0 {
        out.push(join_dotted(owner.as_str(), name.as_str()));
        out.push(name.clone());
        assert(strings_view(out@) =~= seq![dotted(owner@, name@), name@]);
        return out;
    }
    let inner = join_dotted(package.as_str(), owner.as_str());
    out.push(join_dotted(inner.as_str(), name.as_str()));
    out.push(join_dotted(package.as_str(), name.as_str()));
    let ghost head = seq![dotted(dotted(package@, owner@), name@), dotted(package@, name@)];
    let ghost all = ancestor_candidates(package@, name@, package@.len());
    assert(strings_view(out@) =~= head);
    let mut i: usize = package_len;
    while i > 0
        invariant
            i <= package_len,
            package_len == package@.len(),
            strings_view(out@) + ancestor_candidates(package@, name@, i as nat) == head + all,
            all == ancestor_candidates(package@, name@, package@.len()),
        decreases i,
    {
        let at = i - 1;
        let ghost before = strings_view(out@);
        if package.as_str().get_char(at) == '.' {
            let prefix = package.as_str().substring_char(0, at);
            out.push(join_dotted(prefix, name.as_str()));
            proof {
                assert(package@.subrange(0, at as int) =~= package@.take(at as int));
                assert(strings_view(out@) =~= before.push(
                    dotted(package@.take(at as int), name@),
                ));
            }
        }
        proof {
            assert(strings_view(out@) + ancestor_candidates(package@, name@, at as nat) =~= before
                + ancestor_candidates(package@, name@, i as nat));
        }
        i = at;
    }
    let ghost before = strings_view(out@);
    out.push(name.clone());
    proof {
        assert(before + ancestor_candidates(package@, name@, 0) =~= before);
        assert(strings_view(out@) =~= head + all + seq![name@]);
    }
    out
}

impl SymbolTable {
    /// The message registered first under `key`.
    pub fn find_message(&self, key: &String) -> (r: Option<&MessageIndex>)
        ensures
            r is Some <==> first_named(self@.messages, key@) is Some,
            r is Some ==> r->0@ == first_named(self@.messages, key@)->0,
    {
        let n = self.messages.len();
        let mut i: usize = 0;
        assert(self@.messages.skip(0) =~= self@.messages);
        while i < n
            invariant
                i <= n,
                n == self.messages.len(),
                first_named(self@.messages.skip(i as int), key@) == first_named(
                    self@.messages,
                    key@,
                ),
            decreases n - i,
        {
            proof {
                assert(self@.messages.skip(i as int)[0] == self@.messages[i as int]);
                assert(self@.messages.skip(i as int).skip(1) =~= self@.messages.skip(i as int + 1));
            }
            if self.messages[i].0 == *key {
                return Some(&self.messages[i].1);
            }
            i += 1;
        }
        None
    }

    /// The enum registered first under `key`.
    pub fn find_enum(&self, key: &String) -> (r: Option<&EnumIndex>)
        ensures
            r is Some <==> first_named(self@.enums, key@) is Some,
            r is Some ==> r->0@ == first_named(self@.enums, key@)->0,
    {
        let n = self.enums.len();
        let mut i: usize = 0;
        assert(self@.enums.skip(0) =~= self@.enums);
        while i < n
            invariant
                i <= n,
                n == self.enums.len(),
                first_named(self@.enums.skip(i as int), key@) == first_named(self@.enums, key@),
            decreases n - i,
        {
            proof {
                assert(self@.enums.skip(i as int)[0] == self@.enums[i as int]);
                assert(self@.enums.skip(i as int).skip(1) =~= self@.enums.skip(i as int + 1));
            }
            if self.enums[i].0 == *key {
                return Some(&self.enums[i].1);
            }
            i += 1;
        }
        None
    }

    /// What the reference `name`, written in the message `owner` of
    /// `package`, stands for.
    pub fn resolve_name(&self, package: &String, owner: &String, name: &String) -> (r: Option<
        FieldType,
    >)
        ensures
            r is Some <==> self@.resolve_name(package@, owner@, name@) is Some,
            r is Some ==> r->0@ == self@.resolve_name(package@, owner@, name@)->0,
    {
        let names = candidates(package, owner, name);
        let n = names.len();
        let mut i: usize = 0;
        let ghost all = candidate_names(package@, owner@, name@);
        assert(all.skip(0) =~= all);
        while i < n
            invariant
                i <= n,
                n == names.len(),
                strings_view(names@) == all,
                all == candidate_names(package@, owner@, name@),
                self@.lookup_first(all.skip(i as int)) == self@.lookup_first(all),
            decreases n - i,
        {
            proof {
                assert(all.len() == n);
                assert(all.skip(i as int).len() > 0);
                assert(all.skip(i as int)[0] == names@[i as int]@);
                assert(all.skip(i as int).skip(1) =~= all.skip(i as int + 1));
            }
            match self.find_message(&names[i]) {
                Some(m) => {
                    return Some(FieldType::Message(m.duplicate()));
                },
                None => {},
            }
            match self.find_enum(&names[i]) {
                Some(e) => {
                    return Some(FieldType::Enum(e.duplicate()));
                },
                None => {},
            }
            i += 1;
        }
        assert(all.len() == n);
        None
    }

    /// A type with a reference at its top replaced by what it stands for.
    pub fn resolve_leaf(&self, package: &String, owner: &String, t: &FieldType) -> (r: FieldType)
        ensures
            r@ == self@.resolve_leaf(package@, owner@, t@),
    {
        match t {
            FieldType::MessageOrEnum(name) => match self.resolve_name(package, owner, name) {
                Some(found) => found,
                None => t.duplicate(),
            },
            _ => t.duplicate(),
        }
    }

    /// A type with its references resolved.
    pub fn resolve_type(&self, package: &String, owner: &String, t: &FieldType) -> (r: FieldType)
        ensures
            r@ == self@.resolve_type(package@, owner@, t@),
    {
        match t {
            FieldType::Map_(k, v) => FieldType::Map_(
                Box::new(self.resolve_leaf(package, owner, k)),
                Box::new(self.resolve_leaf(package, owner, v)),
            ),
            _ => self.resolve_leaf(package, owner, t),
        }
    }

    /// The reference at the top of a type if it stands for nothing.
    pub fn missing_leaf(&self, package: &String, owner: &String, t: &FieldType) -> (r: Option<
        String,
    >)
        ensures
            r is Some <==> self@.missing_leaf(package@, owner@, t@) is Some,
            r is Some ==> r->0@ == self@.missing_leaf(package@, owner@, t@)->0,
    {
        match t {
            FieldType::MessageOrEnum(name) => match self.resolve_name(package, owner, name) {
                Some(_) => None,
                None => Some(name.clone()),
            },
            _ => None,
        }
    }

    /// The first reference of a type that stands for nothing.
    pub fn missing_in_type(&self, package: &String, owner: &String, t: &FieldType) -> (r: Option<
        String,
    >)
        ensures
            r is Some <==> self@.missing_in_type(package@, owner@, t@) is Some,
            r is Some ==> r->0@ == self@.missing_in_type(package@, owner@, t@)->0,
    {
        match t {
            FieldType::Map_(k, v) => match self.missing_leaf(package, owner, k) {
                Some(n) => Some(n),
                None => self.missing_leaf(package, owner, v),
            },
            _ => self.missing_leaf(package, owner, t),
        }
    }
}

} // verus!
