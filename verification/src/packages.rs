//! Packages and modules: every message, enum and oneof learns the package it
//! is declared in and the module it will stand in, and the declarations of an
//! imported file are merged into the file that imports it.

use vstd::prelude::*;
use vstd::string::*;
use crate::model::{
    DescView, EnumField, Enumerator, EnumeratorView, FileDescriptor, Message, MessageView, OneOf,
    OneOfView, enums_view, lemma_nested_views, messages_view, oneofs_view, tagged_view,
};
use crate::text::{colons, concat3, dotted, join_dotted, join_scoped, replace_dots, scoped};

verus! {

/// The variants of an enum, each named in the scope of the enum.
pub open spec fn partially_qualified(e: EnumeratorView) -> Seq<(Seq<char>, i32)> {
    e.fields.map_values(|f: (Seq<char>, i32)| (scoped(e.name, f.0), f.1))
}

/// The variants of an enum, each named in the scope of the enum and of the
/// module that the enum stands in.
pub open spec fn fully_qualified(e: EnumeratorView, module: Seq<char>) -> Seq<(Seq<char>, i32)> {
    partially_qualified(e).map_values(
        |p: (Seq<char>, i32)|
            (
                if module.len() == 0 {
                    p.0
                } else {
                    scoped(colons(module), p.0)
                },
                p.1,
            ),
    )
}

/// The enum `e` declared in `package` and standing in `module`.
pub open spec fn packaged_enum(e: EnumeratorView, package: Seq<char>, module: Seq<char>) -> EnumeratorView {
    EnumeratorView {
        package,
        module,
        partially_qualified_fields: partially_qualified(e),
        fully_qualified_fields: fully_qualified(e, module),
        ..e
    }
}

/// The package that what is nested in the message `name` of `package` is
/// declared in.
pub open spec fn child_package(package: Seq<char>, name: Seq<char>) -> Seq<char> {
    if package.len() == 0 {
        name
    } else {
        dotted(package, name)
    }
}

/// The module that what is nested in the message `name` of `module` stands in.
pub open spec fn child_module(module: Seq<char>, name: Seq<char>) -> Seq<char> {
    module + ".mod_"@ + name
}

/// The message `m` declared in `package` and standing in `module`, with all
/// that is nested in it. An empty package leaves the package of the message
/// itself as it is.
pub open spec fn packaged_message(m: MessageView, package: Seq<char>, module: Seq<char>) -> MessageView
    decreases m,
{
    let inner_package = child_package(package, m.name);
    let inner_module = child_module(module, m.name);
    MessageView {
        package: if package.len() == 0 {
            m.package
        } else {
            package
        },
        module,
        messages: Seq::new(
            m.messages.len(),
            |i: int|
                if 0 <= i < m.messages.len() {
                    packaged_message(m.messages[i], inner_package, inner_module)
                } else {
                    arbitrary()
                },
        ),
        enums: m.enums.map_values(|e: EnumeratorView| packaged_enum(e, inner_package, inner_module)),
        oneofs: m.oneofs.map_values(
            |o: OneOfView| OneOfView { package: inner_package, module: inner_module, ..o },
        ),
        ..m
    }
}

/// The message `m` marked as imported, with all that is nested in it.
pub open spec fn imported_message(m: MessageView) -> MessageView
    decreases m,
{
    MessageView {
        imported: true,
        oneofs: m.oneofs.map_values(|o: OneOfView| OneOfView { imported: true, ..o }),
        messages: Seq::new(
            m.messages.len(),
            |i: int|
                if 0 <= i < m.messages.len() {
                    imported_message(m.messages[i])
                } else {
                    arbitrary()
                },
        ),
        enums: m.enums.map_values(|e: EnumeratorView| EnumeratorView { imported: true, ..e }),
        ..m
    }
}

/// `given` where `own` is empty, else `own`.
pub open spec fn or_given(own: Seq<char>, given: Seq<char>) -> Seq<char> {
    if own.len() == 0 {
        given
    } else {
        own
    }
}

/// A message of an imported file as it stands in the importing file: in the
/// package and module of the file it came from unless it has a package,
/// with the place it came from, and marked as imported.
pub open spec fn merged_message(
    m: MessageView,
    package: Seq<char>,
    module: Seq<char>,
    file: Seq<char>,
    import: Seq<char>,
) -> MessageView {
    let placed = if m.package.len() == 0 {
        packaged_message(m, package, module)
    } else {
        m
    };
    imported_message(
        MessageView {
            path: or_given(placed.path, file),
            import: or_given(placed.import, import),
            ..placed
        },
    )
}

/// An enum of an imported file as it stands in the importing file.
pub open spec fn merged_enum(
    e: EnumeratorView,
    package: Seq<char>,
    module: Seq<char>,
    file: Seq<char>,
    import: Seq<char>,
) -> EnumeratorView {
    let placed = if e.package.len() == 0 {
        packaged_enum(e, package, module)
    } else {
        e
    };
    EnumeratorView {
        path: or_given(placed.path, file),
        import: or_given(placed.import, import),
        imported: true,
        ..placed
    }
}

impl DescView {
    /// The file with its own messages and enums placed in its package and module.
    pub open spec fn with_packages(self) -> DescView {
        DescView {
            messages: self.messages.map_values(
                |m: MessageView| packaged_message(m, self.package, self.module),
            ),
            enums: self.enums.map_values(
                |e: EnumeratorView| packaged_enum(e, self.package, self.module),
            ),
            ..self
        }
    }

    /// The file with the messages and enums of the imported file `other`,
    /// read from `file` and imported as `import`, appended to its own.
    pub open spec fn with_import(self, other: DescView, file: Seq<char>, import: Seq<char>) -> DescView {
        DescView {
            messages: self.messages + other.messages.map_values(
                |m: MessageView| merged_message(m, other.package, other.module, file, import),
            ),
            enums: self.enums + other.enums.map_values(
                |e: EnumeratorView| merged_enum(e, other.package, other.module, file, import),
            ),
            ..self
        }
    }

    /// The file standing in the module that its package names, or `stem`
    /// where it has no package, and its messages read from `file`.
    pub open spec fn with_source(self, file: Seq<char>, import: Option<Seq<char>>, stem: Seq<char>) -> DescView {
        DescView {
            module: or_given(self.package, stem),
            messages: self.messages.map_values(
                |m: MessageView|
                    if m.path.len() == 0 {
                        MessageView {
                            path: file,
                            import: match import {
                                Some(i) => i,
                                None => m.import,
                            },
                            ..m
                        }
                    } else {
                        m
                    },
            ),
            ..self
        }
    }
}

impl Enumerator {
    /// Places the enum in `package` and `module` and names its variants in
    /// their scopes.
    pub fn set_package(&mut self, package: &str, module: &str)
        ensures
            final(self)@ == packaged_enum(old(self)@, package@, module@),
    {
        self.package = String::from_str(package);
        self.module = String::from_str(module);
        let mut partial: Vec<(String, i32)> = Vec::new();
        let mut full: Vec<(String, i32)> = Vec::new();
        let n = self.fields.len();
        let plain = module.unicode_len() == 0;
        let prefix = replace_dots(module);
        let ghost e = old(self)@;
        let mut i: usize = 0;
        while i < n
            invariant
                i <= n,
                n == self.fields.len(),
                self.fields == old(self).fields,
                self.name == old(self).name,
                e == old(self)@,
                plain == (module@.len() == 0),
                prefix@ == colons(module@),
                partial@.len() == i,
                full@.len() == i,
                forall|j: int|
                    0 <= j < i ==> (#[trigger] partial@[j]).0@ == partially_qualified(e)[j].0
                        && partial@[j].1 == e.fields[j].1,
                forall|j: int|
                    0 <= j < i ==> (#[trigger] full@[j]).0@ == fully_qualified(e, module@)[j].0
                        && full@[j].1 == e.fields[j].1,
            decreases n - i,
        {
            let f: &EnumField = &self.fields[i];
            let scoped_name = join_scoped(self.name.as_str(), f.name.as_str());
            assert(e.fields[i as int] == (f.name@, f.tag));
            let full_name = if plain {
                scoped_name.clone()
            } else {
                join_scoped(prefix.as_str(), scoped_name.as_str())
            };
            partial.push((scoped_name, f.tag));
            full.push((full_name, f.tag));
            i += 1;
        }
        self.partially_qualified_fields = partial;
        self.fully_qualified_fields = full;
        proof {
            assert(tagged_view(self.partially_qualified_fields@) =~= partially_qualified(e));
            assert(tagged_view(self.fully_qualified_fields@) =~= fully_qualified(e, module@));
        }
    }
}

impl OneOf {
    /// Places the oneof in `package` and `module`.
    pub fn set_package(&mut self, package: &str, module: &str)
        ensures
            final(self)@ == (OneOfView { package: package@, module: module@, ..old(self)@ }),
    {
        self.package = String::from_str(package);
        self.module = String::from_str(module);
    }
}

impl Message {
    /// Places the message in `package` and `module`, and all that is nested
    /// in it in the package and module that the message makes.
    pub fn set_package(&mut self, package: &str, module: &str)
        ensures
            final(self)@ == packaged_message(old(self)@, package@, module@),
        decreases *old(self),
    {
        let inner_package = if package.unicode_len() == 0 {
            self.module = String::from_str(module);
            self.name.clone()
        } else {
            self.package = String::from_str(package);
            self.module = String::from_str(module);
            join_dotted(package, self.name.as_str())
        };
        let inner_module = concat3(module, ".mod_", self.name.as_str());
        let ghost ip = child_package(package@, old(self)@.name);
        let ghost im = child_module(module@, old(self)@.name);
        let ghost before = *self;
        let n = self.messages.len();
        let mut i: usize = 0;
        while i < n
            invariant
                i <= n,
                self.messages.len() == n,
                old(self).messages.len() == n,
                inner_package@ == ip,
                inner_module@ == im,
                forall|j: int|
                    0 <= j < i ==> self.messages@[j]@ == packaged_message(
                        (#[trigger] old(self).messages@[j])@,
                        ip,
                        im,
                    ),
                forall|j: int| i <= j < n ==> self.messages@[j] == #[trigger] old(self).messages@[j],
                *self == (Message { messages: self.messages, ..before }),
            decreases n - i,
        {
            proof {
                assert(self.messages@[i as int] == old(self).messages@[i as int]);
                assert(decreases_to!(old(self).messages => old(self).messages[i as int]));
            }
            self.messages[i].set_package(inner_package.as_str(), inner_module.as_str());
            i += 1;
        }
        let ghost middle = *self;
        let k = self.enums.len();
        let mut j: usize = 0;
        while j < k
            invariant
                j <= k,
                self.enums.len() == k,
                middle.enums.len() == k,
                inner_package@ == ip,
                inner_module@ == im,
                forall|x: int|
                    0 <= x < j ==> self.enums@[x]@ == packaged_enum(
                        (#[trigger] middle.enums@[x])@,
                        ip,
                        im,
                    ),
                forall|x: int| j <= x < k ==> self.enums@[x] == #[trigger] middle.enums@[x],
                *self == (Message { enums: self.enums, ..middle }),
            decreases k - j,
        {
            self.enums[j].set_package(inner_package.as_str(), inner_module.as_str());
            j += 1;
        }
        let ghost late = *self;
        let c = self.oneofs.len();
        let mut x: usize = 0;
        while x < c
            invariant
                x <= c,
                self.oneofs.len() == c,
                late.oneofs.len() == c,
                inner_package@ == ip,
                inner_module@ == im,
                forall|y: int|
                    0 <= y < x ==> self.oneofs@[y]@ == (OneOfView {
                        package: ip,
                        module: im,
                        ..(#[trigger] late.oneofs@[y])@
                    }),
                forall|y: int| x <= y < c ==> self.oneofs@[y] == #[trigger] late.oneofs@[y],
                *self == (Message { oneofs: self.oneofs, ..late }),
            decreases c - x,
        {
            self.oneofs[x].set_package(inner_package.as_str(), inner_module.as_str());
            x += 1;
        }
        proof {
            lemma_nested_views(*self);
            lemma_nested_views(*old(self));
            let want = packaged_message(old(self)@, package@, module@);
            assert(self@.messages =~= want.messages);
            assert(self@.enums =~= want.enums);
            assert(self@.oneofs =~= want.oneofs);
        }
    }

    /// Marks the message as imported, with all that is nested in it.
    pub fn set_imported(&mut self)
        ensures
            final(self)@ == imported_message(old(self)@),
        decreases *old(self),
    {
        self.imported = true;
        let ghost start = *self;
        let c = self.oneofs.len();
        let mut x: usize = 0;
        while x < c
            invariant
                x <= c,
                self.oneofs.len() == c,
                start.oneofs.len() == c,
                forall|y: int|
                    0 <= y < x ==> self.oneofs@[y]@ == (OneOfView {
                        imported: true,
                        ..(#[trigger] start.oneofs@[y])@
                    }),
                forall|y: int| x <= y < c ==> self.oneofs@[y] == #[trigger] start.oneofs@[y],
                *self == (Message { oneofs: self.oneofs, ..start }),
            decreases c - x,
        {
            self.oneofs[x].imported = true;
            x += 1;
        }
        let ghost before = *self;
        let n = self.messages.len();
        let mut i: usize = 0;
        while i < n
            invariant
                i <= n,
                self.messages.len() == n,
                old(self).messages.len() == n,
                forall|j: int|
                    0 <= j < i ==> self.messages@[j]@ == imported_message(
                        (#[trigger] old(self).messages@[j])@,
                    ),
                forall|j: int| i <= j < n ==> self.messages@[j] == #[trigger] old(self).messages@[j],
                *self == (Message { messages: self.messages, ..before }),
            decreases n - i,
        {
            proof {
                assert(self.messages@[i as int] == old(self).messages@[i as int]);
                assert(decreases_to!(old(self).messages => old(self).messages[i as int]));
            }
            self.messages[i].set_imported();
            i += 1;
        }
        let ghost middle = *self;
        let k = self.enums.len();
        let mut j: usize = 0;
        while j < k
            invariant
                j <= k,
                self.enums.len() == k,
                middle.enums.len() == k,
                forall|x: int|
                    0 <= x < j ==> self.enums@[x]@ == (EnumeratorView {
                        imported: true,
                        ..(#[trigger] middle.enums@[x])@
                    }),
                forall|x: int| j <= x < k ==> self.enums@[x] == #[trigger] middle.enums@[x],
                *self == (Message { enums: self.enums, ..middle }),
            decreases k - j,
        {
            self.enums[j].imported = true;
            j += 1;
        }
        proof {
            lemma_nested_views(*self);
            lemma_nested_views(*old(self));
            let want = imported_message(old(self)@);
            assert(self@.messages =~= want.messages);
            assert(self@.enums =~= want.enums);
            assert(self@.oneofs =~= want.oneofs);
        }
    }
}

impl FileDescriptor {
    /// Places the file's own messages and enums in its package and module.
    pub fn set_packages(&mut self)
        ensures
            final(self)@ == old(self)@.with_packages(),
    {
        let n = self.messages.len();
        let mut i: usize = 0;
        let ghost before = *self;
        while i < n
            invariant
                i <= n,
                self.messages.len() == n,
                old(self).messages.len() == n,
                forall|j: int|
                    0 <= j < i ==> self.messages@[j]@ == packaged_message(
                        (#[trigger] old(self).messages@[j])@,
                        old(self).package@,
                        old(self).module@,
                    ),
                forall|j: int| i <= j < n ==> self.messages@[j] == #[trigger] old(self).messages@[j],
                *self == (FileDescriptor { messages: self.messages, ..before }),
                before == *old(self),
            decreases n - i,
        {
            self.messages[i].set_package(self.package.as_str(), self.module.as_str());
            i += 1;
        }
        let ghost middle = *self;
        let k = self.enums.len();
        let mut j: usize = 0;
        while j < k
            invariant
                j <= k,
                self.enums.len() == k,
                middle.enums.len() == k,
                middle.package == old(self).package,
                middle.module == old(self).module,
                forall|x: int|
                    0 <= x < j ==> self.enums@[x]@ == packaged_enum(
                        (#[trigger] middle.enums@[x])@,
                        old(self).package@,
                        old(self).module@,
                    ),
                forall|x: int| j <= x < k ==> self.enums@[x] == #[trigger] middle.enums@[x],
                *self == (FileDescriptor { enums: self.enums, ..middle }),
            decreases k - j,
        {
            self.enums[j].set_package(self.package.as_str(), self.module.as_str());
            j += 1;
        }
        proof {
            let want = old(self)@.with_packages();
            assert(self@.messages =~= want.messages);
            assert(self@.enums =~= want.enums);
        }
    }

    /// Sets the module of the file, its package or `stem` where it has
    /// none, and tells the messages that have no place yet that they were
    /// read from `file` and are imported as `import`.
    pub fn set_source(&mut self, file: &str, import: Option<&str>, stem: &str)
        ensures
            final(self)@ == old(self)@.with_source(
                file@,
                match import {
                    Some(i) => Some(i@),
                    None => None,
                },
                stem@,
            ),
    {
        let ghost given = match import {
            Some(i) => Some(i@),
            None => None,
        };
        if self.package.as_str().unicode_len() == 0 {
            self.module = String::from_str(stem);
        } else {
            self.module = self.package.clone();
        }
        let ghost before = *self;
        let n = self.messages.len();
        let mut i: usize = 0;
        while i < n
            invariant
                i <= n,
                self.messages.len() == n,
                old(self).messages.len() == n,
                given == match import {
                    Some(i) => Some(i@),
                    None => None,
                },
                forall|j: int|
                    0 <= j < i ==> self.messages@[j]@ == old(self)@.with_source(
                        file@,
                        given,
                        stem@,
                    ).messages[j],
                forall|j: int| i <= j < n ==> self.messages@[j] == #[trigger] old(self).messages@[j],
                *self == (FileDescriptor { messages: self.messages, ..before }),
            decreases n - i,
        {
            assert(old(self)@.messages[i as int] == old(self).messages@[i as int]@);
            if self.messages[i].path.as_str().unicode_len() == 0 {
                self.messages[i].path = String::from_str(file);
                match import {
                    Some(text) => {
                        self.messages[i].import = String::from_str(text);
                    },
                    None => {},
                }
            }
            i += 1;
        }
        proof {
            let want = old(self)@.with_source(file@, given, stem@);
            assert(self@.messages =~= want.messages);
        }
    }

    /// Merges the messages and enums of the imported file `other`, read from
    /// `file` and imported as `import`, into this file.
    pub fn merge_import(&mut self, other: FileDescriptor, file: &str, import: &str)
        ensures
            final(self)@ == old(self)@.with_import(other@, file@, import@),
    {
        let mut other = other;
        let ghost source = other@;
        let ghost want = old(self)@.with_import(source, file@, import@);
        let mut messages: Vec<Message> = Vec::new();
        std::mem::swap(&mut messages, &mut other.messages);
        let mut enums: Vec<Enumerator> = Vec::new();
        std::mem::swap(&mut enums, &mut other.enums);
        let package = other.package;
        let module = other.module;
        let n = messages.len();
        let mut i: usize = 0;
        while i < n
            invariant
                i <= n,
                messages.len() == n,
                source.messages.len() == n,
                package@ == source.package,
                module@ == source.module,
                forall|j: int|
                    0 <= j < i ==> (#[trigger] messages@[j])@ == merged_message(
                        source.messages[j],
                        source.package,
                        source.module,
                        file@,
                        import@,
                    ),
                forall|j: int| i <= j < n ==> (#[trigger] messages@[j])@ == source.messages[j],
            decreases n - i,
        {
            if messages[i].package.as_str().unicode_len() == 0 {
                messages[i].set_package(package.as_str(), module.as_str());
            }
            if messages[i].path.as_str().unicode_len() == 0 {
                messages[i].path = String::from_str(file);
            }
            if messages[i].import.as_str().unicode_len() == 0 {
                messages[i].import = String::from_str(import);
            }
            messages[i].set_imported();
            i += 1;
        }
        let k = enums.len();
        let mut j: usize = 0;
        while j < k
            invariant
                j <= k,
                enums.len() == k,
                source.enums.len() == k,
                package@ == source.package,
                module@ == source.module,
                forall|x: int|
                    0 <= x < j ==> (#[trigger] enums@[x])@ == merged_enum(
                        source.enums[x],
                        source.package,
                        source.module,
                        file@,
                        import@,
                    ),
                forall|x: int| j <= x < k ==> (#[trigger] enums@[x])@ == source.enums[x],
            decreases k - j,
        {
            if enums[j].package.as_str().unicode_len() == 0 {
                enums[j].set_package(package.as_str(), module.as_str());
            }
            if enums[j].path.as_str().unicode_len() == 0 {
                enums[j].path = String::from_str(file);
            }
            if enums[j].import.as_str().unicode_len() == 0 {
                enums[j].import = String::from_str(import);
            }
            enums[j].imported = true;
            j += 1;
        }
        self.messages.append(&mut messages);
        self.enums.append(&mut enums);
        proof {
            assert(self@.messages =~= want.messages);
            assert(self@.enums =~= want.enums);
        }
    }
}

} // verus!
