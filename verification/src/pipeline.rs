//! The pipeline: a file that was read and merged with its imports is
//! resolved, freed of cycles, validated and given its defaults, in this
//! order, and the first failure ends it.

use vstd::prelude::*;
use vstd::string::*;
use crate::errors::{Error, ErrorView};
use crate::cycles::{keeps_references, lemma_layout_kept, name_lists_view};
use crate::model::{
    Config, DescView, FieldView, FileDescriptor, Frequency, MessageView, Syntax, TypeView,
    messages_view,
};
use crate::names::{
    lemma_sanitized_fields, lemma_sanitized_forest_prefix, sanitized_message, sanitized_name,
};
use crate::passes::{
    FieldPass, PassView, lemma_rewrite_every_field, rewrite_all_messages, rewrite_field,
    rewrite_messages,
};
use crate::tree::forest;
use crate::symbols::strings_view;

verus! {

/// What the pipeline makes of a file: the resolved and planned file, and
/// the names of the messages of each cycle that was repaired by making
/// required fields optional.
pub struct Prepared {
    pub file: DescView,
    pub repaired: Seq<Seq<Seq<char>>>,
}

impl DescView {
    /// The file with every literal default in the form that the generated
    /// code writes.
    pub open spec fn with_sanitized_defaults(self, deprecated_too: bool) -> DescView {
        DescView {
            messages: rewrite_messages(
                PassView::SanitizeDefault(self, deprecated_too),
                self.messages,
            ),
            ..self
        }
    }

    /// The file with its defaults set: maps required, repeated fields of a
    /// proto3 file packed, literal defaults in their written form, and no
    /// packed setting on fields that are not primitive.
    pub open spec fn with_defaults(self, config: &Config) -> DescView {
        self.with_frequencies().with_sanitized_defaults(
            config.add_deprecated_fields,
        ).with_packed_primitives_only()
    }

    /// What the pipeline makes of the file: the resolved and planned file,
    /// or the first error.
    #[verifier::opaque]
    pub open spec fn prepared(self, config: &Config, keywords: Seq<Seq<char>>) -> Result<
        Prepared,
        ErrorView,
    > {
        if self.messages.len() == 0 && self.enums.len() == 0 {
            Err(ErrorView::EmptyRead)
        } else {
            let indexed = (DescView { owned: config.owned, ..self }).indexed();
            if indexed.first_missing() is Some {
                Err(ErrorView::MessageOrEnumNotFound(indexed.first_missing()->0))
            } else {
                let resolved = indexed.resolved();
                let breaking = resolved.break_cycles(config.error_cycle);
                if breaking.cycle is Some {
                    Err(ErrorView::Cycle(breaking.cycle->0))
                } else {
                    let broken = DescView { messages: breaking.messages, ..resolved };
                    if broken.sanity_fault() is Some {
                        Err(broken.sanity_fault()->0)
                    } else {
                        let owned = if config.dont_use_cow {
                            broken.without_cow()
                        } else {
                            broken
                        };
                        if owned.bad_bool_default() is Some {
                            Err(owned.bad_bool_default()->0)
                        } else {
                            let done = owned.with_defaults(config).with_sanitized_names(
                                keywords,
                            );
                            Ok(
                                Prepared {
                                    file: DescView {
                                        package: if config.single_module {
                                            Seq::empty()
                                        } else {
                                            done.package
                                        },
                                        ..done
                                    },
                                    repaired: breaking.repaired,
                                },
                            )
                        }
                    }
                }
            }
        }
    }

    /// The file as the pipeline leaves it where it fails: what the steps
    /// before the failing one have made of it. An empty file has only
    /// taken the setting for owned messages; a file with a name that
    /// stands for nothing carries its identities; a file with a refused
    /// cycle, a faulty field or a bad boolean default is resolved, with the
    /// fields boxed that cycle breaking boxed before it stopped, and in
    /// the last case with its strings and bytes made owned if that was
    /// asked for.
    #[verifier::opaque]
    pub open spec fn halted(self, config: &Config) -> DescView {
        let start = DescView { owned: config.owned, ..self };
        if self.messages.len() == 0 && self.enums.len() == 0 {
            start
        } else {
            let indexed = start.indexed();
            if indexed.first_missing() is Some {
                indexed
            } else {
                let resolved = indexed.resolved();
                let breaking = resolved.break_cycles(config.error_cycle);
                let broken = DescView { messages: breaking.messages, ..resolved };
                if breaking.cycle is Some || broken.sanity_fault() is Some
                    || !config.dont_use_cow {
                    broken
                } else {
                    broken.without_cow()
                }
            }
        }
    }
}

/// Making borrowed strings and bytes owned leaves every message with a
/// finite size in memory so.
pub proof fn lemma_without_cow_keeps_layout(d: DescView)
    requires
        d.has_finite_layout(),
    ensures
        d.without_cow().has_finite_layout(),
{
    let first = PassView::Convert(TypeView::StringCow, TypeView::String_);
    let second = PassView::Convert(TypeView::BytesCow, TypeView::Bytes_);
    assert(keeps_references(first));
    assert(keeps_references(second));
    lemma_layout_kept(d, first);
    lemma_layout_kept(d.convert_field_types(TypeView::StringCow, TypeView::String_), second);
}

/// Setting the defaults leaves every message with a finite size in memory so.
pub proof fn lemma_defaults_keep_layout(d: DescView, config: &Config)
    requires
        d.has_finite_layout(),
    ensures
        d.with_defaults(config).has_finite_layout(),
{
    assert(keeps_references(PassView::MapRequired));
    assert(keeps_references(PassView::RepeatedAsPacked));
    assert(keeps_references(PassView::UnsetPackedNonPrimitives));
    lemma_layout_kept(d, PassView::MapRequired);
    let required = DescView {
        messages: rewrite_messages(PassView::MapRequired, d.messages),
        ..d
    };
    lemma_layout_kept(required, PassView::RepeatedAsPacked);
    let a = d.with_frequencies();
    let sanitize = PassView::SanitizeDefault(a, config.add_deprecated_fields);
    assert(keeps_references(sanitize));
    lemma_layout_kept(a, sanitize);
    let b = a.with_sanitized_defaults(config.add_deprecated_fields);
    lemma_layout_kept(b, PassView::UnsetPackedNonPrimitives);
}

/// What setting the defaults makes of a field `f`: the field `g` has the
/// type, the name, the number, the boxing and the deprecation of `f`; a map
/// is required and any other field occurs as often as before; a field that
/// is not primitive has no packed setting; a primitive field keeps its
/// packed setting, but a repeated one without setting is packed under
/// proto3.
pub open spec fn is_settled_field(syntax: Syntax, f: FieldView, g: FieldView) -> bool {
    &&& g.typ == f.typ
    &&& g.name == f.name
    &&& g.number == f.number
    &&& g.boxed == f.boxed
    &&& g.deprecated == f.deprecated
    &&& g.frequency == if f.typ is Map_ {
        Frequency::Required
    } else {
        f.frequency
    }
    &&& g.packed == if !f.typ.is_primitive() {
        None
    } else if f.packed is None && f.frequency == Frequency::Repeated && syntax == Syntax::Proto3 {
        Some(true)
    } else {
        f.packed
    }
}

impl DescView {
    /// Whether the packed settings and the maps of the file are as the
    /// defaults leave them, in every message at any depth: no field that is
    /// not primitive has a packed setting, every map is required, and under
    /// proto3 every repeated primitive field has a packed setting.
    pub open spec fn has_settled_fields(self) -> bool {
        forall|k: int, j: int|
            0 <= k < forest(self.messages).len() && 0 <= j < forest(
                self.messages,
            )[k].all_fields().len() ==> {
                let f = #[trigger] forest(self.messages)[k].all_fields()[j];
                &&& !f.typ.is_primitive() ==> f.packed is None
                &&& f.typ is Map_ ==> f.frequency == Frequency::Required
                &&& self.syntax == Syntax::Proto3 && f.typ.is_primitive() && f.frequency
                    == Frequency::Repeated ==> f.packed is Some
            }
    }
}

/// Making the names usable leaves settled fields settled.
pub proof fn lemma_names_keep_settled_fields(d: DescView, keywords: Seq<Seq<char>>)
    requires
        d.has_settled_fields(),
    ensures
        d.with_sanitized_names(keywords).has_settled_fields(),
{
    let g = |x: MessageView| sanitized_message(x, keywords);
    let before = forest(d.messages);
    let after = forest(d.with_sanitized_names(keywords).messages);
    lemma_sanitized_forest_prefix(d.messages, keywords, d.messages.len());
    assert(d.messages.take(d.messages.len() as int) =~= d.messages);
    assert(d.messages.map_values(g).take(d.messages.len() as int) =~= d.messages.map_values(g));
    assert(after == before.map_values(g));
    assert forall|k: int, j: int|
        0 <= k < after.len() && 0 <= j < after[k].all_fields().len() implies {
        let f = #[trigger] after[k].all_fields()[j];
        &&& !f.typ.is_primitive() ==> f.packed is None
        &&& f.typ is Map_ ==> f.frequency == Frequency::Required
        &&& d.syntax == Syntax::Proto3 && f.typ.is_primitive() && f.frequency
            == Frequency::Repeated ==> f.packed is Some
    } by {
        lemma_sanitized_fields(before[k], keywords);
        let f = before[k].all_fields()[j];
        assert(after[k].all_fields()[j] == FieldView {
            name: sanitized_name(f.name, keywords),
            ..f
        });
    }
}

/// Setting the defaults settles every field of every message of the file,
/// nested messages included: the messages stay in their places, and each
/// field is what `is_settled_field` makes of the field it was.
pub proof fn lemma_defaults_settle_every_field(d: DescView, config: &Config)
    ensures
        forest(d.with_defaults(config).messages).len() == forest(d.messages).len(),
        forall|k: int|
            0 <= k < forest(d.messages).len() ==> (#[trigger] forest(
                d.with_defaults(config).messages,
            )[k]).all_fields().len() == forest(d.messages)[k].all_fields().len(),
        forall|k: int, j: int|
            0 <= k < forest(d.messages).len() && 0 <= j < forest(d.messages)[k].all_fields().len()
                ==> is_settled_field(
                d.syntax,
                forest(d.messages)[k].all_fields()[j],
                #[trigger] forest(d.with_defaults(config).messages)[k].all_fields()[j],
            ),
        d.with_defaults(config).has_settled_fields(),
        d.with_defaults(config).syntax == d.syntax,
{
    let m0 = d.messages;
    let m1 = rewrite_messages(PassView::MapRequired, m0);
    lemma_rewrite_every_field(PassView::MapRequired, m0);
    let m2 = if d.syntax == Syntax::Proto3 {
        rewrite_messages(PassView::RepeatedAsPacked, m1)
    } else {
        m1
    };
    if d.syntax == Syntax::Proto3 {
        lemma_rewrite_every_field(PassView::RepeatedAsPacked, m1);
    }
    let a = d.with_frequencies();
    assert(a.messages == m2);
    let sanitize = PassView::SanitizeDefault(a, config.add_deprecated_fields);
    let m3 = rewrite_messages(sanitize, m2);
    lemma_rewrite_every_field(sanitize, m2);
    let m4 = rewrite_messages(PassView::UnsetPackedNonPrimitives, m3);
    lemma_rewrite_every_field(PassView::UnsetPackedNonPrimitives, m3);
    assert(d.with_defaults(config).messages == m4);
    let f0 = forest(m0);
    let f1 = forest(m1);
    let f2 = forest(m2);
    let f3 = forest(m3);
    let f4 = forest(m4);
    assert forall|k: int, j: int|
        0 <= k < f0.len() && 0 <= j < f0[k].all_fields().len() implies is_settled_field(
        d.syntax,
        f0[k].all_fields()[j],
        #[trigger] f4[k].all_fields()[j],
    ) by {
        let o = f0[k].owner();
        let x0 = f0[k].all_fields()[j];
        let x1 = f1[k].all_fields()[j];
        let x2 = f2[k].all_fields()[j];
        let x3 = f3[k].all_fields()[j];
        let x4 = f4[k].all_fields()[j];
        assert(f1[k].owner() == o && f2[k].owner() == o && f3[k].owner() == o);
        assert(x1 == rewrite_field(PassView::MapRequired, o, x0));
        if d.syntax == Syntax::Proto3 {
            assert(x2 == rewrite_field(PassView::RepeatedAsPacked, o, x1));
        }
        assert(x3 == rewrite_field(sanitize, o, x2));
        assert(x4 == rewrite_field(PassView::UnsetPackedNonPrimitives, o, x3));
    }
    assert forall|k: int| 0 <= k < f0.len() implies (#[trigger] f4[k]).all_fields().len()
        == f0[k].all_fields().len() by {
        assert(f1[k].owner() == f0[k].owner());
        assert(f2[k].owner() == f0[k].owner());
        assert(f3[k].owner() == f0[k].owner());
    }
    assert(d.with_defaults(config).has_settled_fields()) by {
        assert forall|k: int, j: int|
            0 <= k < f4.len() && 0 <= j < f4[k].all_fields().len() implies {
            let f = #[trigger] f4[k].all_fields()[j];
            &&& !f.typ.is_primitive() ==> f.packed is None
            &&& f.typ is Map_ ==> f.frequency == Frequency::Required
            &&& d.syntax == Syntax::Proto3 && f.typ.is_primitive() && f.frequency
                == Frequency::Repeated ==> f.packed is Some
        } by {
            assert(is_settled_field(d.syntax, f0[k].all_fields()[j], f4[k].all_fields()[j]));
        }
    }
}

impl FileDescriptor {
    /// Sets the defaults of the file, in every message at any depth: maps
    /// become required, under proto3 the repeated fields without a packed
    /// setting become packed, literal defaults get the form that the
    /// generated code writes, and fields that are not primitive lose their
    /// packed setting. A boolean default that is neither `true` nor `false`
    /// is refused, and the file stays as it is.
    pub fn set_defaults(&mut self, config: &Config) -> (r: Result<(), Error>)
        ensures
            r is Ok <==> old(self)@.bad_bool_default() is None,
            r is Ok ==> final(self)@ == old(self)@.with_defaults(config),
            r is Ok ==> final(self)@.has_settled_fields(),
            r is Ok ==> forest(final(self)@.messages).len() == forest(old(self)@.messages).len(),
            r is Ok ==> forall|k: int, j: int|
                0 <= k < forest(old(self)@.messages).len() && 0 <= j < forest(
                    old(self)@.messages,
                )[k].all_fields().len() ==> is_settled_field(
                    old(self)@.syntax,
                    forest(old(self)@.messages)[k].all_fields()[j],
                    #[trigger] forest(final(self)@.messages)[k].all_fields()[j],
                ),
            r is Err ==> final(self)@ == old(self)@,
            r is Err ==> Some(r->Err_0@) == old(self)@.bad_bool_default(),
    {
        match self.check_bool_defaults() {
            Ok(_) => {},
            Err(e) => {
                return Err(e);
            },
        }
        self.set_frequencies();
        let copy = self.duplicate();
        rewrite_all_messages(&mut self.messages, &FieldPass::SanitizeDefault(&copy, config));
        self.unset_packed_non_primitives();
        proof {
            lemma_defaults_settle_every_field(old(self)@, config);
        }
        Ok(())
    }

    /// Runs the pipeline on a file that was read and merged with its
    /// imports: resolves its type names, breaks its cycles, validates it,
    /// sets its defaults and makes its names ones that the generated code
    /// can use, given the keywords of the target language. The result
    /// holds, for each cycle that was repaired by making required fields
    /// optional, the names of its messages. Where a step fails, the file
    /// stays as the steps before it left it.
    pub fn prepare(&mut self, config: &Config, keywords: &Vec<String>) -> (r: Result<
        Vec<Vec<String>>,
        Error,
    >)
        ensures
            r is Ok <==> old(self)@.prepared(config, strings_view(keywords@)) is Ok,
            r is Ok ==> final(self)@ == old(self)@.prepared(
                config,
                strings_view(keywords@),
            )->Ok_0.file,
            r is Ok ==> name_lists_view(r->Ok_0@) == old(self)@.prepared(
                config,
                strings_view(keywords@),
            )->Ok_0.repaired,
            r is Ok ==> final(self)@.has_finite_layout(),
            r is Ok ==> final(self)@.has_settled_fields(),
            r is Err ==> r->Err_0@ == old(self)@.prepared(
                config,
                strings_view(keywords@),
            )->Err_0,
            r is Err ==> final(self)@ == old(self)@.halted(config),
    {
        proof {
            reveal(DescView::prepared);
            reveal(DescView::halted);
        }
        self.owned = config.owned;
        if self.messages.len() == 0 && self.enums.len() == 0 {
            return Err(Error::EmptyRead);
        }
        match self.resolve_types() {
            Ok(_) => {},
            Err(e) => {
                return Err(e);
            },
        }
        let repaired = match self.break_cycles(config.error_cycle) {
            Ok(names) => names,
            Err(e) => {
                return Err(e);
            },
        };
        match self.sanity_checks() {
            Ok(_) => {},
            Err(e) => {
                return Err(e);
            },
        }
        let ghost broken = self@;
        if config.dont_use_cow {
            self.convert_cow_to_owned();
            proof {
                lemma_without_cow_keeps_layout(broken);
            }
        }
        proof {
            lemma_defaults_keep_layout(self@, config);
        }
        match self.set_defaults(config) {
            Ok(_) => {},
            Err(e) => {
                return Err(e);
            },
        }
        proof {
            crate::names::lemma_sanitized_keeps_layout(self@, strings_view(keywords@));
            lemma_names_keep_settled_fields(self@, strings_view(keywords@));
        }
        self.sanitize_names(keywords);
        let ghost done = self@;
        if config.single_module {
            self.package = String::from_str("");
            proof {
                reveal_strlit("");
                assert(""@ =~= Seq::<char>::empty());
            }
        }
        assert(self@.messages == done.messages);
        Ok(repaired)
    }
}

/// What the pipeline makes of the first `upto` files of a batch, each
/// with its own settings, if it succeeds on all of them.
pub open spec fn batch_prepared(
    files: Seq<DescView>,
    configs: Seq<Config>,
    keywords: Seq<Seq<char>>,
    upto: int,
) -> bool {
    forall|i: int| 0 <= i < upto ==> (#[trigger] files[i]).prepared(&configs[i], keywords) is Ok
}

impl FileDescriptor {
    /// Runs the pipeline on every file of a batch, each with its own
    /// settings, in order, and stops at the first that fails: the files
    /// before it are prepared, the failing one is as the steps before the
    /// failure left it, and the others are as they were. The result holds,
    /// file by file, the names of the messages of each cycle that was
    /// repaired.
    pub fn run(files: &mut Vec<FileDescriptor>, configs: &Vec<Config>, keywords: &Vec<String>) -> (r:
        Result<Vec<Vec<Vec<String>>>, Error>)
        requires
            old(files)@.len() == configs@.len(),
        ensures
            final(files)@.len() == old(files)@.len(),
            r is Ok <==> batch_prepared(
                messages_of(old(files)@),
                configs@,
                strings_view(keywords@),
                configs@.len() as int,
            ),
            r is Ok ==> forall|i: int|
                0 <= i < configs@.len() ==> (#[trigger] final(files)@[i])@ == old(
                    files,
                )@[i]@.prepared(&configs@[i], strings_view(keywords@))->Ok_0.file,
            r is Ok ==> r->Ok_0@.len() == configs@.len() && forall|i: int|
                0 <= i < configs@.len() ==> name_lists_view((#[trigger] r->Ok_0@[i])@) == old(
                    files,
                )@[i]@.prepared(&configs@[i], strings_view(keywords@))->Ok_0.repaired,
            r is Err ==> exists|at: int|
                0 <= at < configs@.len() && batch_prepared(
                    messages_of(old(files)@),
                    configs@,
                    strings_view(keywords@),
                    at,
                ) && old(files)@[at]@.prepared(&configs@[at], strings_view(keywords@)) is Err
                    && r->Err_0@ == old(files)@[at]@.prepared(
                    &configs@[at],
                    strings_view(keywords@),
                )->Err_0 && (forall|i: int|
                    0 <= i < at ==> (#[trigger] final(files)@[i])@ == old(files)@[i]@.prepared(
                        &configs@[i],
                        strings_view(keywords@),
                    )->Ok_0.file) && final(files)@[at]@ == old(files)@[at]@.halted(&configs@[at])
                    && (forall|i: int|
                    at < i < configs@.len() ==> (#[trigger] final(files)@[i]) == old(files)@[i]),
    {
        let n = files.len();
        let ghost all = messages_of(old(files)@);
        let ghost kw = strings_view(keywords@);
        let mut repaired: Vec<Vec<Vec<String>>> = Vec::new();
        let mut i: usize = 0;
        while i < n
            invariant
                i <= n,
                n == files@.len(),
                repaired@.len() == i,
                forall|j: int|
                    0 <= j < i ==> name_lists_view((#[trigger] repaired@[j])@) == old(
                        files,
                    )@[j]@.prepared(&configs@[j], kw)->Ok_0.repaired,
                n == configs@.len(),
                n == old(files)@.len(),
                all == messages_of(old(files)@),
                kw == strings_view(keywords@),
                batch_prepared(all, configs@, kw, i as int),
                forall|j: int|
                    0 <= j < i ==> (#[trigger] files@[j])@ == old(files)@[j]@.prepared(
                        &configs@[j],
                        kw,
                    )->Ok_0.file,
                forall|j: int| i <= j < n ==> (#[trigger] files@[j]) == old(files)@[j],
            decreases n - i,
        {
            assert(all[i as int] == old(files)@[i as int]@);
            match files[i].prepare(&configs[i], keywords) {
                Ok(names) => {
                    repaired.push(names);
                },
                Err(e) => {
                    proof {
                        assert(!batch_prepared(all, configs@, kw, n as int));
                    }
                    return Err(e);
                },
            }
            i += 1;
        }
        Ok(repaired)
    }
}

/// The values of a list of files.
pub open spec fn messages_of(files: Seq<FileDescriptor>) -> Seq<DescView> {
    files.map_values(|f: FileDescriptor| f@)
}

impl FileDescriptor {
    /// Reads the text of the schema file `in_file` and places its
    /// declarations: the file stands in the module that its package names,
    /// or `stem` where it has no package, its messages are told where they
    /// were read from, and its messages and enums are placed in its package
    /// and module. What the file imports is not read.
    pub fn read_proto(text: &str, in_file: &str, import: Option<&str>, stem: &str) -> (r: Result<
        FileDescriptor,
        Error,
    >)
        ensures
            r is Ok <==> crate::schema::parser::parse_schema(text@) is Ok,
            r is Ok ==> r->Ok_0@ == crate::schema::parser::parse_schema(text@)->Ok_0.with_source(
                in_file@,
                match import {
                    Some(i) => Some(i@),
                    None => None,
                },
                stem@,
            ).with_packages(),
            r is Err ==> r->Err_0@ == crate::schema::parser::parse_schema(text@)->Err_0,
    {
        let mut desc = match crate::schema::parser::file_descriptor(text) {
            Ok(desc) => desc,
            Err(e) => {
                return Err(e);
            },
        };
        desc.set_source(in_file, import, stem);
        desc.set_packages();
        Ok(desc)
    }
}

} // verus!
