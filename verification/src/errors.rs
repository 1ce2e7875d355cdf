//! Errors of schema resolution and planning.

use vstd::prelude::*;
use vstd::string::*;
use crate::emit::number::{quoted, quoted_text};

verus! {

/// What can go wrong while a schema is resolved and planned.
#[derive(Debug, Clone)]
pub enum Error {
    /// No schema file was given.
    NoProto,
    /// The input file cannot be read.
    InputFile(String),
    /// The output file cannot be used.
    OutputFile(String),
    /// The output directory cannot be used.
    OutputDirectory(String),
    /// A single output file was asked for several input files.
    OutputMultipleInputs,
    /// A field collides with what its message reserves.
    InvalidMessage(String),
    /// An imported file is not on the search path.
    InvalidImport(String),
    /// Neither a message nor an enum was read.
    EmptyRead,
    /// A type name refers to no declared message or enum.
    MessageOrEnumNotFound(String),
    /// The default of an enum field names no variant of its enum.
    InvalidDefaultEnum(String),
    /// A map was handed to the procedure that reads a single value.
    ReadFnMap,
    /// These messages refer to each other through required fields only.
    Cycle(Vec<String>),
    /// Both an output file and an output directory were given.
    OutputAndOutputDir,
    /// Text is left after the last declaration.
    TrailingGarbage(String),
}

/// Mathematical value of an [`Error`].
pub enum ErrorView {
    NoProto,
    InputFile(Seq<char>),
    OutputFile(Seq<char>),
    OutputDirectory(Seq<char>),
    OutputMultipleInputs,
    InvalidMessage(Seq<char>),
    InvalidImport(Seq<char>),
    EmptyRead,
    MessageOrEnumNotFound(Seq<char>),
    InvalidDefaultEnum(Seq<char>),
    ReadFnMap,
    Cycle(Seq<Seq<char>>),
    OutputAndOutputDir,
    TrailingGarbage(Seq<char>),
}

impl View for Error {
    type V = ErrorView;

    open spec fn view(&self) -> ErrorView {
        match self {
            Error::NoProto => ErrorView::NoProto,
            Error::InputFile(s) => ErrorView::InputFile(s@),
            Error::OutputFile(s) => ErrorView::OutputFile(s@),
            Error::OutputDirectory(s) => ErrorView::OutputDirectory(s@),
            Error::OutputMultipleInputs => ErrorView::OutputMultipleInputs,
            Error::InvalidMessage(s) => ErrorView::InvalidMessage(s@),
            Error::InvalidImport(s) => ErrorView::InvalidImport(s@),
            Error::EmptyRead => ErrorView::EmptyRead,
            Error::MessageOrEnumNotFound(s) => ErrorView::MessageOrEnumNotFound(s@),
            Error::InvalidDefaultEnum(s) => ErrorView::InvalidDefaultEnum(s@),
            Error::ReadFnMap => ErrorView::ReadFnMap,
            Error::Cycle(names) => ErrorView::Cycle(names@.map_values(|s: String| s@)),
            Error::OutputAndOutputDir => ErrorView::OutputAndOutputDir,
            Error::TrailingGarbage(s) => ErrorView::TrailingGarbage(s@),
        }
    }
}

/// The names of a list as string literals, separated by commas.
pub open spec fn quoted_list(names: Seq<Seq<char>>) -> Seq<char>
    decreases names.len(),
{
    if names.len() == 0 {
        Seq::empty()
    } else if names.len() == 1 {
        quoted_text(names[0])
    } else {
        quoted_list(names.drop_last()) + ", "@ + quoted_text(names.last())
    }
}

impl ErrorView {
    /// The message of the error.
    pub open spec fn message(self) -> Seq<char> {
        match self {
            ErrorView::NoProto => "No .proto file provided"@,
            ErrorView::InputFile(s) => "Cannot read input file '"@ + s + "'"@,
            ErrorView::OutputFile(s) => "Cannot read output file '"@ + s + "'"@,
            ErrorView::OutputDirectory(s) => "Cannot read output directory '"@ + s + "'"@,
            ErrorView::OutputMultipleInputs => "--output only allowed for single input file"@,
            ErrorView::InvalidMessage(s) => "Message checks errored: "@ + s
                + "\r\nProto definition might be invalid or something got wrong in the parsing"@,
            ErrorView::InvalidImport(s) => "Cannot convert protobuf import into module import:: "@
                + s
                + "\r\nImport definition might be invalid, some characters may not be supported"@,
            ErrorView::EmptyRead =>
                "No message or enum were read;either definition might be invalid or there were only unsupported structures"@,
            ErrorView::MessageOrEnumNotFound(s) => "Could not find message or enum "@ + s,
            ErrorView::InvalidDefaultEnum(s) => "Enum field cannot be set to '"@ + s
                + "', this variant does not exist"@,
            ErrorView::ReadFnMap => "There should be a special case for maps"@,
            ErrorView::Cycle(names) => "Messages ["@ + quoted_list(names)
                + "] are cyclic (missing an optional field)"@,
            ErrorView::OutputAndOutputDir => "only one of --output or --output_directory allowed"@,
            ErrorView::TrailingGarbage(s) => "Unexpected text after the last declaration: "@ + s,
        }
    }
}

impl Error {
    /// The message of the error.
    pub fn message(&self) -> (r: String)
        ensures
            r@ == self@.message(),
    {
        match self {
            Error::NoProto => String::from_str("No .proto file provided"),
            Error::InputFile(s) => crate::text::concat3("Cannot read input file '", s.as_str(), "'"),
            Error::OutputFile(s) => crate::text::concat3(
                "Cannot read output file '",
                s.as_str(),
                "'",
            ),
            Error::OutputDirectory(s) => crate::text::concat3(
                "Cannot read output directory '",
                s.as_str(),
                "'",
            ),
            Error::OutputMultipleInputs => String::from_str(
                "--output only allowed for single input file",
            ),
            Error::InvalidMessage(s) => crate::text::concat3(
                "Message checks errored: ",
                s.as_str(),
                "\r\nProto definition might be invalid or something got wrong in the parsing",
            ),
            Error::InvalidImport(s) => crate::text::concat3(
                "Cannot convert protobuf import into module import:: ",
                s.as_str(),
                "\r\nImport definition might be invalid, some characters may not be supported",
            ),
            Error::EmptyRead => String::from_str(
                "No message or enum were read;either definition might be invalid or there were only unsupported structures",
            ),
            Error::MessageOrEnumNotFound(s) => {
                let mut out = String::from_str("Could not find message or enum ");
                out.append(s.as_str());
                out
            },
            Error::InvalidDefaultEnum(s) => crate::text::concat3(
                "Enum field cannot be set to '",
                s.as_str(),
                "', this variant does not exist",
            ),
            Error::ReadFnMap => String::from_str("There should be a special case for maps"),
            Error::Cycle(names) => {
                let ghost all = names@.map_values(|s: String| s@);
                let mut list = String::from_str("");
                proof {
                    reveal_strlit("");
                    assert(""@ =~= Seq::<char>::empty());
                    assert(all.take(0) =~= Seq::<Seq<char>>::empty());
                }
                let n = names.len();
                let mut i: usize = 0;
                while i < n
                    invariant
                        i <= n,
                        n == names@.len(),
                        all == names@.map_values(|s: String| s@),
                        list@ == quoted_list(all.take(i as int)),
                    decreases n - i,
                {
                    proof {
                        assert(all.take(i as int + 1).drop_last() =~= all.take(i as int));
                        assert(all.take(i as int + 1).last() == names@[i as int]@);
                    }
                    if i > 0 {
                        list.append(", ");
                        list.append(quoted(names[i].as_str()).as_str());
                    } else {
                        list = quoted(names[i].as_str());
                    }
                    i += 1;
                }
                assert(all.take(n as int) =~= all);
                crate::text::concat3(
                    "Messages [",
                    list.as_str(),
                    "] are cyclic (missing an optional field)",
                )
            },
            Error::OutputAndOutputDir => String::from_str(
                "only one of --output or --output_directory allowed",
            ),
            Error::TrailingGarbage(s) => {
                let mut out = String::from_str("Unexpected text after the last declaration: ");
                out.append(s.as_str());
                out
            },
        }
    }
}

} // verus!
