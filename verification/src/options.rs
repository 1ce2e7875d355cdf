//! What the command line and the file system ask of the library: the
//! extensions of files, the output that was chosen, the traits to derive,
//! the modules that files stand for, and imports that are not found.

use vstd::prelude::*;
use vstd::string::*;
use crate::errors::{Error, ErrorView};
use crate::names::{sanitize_keyword, sanitized_name};
use crate::symbols::strings_view;

verus! {

/// The message that tells that a path has not the extension that was
/// expected: with the extension it has, if it has one.
pub open spec fn extension_complaint(extension: Option<Seq<char>>, expected: Seq<char>) -> Seq<char> {
    match extension {
        Some(found) => "Expected path with extension '"@ + expected + "', not: '"@ + found + "'"@,
        None => "Expected path with extension '"@ + expected + "'"@,
    }
}

/// Checks the extension of a path, given as the path library found it,
/// against the one that is expected.
pub fn extension_matches(extension: Option<&str>, expected: &str) -> (r: Result<(), String>)
    ensures
        r is Ok <==> extension is Some && extension->0@ == expected@,
        r is Err ==> r->Err_0@ == extension_complaint(
            match extension {
                Some(x) => Some(x@),
                None => None,
            },
            expected@,
        ),
{
    match extension {
        Some(found) => {
            let have = String::from_str(found);
            let want = String::from_str(expected);
            if have == want {
                Ok(())
            } else {
                let mut text = String::from_str("Expected path with extension '");
                text.append(expected);
                text.append("', not: '");
                text.append(found);
                text.append("'");
                Err(text)
            }
        },
        None => {
            let mut text = String::from_str("Expected path with extension '");
            text.append(expected);
            text.append("'");
            Err(text)
        },
    }
}

/// Whether a character is a letter or a digit, by the rules of Unicode.
pub uninterp spec fn is_alphanumeric_char(c: char) -> bool;

/// Whether a character is a letter or a digit, as `char::is_alphanumeric`
/// of the standard library tells; nothing more is claimed of the answer
/// than that it depends on the character alone.
#[verifier::external_body]
fn is_alphanumeric(c: char) -> (r: bool)
    ensures
        r == is_alphanumeric_char(c),
{
    c.is_alphanumeric()
}

/// The stem of a file name as the name of a module: every character that is
/// neither a letter nor a digit replaced by an underscore.
pub open spec fn stem_module(stem: Seq<char>) -> Seq<char>
    decreases stem.len(),
{
    if stem.len() == 0 {
        Seq::empty()
    } else {
        stem_module(stem.drop_last()) + if is_alphanumeric_char(stem.last()) {
            seq![stem.last()]
        } else {
            "_"@
        }
    }
}

/// The stem of a file name as the name of a module.
pub fn get_file_stem(stem: &str) -> (r: String)
    ensures
        r@ == stem_module(stem@),
{
    let n = stem.unicode_len();
    let mut out = String::from_str("");
    proof {
        reveal_strlit("");
        assert(""@ =~= Seq::<char>::empty());
    }
    let mut start: usize = 0;
    let mut i: usize = 0;
    assert(stem@.take(0) =~= Seq::<char>::empty());
    assert(out@ + stem@.subrange(0, 0) =~= stem_module(stem@.take(0)));
    while i < n
        invariant
            start <= i <= n,
            n == stem@.len(),
            out@ + stem@.subrange(start as int, i as int) == stem_module(stem@.take(i as int)),
        decreases n - i,
    {
        proof {
            assert(stem@.take(i as int + 1).drop_last() =~= stem@.take(i as int));
            assert(stem@.take(i as int + 1).last() == stem@[i as int]);
        }
        if !is_alphanumeric(stem.get_char(i)) {
            let ghost before = out@;
            let ghost from = start;
            out.append(stem.substring_char(start, i));
            out.append("_");
            start = i + 1;
            proof {
                assert(stem@.subrange(start as int, i as int + 1) =~= Seq::<char>::empty());
                assert(out@ == before + stem@.subrange(from as int, i as int) + "_"@);
                assert(out@ + stem@.subrange(start as int, i as int + 1) =~= stem_module(
                    stem@.take(i as int),
                ) + "_"@);
            }
        } else {
            assert(stem@.subrange(start as int, i as int + 1) =~= stem@.subrange(
                start as int,
                i as int,
            ).push(stem@[i as int]));
            assert(out@ + stem@.subrange(start as int, i as int + 1) =~= out@ + stem@.subrange(
                start as int,
                i as int,
            ) + seq![stem@[i as int]]);
        }
        i += 1;
    }
    out.append(stem.substring_char(start, n));
    assert(stem@.take(n as int) =~= stem@);
    out
}

/// The traits of one `name=traits` or `traits` argument as they stand in a
/// derive attribute: each comma followed by a space, and a comma and a
/// space at the end.
pub open spec fn spaced_list(list: Seq<char>) -> Seq<char>
    decreases list.len(),
{
    if list.len() == 0 {
        ", "@
    } else {
        let rest = spaced_list(list.drop_first());
        if list[0] == ',' {
            ", "@ + rest
        } else {
            seq![list[0]] + rest
        }
    }
}

/// The position of the first equals sign from `from` on.
pub open spec fn first_equals(arg: Seq<char>, from: int) -> Option<int>
    decreases arg.len() - from,
{
    if from < 0 || from >= arg.len() {
        None
    } else if arg[from] == '=' {
        Some(from)
    } else {
        first_equals(arg, from + 1)
    }
}

/// The declaration that a derive argument names, if it names one.
pub open spec fn derive_target(arg: Seq<char>) -> Option<Seq<char>> {
    match first_equals(arg, 0) {
        Some(at) => Some(arg.take(at)),
        None => None,
    }
}

/// The traits of a derive argument, as they stand in a derive attribute.
pub open spec fn derive_list(arg: Seq<char>) -> Seq<char> {
    match first_equals(arg, 0) {
        Some(at) => spaced_list(arg.skip(at + 1)),
        None => spaced_list(arg),
    }
}

/// The traits of a list, each comma followed by a space, and a comma and a
/// space at the end.
fn space_list(list: &str, from: usize) -> (r: String)
    requires
        from <= list@.len(),
    ensures
        r@ == spaced_list(list@.skip(from as int)),
    decreases list@.len() - from,
{
    let n = list.unicode_len();
    if from >= n {
        assert(list@.skip(from as int) =~= Seq::<char>::empty());
        return String::from_str(", ");
    }
    let rest = space_list(list, from + 1);
    proof {
        assert(list@.skip(from as int).drop_first() =~= list@.skip(from as int + 1));
        assert(list@.skip(from as int)[0] == list@[from as int]);
        assert(list@.subrange(from as int, from as int + 1) =~= seq![list@[from as int]]);
    }
    let mut out = if list.get_char(from) == ',' {
        String::from_str(", ")
    } else {
        String::from_str(list.substring_char(from, from + 1))
    };
    out.append(rest.as_str());
    out
}

/// Reads one derive argument: the declaration it is for, if it names one
/// before an equals sign, and the traits as they stand in a derive
/// attribute.
pub fn parse_derive(arg: &str) -> (r: (Option<String>, String))
    ensures
        r.0 is Some <==> derive_target(arg@) is Some,
        r.0 is Some ==> r.0->0@ == derive_target(arg@)->0,
        r.1@ == derive_list(arg@),
{
    let n = arg.unicode_len();
    let mut at: usize = 0;
    while at < n
        invariant
            at <= n,
            n == arg@.len(),
            first_equals(arg@, at as int) == first_equals(arg@, 0),
        decreases n - at,
    {
        if arg.get_char(at) == '=' {
            proof {
                assert(arg@.subrange(0, at as int) =~= arg@.take(at as int));
            }
            let name = String::from_str(arg.substring_char(0, at));
            return (Some(name), space_list(arg, at + 1));
        }
        at += 1;
    }
    proof {
        assert(arg@.skip(0) =~= arg@);
    }
    (None, space_list(arg, 0))
}

/// Where the generated code goes, as the command line asks: nowhere in
/// particular, a file, or a directory.
pub open spec fn chosen_output(
    inputs: nat,
    missing_input: Option<Seq<char>>,
    output: Option<Seq<char>>,
    output_dir: Option<Seq<char>>,
    output_dir_exists: bool,
) -> Result<Option<Seq<char>>, ErrorView> {
    if inputs == 0 {
        Err(ErrorView::NoProto)
    } else if missing_input is Some {
        Err(ErrorView::InputFile(missing_input->0))
    } else if output is Some && output_dir is Some {
        Err(ErrorView::OutputAndOutputDir)
    } else if output is Some {
        if inputs > 1 {
            Err(ErrorView::OutputMultipleInputs)
        } else {
            Ok(output)
        }
    } else if output_dir is Some {
        if output_dir_exists {
            Ok(output_dir)
        } else {
            Err(ErrorView::OutputDirectory(output_dir->0))
        }
    } else {
        Ok(None)
    }
}

/// Decides where the generated code goes. `inputs` is the number of
/// schema files, `missing_input` the first of them that does not exist,
/// `output` and `output_dir` what the command line names as output file
/// and as output directory, and `output_dir_exists` whether the latter is
/// a directory. An output file is only for a single schema file, and only
/// one of the two outputs can be named.
pub fn choose_output(
    inputs: usize,
    missing_input: Option<String>,
    output: Option<String>,
    output_dir: Option<String>,
    output_dir_exists: bool,
) -> (r: Result<Option<String>, Error>)
    ensures
        r is Ok <==> chosen_output(
            inputs as nat,
            option_view(missing_input),
            option_view(output),
            option_view(output_dir),
            output_dir_exists,
        ) is Ok,
        r is Ok ==> option_view(r->Ok_0) == chosen_output(
            inputs as nat,
            option_view(missing_input),
            option_view(output),
            option_view(output_dir),
            output_dir_exists,
        )->Ok_0,
        r is Err ==> r->Err_0@ == chosen_output(
            inputs as nat,
            option_view(missing_input),
            option_view(output),
            option_view(output_dir),
            output_dir_exists,
        )->Err_0,
{
    if inputs == 0 {
        return Err(Error::NoProto);
    }
    match missing_input {
        Some(file) => {
            return Err(Error::InputFile(file));
        },
        None => {},
    }
    match (output, output_dir) {
        (Some(_), Some(_)) => Err(Error::OutputAndOutputDir),
        (Some(file), None) => {
            if inputs > 1 {
                Err(Error::OutputMultipleInputs)
            } else {
                Ok(Some(file))
            }
        },
        (None, Some(dir)) => {
            if output_dir_exists {
                Ok(Some(dir))
            } else {
                Err(Error::OutputDirectory(dir))
            }
        },
        (None, None) => Ok(None),
    }
}

/// The text of a string that may be there.
pub open spec fn option_view(s: Option<String>) -> Option<Seq<char>> {
    match s {
        Some(t) => Some(t@),
        None => None,
    }
}

/// The name of the module that a file stands for: the stem of its name
/// with every character that is neither a letter nor a digit replaced by
/// an underscore, and made a name that the generated code can use. A path
/// without a stem names no module.
pub fn file_module(stem: Option<&str>, shown: &str, keywords: &Vec<String>) -> (r: Result<
    String,
    Error,
>)
    ensures
        r is Ok <==> stem is Some,
        r is Ok ==> r->Ok_0@ == crate::names::sanitized_name(
            stem_module(stem->0@),
            strings_view(keywords@),
        ),
        r is Err ==> r->Err_0@ == ErrorView::OutputFile(shown@),
{
    match stem {
        Some(text) => {
            let mut name = get_file_stem(text);
            crate::names::sanitize_keyword(&mut name, keywords);
            Ok(name)
        },
        None => Err(Error::OutputFile(String::from_str(shown))),
    }
}

/// The file that an import was found in on the search path, or the error
/// that tells that it was found nowhere.
pub fn found_import(found: Option<String>, import: &str) -> (r: Result<String, Error>)
    ensures
        r is Ok <==> found is Some,
        r is Ok ==> r->Ok_0@ == found->0@,
        r is Err ==> r->Err_0@ == ErrorView::InvalidImport(
            "file "@ + import@ + " not found on import path"@,
        ),
{
    match found {
        Some(file) => Ok(file),
        None => Err(
            Error::InvalidImport(crate::text::concat3("file ", import, " not found on import path")),
        ),
    }
}

/// The stem of the file that the code for a schema goes to: the last part
/// of the schema's package, made a name that the code can use; for a
/// schema without package the stem that the output path has already.
pub fn output_stem(file_package: &str, file_stem: &str, keywords: &Vec<String>) -> (r: String)
    ensures
        r@ == if file_package@.len() == 0 {
            file_stem@
        } else {
            sanitized_name(file_package@, strings_view(keywords@))
        },
{
    if file_package.unicode_len() == 0 {
        String::from_str(file_stem)
    } else {
        let mut stem = String::from_str(file_package);
        sanitize_keyword(&mut stem, keywords);
        stem
    }
}

} // verus!
