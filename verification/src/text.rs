//! Dotted names: joining and splitting the segments of a qualified name.

use vstd::prelude::*;
use vstd::string::*;

verus! {

/// `a.b`: two names joined by a dot.
pub open spec fn dotted(a: Seq<char>, b: Seq<char>) -> Seq<char> {
    a + seq!['.'] + b
}

/// The fully-qualified name of `name` declared in `package`: the bare name
/// where the package is empty.
pub open spec fn full_name(package: Seq<char>, name: Seq<char>) -> Seq<char> {
    if package.len() == 0 {
        name
    } else {
        dotted(package, name)
    }
}

/// Joins two names by a dot.
pub fn join_dotted(a: &str, b: &str) -> (r: String)
    ensures
        r@ == dotted(a@, b@),
{
    let mut s = String::from_str(a);
    proof {
        reveal_strlit(".");
        assert("."@ =~= seq!['.']);
    }
    s.append(".");
    s.append(b);
    s
}

/// The fully-qualified name of `name` declared in `package`.
pub fn qualify(package: &str, name: &str) -> (r: String)
    ensures
        r@ == full_name(package@, name@),
{
    if package.unicode_len() == 0 {
        String::from_str(name)
    } else {
        join_dotted(package, name)
    }
}

/// `a::b`: a name in the scope of another.
pub open spec fn scoped(a: Seq<char>, b: Seq<char>) -> Seq<char> {
    a + "::"@ + b
}

/// A dotted name with every dot replaced by two colons.
pub open spec fn colons(s: Seq<char>) -> Seq<char>
    decreases s.len(),
{
    if s.len() == 0 {
        Seq::empty()
    } else {
        colons(s.drop_last()) + if s.last() == '.' {
            "::"@
        } else {
            seq![s.last()]
        }
    }
}

/// Joins two names by two colons.
pub fn join_scoped(a: &str, b: &str) -> (r: String)
    ensures
        r@ == scoped(a@, b@),
{
    let mut s = String::from_str(a);
    s.append("::");
    s.append(b);
    s
}

/// Three pieces of text, one after the other.
pub fn concat3(a: &str, b: &str, c: &str) -> (r: String)
    ensures
        r@ == a@ + b@ + c@,
{
    let mut s = String::from_str(a);
    s.append(b);
    s.append(c);
    s
}

/// Replaces every dot of a dotted name by two colons.
pub fn replace_dots(s: &str) -> (r: String)
    ensures
        r@ == colons(s@),
{
    let n = s.unicode_len();
    let mut out = String::from_str("");
    proof {
        reveal_strlit("");
        assert(""@ =~= Seq::<char>::empty());
    }
    let mut start: usize = 0;
    let mut i: usize = 0;
    assert(s@.take(0) =~= Seq::<char>::empty());
    assert(out@ + s@.subrange(0, 0) =~= colons(s@.take(0)));
    while i < n
        invariant
            start <= i <= n,
            n == s@.len(),
            out@ + s@.subrange(start as int, i as int) == colons(s@.take(i as int)),
        decreases n - i,
    {
        proof {
            assert(s@.take(i as int + 1).drop_last() =~= s@.take(i as int));
            assert(s@.take(i as int + 1).last() == s@[i as int]);
        }
        if s.get_char(i) == '.' {
            let ghost before = out@;
            let ghost from = start;
            out.append(s.substring_char(start, i));
            out.append("::");
            start = i + 1;
            proof {
                assert(s@.subrange(start as int, i as int + 1) =~= Seq::<char>::empty());
                assert(out@ == before + s@.subrange(from as int, i as int) + "::"@);
                assert(out@ + s@.subrange(start as int, i as int + 1) =~= colons(
                    s@.take(i as int),
                ) + "::"@);
            }
        } else {
            assert(s@.subrange(start as int, i as int + 1) =~= s@.subrange(
                start as int,
                i as int,
            ).push(s@[i as int]));
            assert(out@ + s@.subrange(start as int, i as int + 1) =~= out@ + s@.subrange(
                start as int,
                i as int,
            ) + seq![s@[i as int]]);
        }
        i += 1;
    }
    out.append(s.substring_char(start, n));
    assert(s@.take(n as int) =~= s@);
    out
}

/// The position of the last dot of a name, if it has one.
pub open spec fn last_dot(s: Seq<char>) -> Option<int>
    decreases s.len(),
{
    if s.len() == 0 {
        None
    } else if s.last() == '.' {
        Some(s.len() - 1)
    } else {
        last_dot(s.drop_last())
    }
}

/// What stands before the last dot of a package name: nothing where it has
/// no dot.
pub open spec fn package_prefix(package: Seq<char>) -> Seq<char> {
    match last_dot(package) {
        Some(i) => package.take(i),
        None => Seq::empty(),
    }
}

/// What stands after the last dot of a package name: all of it where it
/// has no dot.
pub open spec fn package_leaf(package: Seq<char>) -> Seq<char> {
    match last_dot(package) {
        Some(i) => package.skip(i + 1),
        None => package,
    }
}

/// The last dot is a dot of the name.
pub proof fn lemma_last_dot(s: Seq<char>)
    ensures
        last_dot(s) is Some ==> 0 <= last_dot(s)->0 < s.len() && s[last_dot(s)->0] == '.',
    decreases s.len(),
{
    if s.len() > 0 && s.last() != '.' {
        lemma_last_dot(s.drop_last());
    }
}

/// Splits a package name at its last dot: `a.b.c` into `a.b` and `c`, `a`
/// into nothing and `a`.
pub fn split_package(package: &str) -> (r: (String, String))
    ensures
        r.0@ == package_prefix(package@),
        r.1@ == package_leaf(package@),
{
    let n = package.unicode_len();
    let mut i: usize = n;
    proof {
        assert(package@.take(n as int) =~= package@);
        reveal_strlit("");
        assert(""@ =~= Seq::<char>::empty());
    }
    while i > 0
        invariant
            i <= n,
            n == package@.len(),
            last_dot(package@.take(i as int)) == last_dot(package@),
        decreases i,
    {
        proof {
            assert(package@.take(i as int).drop_last() =~= package@.take(i as int - 1));
            assert(package@.take(i as int).last() == package@[i as int - 1]);
        }
        if package.get_char(i - 1) == '.' {
            let prefix = String::from_str(package.substring_char(0, i - 1));
            let leaf = String::from_str(package.substring_char(i, n));
            proof {
                assert(package@.subrange(0, i as int - 1) =~= package@.take(i as int - 1));
                assert(package@.subrange(i as int, n as int) =~= package@.skip(i as int));
            }
            return (prefix, leaf);
        }
        i -= 1;
    }
    (String::from_str(""), String::from_str(package))
}

/// The characters of a string, one by one.
pub fn chars_of(s: &str) -> (r: Vec<char>)
    ensures
        r@ == s@,
{
    broadcast use vstd::string::group_string_axioms;

    let mut out: Vec<char> = Vec::new();
    for c in it: s.chars()
        invariant
            it.seq() == s@,
            out@ == it.seq().take(it.index()),
    {
        out.push(c);
        assert(it.seq().take(it.index() + 1) =~= it.seq().take(it.index()).push(c));
    }
    assert(s@.take(s@.len() as int) =~= s@);
    out
}

} // verus!
