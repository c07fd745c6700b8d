//! The command line.

use crate::text::{chars_of, equal, owned, texts};
use vstd::prelude::*;

verus! {

/// What the command line asked for.
pub struct Arguments {
    /// The files to open, in the order they were named.
    pub paths: Vec<String>,
    pub help: bool,
    pub version: bool,
    /// The options that are not known, in their order.
    pub unknown: Vec<String>,
}

/// What one argument is.
#[derive(Copy, Clone, Debug, PartialEq, Eq, Structural)]
pub enum Argument {
    Help,
    Version,
    Unknown,
    Path,
}

/// What one argument is: a known option, something else that begins with a
/// dash, or a path.
pub open spec fn argument(text: Seq<char>) -> Argument {
    if text == "-h"@ || text == "--help"@ {
        Argument::Help
    } else if text == "-v"@ || text == "--version"@ {
        Argument::Version
    } else if text.len() > 0 && text[0] == '-' {
        Argument::Unknown
    } else {
        Argument::Path
    }
}

/// Those of the arguments that are of this sort, in their order.
pub open spec fn arguments_that_are(all: Seq<Seq<char>>, sort: Argument) -> Seq<Seq<char>>
    decreases all.len(),
{
    if all.len() == 0 {
        Seq::empty()
    } else {
        let before = arguments_that_are(all.drop_last(), sort);
        if argument(all.last()) == sort {
            before.push(all.last())
        } else {
            before
        }
    }
}

/// Whether one of the arguments is of this sort.
pub open spec fn some_argument_is(all: Seq<Seq<char>>, sort: Argument) -> bool {
    arguments_that_are(all, sort).len() > 0
}

/// What one argument is.
fn argument_of(text: &str) -> (r: Argument)
    ensures
        r == argument(text@),
{
    if equal(text, "-h") || equal(text, "--help") {
        Argument::Help
    } else if equal(text, "-v") || equal(text, "--version") {
        Argument::Version
    } else {
        let chars = chars_of(text);
        if chars.len() > 0 && chars[0] == '-' {
            Argument::Unknown
        } else {
            Argument::Path
        }
    }
}

impl Arguments {
    /// Reads the command line.  An option that is not known asks for help.
    pub fn parse(arguments: &Vec<String>) -> (r: Self)
        ensures
            texts(r.paths@) == arguments_that_are(texts(arguments@), Argument::Path),
            texts(r.unknown@) == arguments_that_are(texts(arguments@), Argument::Unknown),
            r.help == (some_argument_is(texts(arguments@), Argument::Help) || some_argument_is(
                texts(arguments@),
                Argument::Unknown,
            )),
            r.version == some_argument_is(texts(arguments@), Argument::Version),
    {
        let mut paths: Vec<String> = Vec::new();
        let mut unknown: Vec<String> = Vec::new();
        let mut help: bool = false;
        let mut version: bool = false;
        let ghost all = texts(arguments@);
        assert(all.take(0) =~= Seq::<Seq<char>>::empty());
        assert(texts(paths@) =~= Seq::<Seq<char>>::empty());
        for i in 0..arguments.len()
            invariant
                all == texts(arguments@),
                texts(paths@) == arguments_that_are(all.take(i as int), Argument::Path),
                texts(unknown@) == arguments_that_are(all.take(i as int), Argument::Unknown),
                help == (some_argument_is(all.take(i as int), Argument::Help) || some_argument_is(
                    all.take(i as int),
                    Argument::Unknown,
                )),
                version == some_argument_is(all.take(i as int), Argument::Version),
        {
            let text = arguments[i].as_str();
            let ghost paths_before = paths@;
            let ghost unknown_before = unknown@;
            assert(all.take(i + 1).drop_last() =~= all.take(i as int));
            assert(all.take(i + 1).last() == text@);
            match argument_of(text) {
                Argument::Help => {
                    help = true;
                },
                Argument::Version => {
                    version = true;
                },
                Argument::Unknown => {
                    let named = owned(text);
                    unknown.push(named);
                    assert(texts(unknown@) =~= texts(unknown_before).push(text@));
                    help = true;
                },
                Argument::Path => {
                    let named = owned(text);
                    paths.push(named);
                    assert(texts(paths@) =~= texts(paths_before).push(text@));
                },
            }
        }
        assert(all.take(arguments.len() as int) =~= all);
        Arguments { paths, help, version, unknown }
    }
}

/// No argument is lost: each is a path, an option that is known, or one that
/// is not.
pub proof fn every_argument_is_accounted_for(all: Seq<Seq<char>>)
    ensures
        all.len() == arguments_that_are(all, Argument::Path).len() + arguments_that_are(
            all,
            Argument::Unknown,
        ).len() + arguments_that_are(all, Argument::Help).len() + arguments_that_are(
            all,
            Argument::Version,
        ).len(),
    decreases all.len(),
{
    if all.len() > 0 {
        every_argument_is_accounted_for(all.drop_last());
    }
}

/// The paths are the arguments that do not begin with a dash, in their order;
/// help is asked for by name or by anything that is not known.
pub proof fn what_begins_with_a_dash_is_no_path(all: Seq<Seq<char>>)
    ensures
        arguments_that_are(all, Argument::Path) == all.filter(
            |text: Seq<char>| text.len() == 0 || text[0] != '-',
        ),
    decreases all.len(),
{
    reveal(Seq::filter);
    reveal_strlit("-h");
    reveal_strlit("--help");
    reveal_strlit("-v");
    reveal_strlit("--version");
    if all.len() > 0 {
        what_begins_with_a_dash_is_no_path(all.drop_last());
    }
}

/// The options that are not known are those that begin with a dash and are
/// none of the four that are, in their order.
pub proof fn what_is_not_known_is_named(all: Seq<Seq<char>>)
    ensures
        arguments_that_are(all, Argument::Unknown) == all.filter(
            |text: Seq<char>|
                text.len() > 0 && text[0] == '-' && text != "-h"@ && text != "--help"@ && text
                    != "-v"@ && text != "--version"@,
        ),
    decreases all.len(),
{
    reveal(Seq::filter);
    if all.len() > 0 {
        what_is_not_known_is_named(all.drop_last());
    }
}

/// Help and the version are asked for by either of their names, anywhere on
/// the line.
pub proof fn an_option_counts_anywhere(all: Seq<Seq<char>>)
    ensures
        some_argument_is(all, Argument::Help) <==> all.contains("-h"@) || all.contains("--help"@),
        some_argument_is(all, Argument::Version) <==> all.contains("-v"@) || all.contains(
            "--version"@,
        ),
    decreases all.len(),
{
    reveal_strlit("-h");
    reveal_strlit("--help");
    reveal_strlit("-v");
    reveal_strlit("--version");
    assert("-h"@[1] != "-v"@[1]);
    assert("--help"@.len() != "--version"@.len());
    assert("-h"@.len() != "--version"@.len());
    assert("--help"@.len() != "-v"@.len());
    if all.len() > 0 {
        let front = all.drop_last();
        an_option_counts_anywhere(front);
        assert forall|text: Seq<char>| #[trigger] all.contains(text) == (front.contains(text)
            || all.last() == text) by {
            if all.contains(text) {
                let i = choose|i: int| 0 <= i < all.len() && all[i] == text;
                if i < front.len() {
                    assert(front[i] == text);
                }
            }
            if front.contains(text) {
                let i = choose|i: int| 0 <= i < front.len() && front[i] == text;
                assert(all[i] == text);
            }
            if all.last() == text {
                assert(all[all.len() - 1] == text);
            }
        }
    }
}

} // verus!
