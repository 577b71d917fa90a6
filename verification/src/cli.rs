//! What the command line has to look like.
//!
//! After the program's name stands the path of the database, and before or
//! behind it at most one switch that selects a window: `--hamming`,
//! `--blackman` or `--blackman-harris`. Every word that is none of these three
//! switches counts as a path.

use crate::config::switches_on;
use vstd::prelude::*;

verus! {

/// Why a command line is refused.
#[derive(Clone, Copy, Debug, PartialEq, Eq, Structural)]
pub enum ArgsError {
    /// The words after the program's name hold no path, or more than one.
    Usage {
        /// How many words the command line had, the program's name included.
        given: usize,
    },
    /// Beside the path stand two or more window switches.
    ConflictingWindows,
}

/// `word` is one of the three switches that select a window.
pub open spec fn is_window_flag(word: Seq<char>) -> bool {
    word == "--hamming"@ || word == "--blackman"@ || word == "--blackman-harris"@
}

/// The word at `p` is the path, and every other word after the program's name
/// is a window switch.
pub open spec fn is_path_at(args: Seq<String>, p: int) -> bool {
    &&& 1 <= p < args.len()
    &&& !is_window_flag(args[p]@)
    &&& forall|q: int| 1 <= q < args.len() && q != p ==> is_window_flag(#[trigger] args[q]@)
}

/// Exactly one word after the program's name is a path.
pub open spec fn has_one_path(args: Seq<String>) -> bool {
    exists|p: int| is_path_at(args, p)
}

/// The command line is the program's name, one path and at most one window
/// switch.
pub open spec fn is_accepted(args: Seq<String>) -> bool {
    has_one_path(args) && args.len() <= 3
}

/// The command line is the program's name, one path and two or more window
/// switches.
pub open spec fn is_conflict(args: Seq<String>) -> bool {
    has_one_path(args) && args.len() > 3
}

/// The switch `flag` stands somewhere after the program's name.
pub open spec fn has_switch(args: Seq<String>, flag: Seq<char>) -> bool {
    exists|q: int| 1 <= q < args.len() && (#[trigger] args[q]@) == flag
}

/// Tells whether a word is one of the three window switches.
pub fn window_flag(word: &String) -> (b: bool)
    ensures
        b == is_window_flag(word@),
{
    let hamming: String = "--hamming".to_owned();
    let blackman: String = "--blackman".to_owned();
    let blackman_harris: String = "--blackman-harris".to_owned();
    *word == hamming || *word == blackman || *word == blackman_harris
}

/// Finds the path of the database among the words of the command line.
///
/// It is found where exactly one word after the program's name is no window
/// switch; the result is the place of that word.
pub fn database_position(args: &Vec<String>) -> (r: Option<usize>)
    ensures
        has_one_path(args@) ==> r is Some && is_path_at(args@, r->Some_0 as int),
        !has_one_path(args@) ==> r is None,
{
    let mut found: Option<usize> = None;
    let mut i: usize = 1;
    while i < args.len()
        invariant
            1 <= i,
            found is Some ==> 1 <= found->Some_0 < i && i <= args.len() && !is_window_flag(
                args@[found->Some_0 as int]@,
            ),
            forall|q: int|
                1 <= q < i && q < args.len() && !(found is Some && q == found->Some_0)
                    ==> is_window_flag(#[trigger] args@[q]@),
        decreases args.len() - i,
    {
        if !window_flag(&args[i]) {
            match found {
                Some(first) => {
                    assert forall|p: int| !is_path_at(args@, p) by {
                        if p != first {
                            assert(!is_window_flag(args@[first as int]@));
                        } else {
                            assert(!is_window_flag(args@[i as int]@));
                        }
                    }
                    return None;
                },
                None => {
                    found = Some(i);
                },
            }
        }
        i = i + 1;
    }
    match found {
        Some(p) => {
            assert(is_path_at(args@, p as int));
        },
        None => {
            assert forall|p: int| !is_path_at(args@, p) by {
                if 1 <= p < args@.len() {
                    assert(is_window_flag(args@[p]@));
                }
            }
        },
    }
    found
}

/// Accepts the command line and hands it back as it is, or says why not.
///
/// Accepted are the program's name with the path of the database, alone or
/// with one window switch, in either order. A path with two or more switches
/// is a conflict. Everything else, no path or more than one, is a usage error.
pub fn get_args(args: Vec<String>) -> (r: Result<Vec<String>, ArgsError>)
    ensures
        is_accepted(args@) ==> r == Ok::<Vec<String>, ArgsError>(args),
        is_conflict(args@) ==> r == Err::<Vec<String>, ArgsError>(ArgsError::ConflictingWindows),
        !has_one_path(args@) ==> r == Err::<Vec<String>, ArgsError>(
            ArgsError::Usage { given: args@.len() as usize },
        ),
{
    match database_position(&args) {
        Some(_) => {
            if args.len() <= 3 {
                Ok(args)
            } else {
                Err(ArgsError::ConflictingWindows)
            }
        },
        None => Err(ArgsError::Usage { given: args.len() }),
    }
}

/// Reads the three window switches off the command line: for each of
/// `--hamming`, `--blackman` and `--blackman-harris` whether it stands
/// somewhere after the program's name.
pub fn window_switches(args: &Vec<String>) -> (s: (bool, bool, bool))
    ensures
        s.0 == has_switch(args@, "--hamming"@),
        s.1 == has_switch(args@, "--blackman"@),
        s.2 == has_switch(args@, "--blackman-harris"@),
{
    let hamming: String = "--hamming".to_owned();
    let blackman: String = "--blackman".to_owned();
    let blackman_harris: String = "--blackman-harris".to_owned();
    let mut s: (bool, bool, bool) = (false, false, false);
    let mut i: usize = 1;
    while i < args.len()
        invariant
            1 <= i,
            hamming@ == "--hamming"@,
            blackman@ == "--blackman"@,
            blackman_harris@ == "--blackman-harris"@,
            s.0 == (exists|q: int| 1 <= q < i && q < args.len() && (#[trigger] args@[q]@) == hamming@),
            s.1 == (exists|q: int| 1 <= q < i && q < args.len() && (#[trigger] args@[q]@) == blackman@),
            s.2 == (exists|q: int|
                1 <= q < i && q < args.len() && (#[trigger] args@[q]@) == blackman_harris@),
        decreases args.len() - i,
    {
        let h: bool = args[i] == hamming;
        let b: bool = args[i] == blackman;
        let bh: bool = args[i] == blackman_harris;
        s = (s.0 || h, s.1 || b, s.2 || bh);
        i = i + 1;
    }
    s
}

/// The accepted command lines, word by word: with two words the second is
/// the path; with three words one of the last two is a window switch and the
/// other the path. No shorter or longer line is accepted.
pub proof fn accepted_lines_have_two_or_three_words(args: Seq<String>)
    ensures
        args.len() < 2 || args.len() > 3 ==> !is_accepted(args),
        args.len() == 2 ==> (is_accepted(args) <==> !is_window_flag(args[1]@)),
        args.len() == 3 ==> (is_accepted(args) <==> (is_window_flag(args[1]@) != is_window_flag(
            args[2]@,
        ))),
{
    if args.len() == 2 {
        if !is_window_flag(args[1]@) {
            assert(is_path_at(args, 1));
        }
    }
    if args.len() == 3 {
        if is_window_flag(args[1]@) != is_window_flag(args[2]@) {
            if is_window_flag(args[1]@) {
                assert(is_path_at(args, 2));
            } else {
                assert(is_path_at(args, 1));
            }
        } else if is_accepted(args) {
            let p = choose|p: int| is_path_at(args, p);
            if p == 1 {
                assert(is_window_flag(args[2]@));
            } else {
                assert(is_window_flag(args[1]@));
            }
        }
    }
}

/// On an accepted command line at most one of the three window switches
/// stands, so the choice of the window never ends in a conflict.
pub proof fn accepted_line_has_at_most_one_switch(args: Seq<String>)
    requires
        is_accepted(args),
    ensures
        switches_on(
            has_switch(args, "--hamming"@),
            has_switch(args, "--blackman"@),
            has_switch(args, "--blackman-harris"@),
        ) <= 1,
{
    reveal_strlit("--hamming");
    reveal_strlit("--blackman");
    reveal_strlit("--blackman-harris");
    let p = choose|p: int| is_path_at(args, p);
    assert forall|q: int, t: int|
        1 <= q < args.len() && 1 <= t < args.len() && is_window_flag(#[trigger] args[q]@)
            && is_window_flag(#[trigger] args[t]@) implies q == t by {
        assert(q != p && t != p);
    }
    if has_switch(args, "--hamming"@) && has_switch(args, "--blackman"@) {
        let q = choose|q: int| 1 <= q < args.len() && (#[trigger] args[q]@) == "--hamming"@;
        let t = choose|t: int| 1 <= t < args.len() && (#[trigger] args[t]@) == "--blackman"@;
        assert(is_window_flag(args[q]@) && is_window_flag(args[t]@));
        assert(args[q]@.len() != args[t]@.len());
    }
    if has_switch(args, "--hamming"@) && has_switch(args, "--blackman-harris"@) {
        let q = choose|q: int| 1 <= q < args.len() && (#[trigger] args[q]@) == "--hamming"@;
        let t = choose|t: int|
            1 <= t < args.len() && (#[trigger] args[t]@) == "--blackman-harris"@;
        assert(is_window_flag(args[q]@) && is_window_flag(args[t]@));
        assert(args[q]@.len() != args[t]@.len());
    }
    if has_switch(args, "--blackman"@) && has_switch(args, "--blackman-harris"@) {
        let q = choose|q: int| 1 <= q < args.len() && (#[trigger] args[q]@) == "--blackman"@;
        let t = choose|t: int|
            1 <= t < args.len() && (#[trigger] args[t]@) == "--blackman-harris"@;
        assert(is_window_flag(args[q]@) && is_window_flag(args[t]@));
        assert(args[q]@.len() != args[t]@.len());
    }
}

} // verus!
