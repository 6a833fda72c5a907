//! What the build makes of a finished command: its output as lines, whether
//! its failure is an error, and the libtool directories it asks to finish.
use crate::environment::types::BuildCommandResult;
use crate::errors::BuildError;
use crate::text::{
    concat, contains, contains_str, decimal, find_exec, first_occ, from_chars, join_strings, join_with, lines,
    owned, skip_chars, split_lines, string_views, take_chars, to_chars, trim, trim_exec, u64_to_string, views,
};
use vstd::prelude::*;

verus! {

/// A command's output as the build keeps it: its lines joined by `\n`.
pub open spec fn normalized_output(text: Seq<char>) -> Seq<char> {
    join_with(lines(text), "\n"@)
}

/// The output of a command, line by line, joined by `\n`.
pub fn normalize_output(text: &str) -> (r: String)
    ensures
        r@ == normalized_output(text@),
{
    let ls = split_lines(to_chars(text).as_slice());
    let mut v: Vec<String> = Vec::new();
    for i in 0..ls.len()
        invariant
            string_views(v@) == views(ls@).take(i as int),
    {
        let ghost prev = v@;
        v.push(from_chars(ls[i].as_slice()));
        assert(string_views(v@) =~= string_views(prev).push(ls@[i as int]@));
        assert(views(ls@).take(i + 1) =~= views(ls@).take(i as int).push(ls@[i as int]@));
    }
    assert(views(ls@).take(ls@.len() as int) =~= views(ls@));
    join_strings(&v, "\n")
}

/// The decimal text of a signed number.
pub open spec fn signed_decimal(n: int) -> Seq<char> {
    if n < 0 {
        "-"@ + decimal((-n) as nat)
    } else {
        decimal(n as nat)
    }
}

/// An exit code as `{:?}` writes it: `Some(<code>)` or `None`.
pub open spec fn exit_code_text(code: Option<i32>) -> Seq<char> {
    match code {
        Some(c) => "Some("@ + signed_decimal(c as int) + ")"@,
        None => "None"@,
    }
}

fn exit_code_exec(code: Option<i32>) -> (r: String)
    ensures
        r@ == exit_code_text(code),
{
    match code {
        Some(c) => {
            let digits = if c < 0 {
                let m: i64 = -(c as i64);
                concat("-", u64_to_string(m as u64).as_str())
            } else {
                u64_to_string(c as u64)
            };
            let a = concat("Some(", digits.as_str());
            concat(a.as_str(), ")")
        },
        None => owned("None"),
    }
}

/// The error of a command that failed where failure is not allowed: the
/// command line, its exit code and its error output.
pub open spec fn command_failure_of(program: Seq<char>, args: Seq<Seq<char>>, r: BuildCommandResult) -> Seq<char> {
    program + " "@ + join_with(args, " "@) + " failed with exit code "@ + exit_code_text(r.exit_code) + ": "@ + r.stderr@
}

/// Whether a finished command is an error: it failed and failure was not
/// allowed.
pub fn command_outcome(program: &str, args: &Vec<String>, result: &BuildCommandResult, allow_failure: bool) -> (r: Result<(), BuildError>)
    ensures
        !result.success && !allow_failure ==> (r matches Err(BuildError::CompileFailed { message }) && message@
            == command_failure_of(program@, string_views(args@), *result)),
        result.success || allow_failure ==> r is Ok,
{
    if !result.success && !allow_failure {
        let a = concat(program, " ");
        let b = concat(a.as_str(), join_strings(args, " ").as_str());
        let c = concat(b.as_str(), " failed with exit code ");
        let d = concat(c.as_str(), exit_code_exec(result.exit_code).as_str());
        let e = concat(d.as_str(), ": ");
        Err(BuildError::CompileFailed { message: concat(e.as_str(), result.stderr.as_str()) })
    } else {
        Ok(())
    }
}

/// The directory that a libtool line asks to finish, if it asks: the text
/// after `libtool --finish` up to a quote, trimmed, where the line also says
/// `remember to run`.
pub open spec fn libtool_dir_of(line: Seq<char>) -> Option<Seq<char>> {
    if contains(line, "remember to run"@) && contains(line, "libtool --finish"@) {
        let rem = line.skip(first_occ(line, "libtool --finish"@) + 16);
        let end = if contains(rem, "'"@) {
            first_occ(rem, "'"@)
        } else if contains(rem, "\""@) {
            first_occ(rem, "\""@)
        } else {
            rem.len() as int
        };
        let dir = trim(rem.take(end));
        if dir.len() > 0 {
            Some(dir)
        } else {
            None
        }
    } else {
        None
    }
}

/// The libtool directories of some lines, each once, in the order first seen.
pub open spec fn libtool_dirs_of(ls: Seq<Seq<char>>) -> Seq<Seq<char>>
    decreases ls.len(),
{
    if ls.len() == 0 {
        Seq::empty()
    } else {
        let rest = libtool_dirs_of(ls.drop_last());
        match libtool_dir_of(ls.last()) {
            Some(d) => if rest.contains(d) {
                rest
            } else {
                rest.push(d)
            },
            None => rest,
        }
    }
}

fn libtool_dir(line: &[char]) -> (r: Option<String>)
    ensures
        match r {
            Some(d) => libtool_dir_of(line@) == Some(d@),
            None => libtool_dir_of(line@) is None,
        },
{
    if contains_str(line, "remember to run") && contains_str(line, "libtool --finish") {
        let key = to_chars("libtool --finish");
        match find_exec(line, key.as_slice()) {
            Some(start) => {
                proof {
                    reveal_strlit("libtool --finish");
                    crate::text::lemma_first_occ_in_bounds(line@, key@);
                }
                let n = line.len();
                assert(start + 16 <= n);
                let rem = skip_chars(line, start + 16);
                let q = to_chars("'");
                let dq = to_chars("\"");
                let end = match find_exec(rem.as_slice(), q.as_slice()) {
                    Some(e) => {
                        proof {
                            reveal_strlit("'");
                            crate::text::lemma_first_occ_in_bounds(rem@, q@);
                        }
                        e
                    },
                    None => match find_exec(rem.as_slice(), dq.as_slice()) {
                        Some(e) => {
                            proof {
                                reveal_strlit("\"");
                                crate::text::lemma_first_occ_in_bounds(rem@, dq@);
                            }
                            e
                        },
                        None => rem.len(),
                    },
                };
                let dir = trim_exec(take_chars(rem.as_slice(), end).as_slice());
                if dir.len() > 0 {
                    Some(from_chars(dir.as_slice()))
                } else {
                    None
                }
            },
            None => None,
        }
    } else {
        None
    }
}

/// The libtool directories that a command's output asks to finish, each
/// once, in the order first seen, from its output and then its error output.
pub fn check_libtool_finish_needed(result: &BuildCommandResult) -> (r: Vec<String>)
    ensures
        string_views(r@) == libtool_dirs_of(lines(result.stdout@ + "\n"@ + result.stderr@)),
{
    let a = concat(result.stdout.as_str(), "\n");
    let combined = concat(a.as_str(), result.stderr.as_str());
    let ls = split_lines(to_chars(combined.as_str()).as_slice());
    let mut dirs: Vec<String> = Vec::new();
    for i in 0..ls.len()
        invariant
            views(ls@) == lines(result.stdout@ + "\n"@ + result.stderr@),
            string_views(dirs@) == libtool_dirs_of(views(ls@).take(i as int)),
    {
        let ghost t = views(ls@).take(i + 1);
        assert(t.drop_last() =~= views(ls@).take(i as int));
        assert(t.last() == ls@[i as int]@);
        match libtool_dir(ls[i].as_slice()) {
            Some(d) => {
                let mut seen = false;
                for j in 0..dirs.len()
                    invariant
                        seen == exists|k: int| 0 <= k < j && string_views(dirs@)[k] == d@,
                {
                    if dirs[j] == d {
                        assert(string_views(dirs@)[j as int] == d@);
                        seen = true;
                    }
                }
                if !seen {
                    let ghost prev = dirs@;
                    dirs.push(d);
                    assert(string_views(dirs@) =~= string_views(prev).push(libtool_dir_of(t.last())->0));
                }
            },
            None => {},
        }
    }
    assert(views(ls@).take(ls@.len() as int) =~= views(ls@));
    dirs
}

/// The arguments of `libtool --finish` for a directory.
pub fn libtool_finish_args(dir: &str) -> (r: Vec<String>)
    ensures
        string_views(r@) == seq!["--finish"@, dir@],
{
    let mut r: Vec<String> = Vec::new();
    r.push(owned("--finish"));
    r.push(owned(dir));
    assert(string_views(r@) =~= seq!["--finish"@, dir@]);
    r
}

} // verus!
