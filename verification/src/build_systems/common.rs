//! Types shared by all build systems.
pub use crate::text::{owned, push_all};
use crate::text::{chars_eq, from_chars, parse_usize, parse_usize_spec, to_chars, views};
use vstd::prelude::*;

verus! {

/// Build system configuration
#[derive(Clone, Debug, Default)]
pub struct BuildSystemConfig {
    /// Whether out-of-source builds are supported
    pub supports_out_of_source: bool,
    /// Whether parallel builds are supported
    pub supports_parallel_builds: bool,
    /// Whether incremental builds are supported
    pub supports_incremental_builds: bool,
    /// Default configure arguments
    pub default_configure_args: Vec<String>,
    /// Default build arguments
    pub default_build_args: Vec<String>,
    /// Environment variable prefix for options
    pub env_prefix: Option<String>,
    /// File patterns to watch for changes
    pub watch_patterns: Vec<String>,
}

/// Details about a test failure
#[derive(Clone, Debug, PartialEq, Eq)]
pub struct TestFailure {
    /// Test name
    pub name: String,
    /// Failure message
    pub message: String,
    /// Stack trace or additional details
    pub details: Option<String>,
}

/// What a test failure holds, as character sequences.
pub struct TestFailureView {
    pub name: Seq<char>,
    pub message: Seq<char>,
    pub details: Option<Seq<char>>,
}

impl View for TestFailure {
    type V = TestFailureView;

    open spec fn view(&self) -> TestFailureView {
        TestFailureView {
            name: self.name@,
            message: self.message@,
            details: match self.details {
                Some(d) => Some(d@),
                None => None,
            },
        }
    }
}

/// The views of a sequence of failures.
pub open spec fn failure_views(v: Seq<TestFailure>) -> Seq<TestFailureView> {
    v.map_values(|f: TestFailure| f@)
}

/// A failure with no details.
pub open spec fn plain_failure(name: Seq<char>, message: Seq<char>) -> TestFailureView {
    TestFailureView { name, message, details: None }
}

/// Builds a failure without details from character sequences.
pub fn make_failure(name: &[char], message: &[char]) -> (f: TestFailure)
    ensures
        f@ == plain_failure(name@, message@),
{
    TestFailure { name: from_chars(name), message: from_chars(message), details: None }
}

/// A summary word names a count: the key itself, or (where `comma` holds)
/// the key followed by a comma.
pub open spec fn names_count(w: Seq<char>, key: Seq<char>, comma: bool) -> bool {
    w == key || (comma && w == key.push(','))
}

/// A number written in decimal, as a word of a summary line.
pub open spec fn count_word(n: usize) -> Seq<char> {
    crate::text::decimal(n as nat)
}

/// A word that begins with neither a digit nor `+` is no count.
pub proof fn lemma_not_a_count(w: Seq<char>)
    requires
        w.len() > 0,
        !('0' <= w[0] && w[0] <= '9'),
        w[0] != '+',
    ensures
        parse_usize_spec(w) is None,
{
}

/// One word of a summary line such as `5 passed, 2 failed, 1 skipped`: a
/// number followed by one of the three keys sets that count.
pub open spec fn tally_step(
    st: (usize, usize, usize),
    ws: Seq<Seq<char>>,
    i: int,
    keys: (Seq<char>, Seq<char>, Seq<char>),
    comma3: bool,
) -> (usize, usize, usize) {
    match parse_usize_spec(ws[i]) {
        Some(n) => if i + 1 < ws.len() {
            if names_count(ws[i + 1], keys.0, true) {
                (n, st.1, st.2)
            } else if names_count(ws[i + 1], keys.1, true) {
                (st.0, n, st.2)
            } else if names_count(ws[i + 1], keys.2, comma3) {
                (st.0, st.1, n)
            } else {
                st
            }
        } else {
            st
        },
        None => st,
    }
}

/// The three counts after the first `k` words of a summary line.
pub open spec fn tally(
    st: (usize, usize, usize),
    ws: Seq<Seq<char>>,
    k: nat,
    keys: (Seq<char>, Seq<char>, Seq<char>),
    comma3: bool,
) -> (usize, usize, usize)
    decreases k,
{
    if k == 0 {
        st
    } else {
        tally_step(tally(st, ws, (k - 1) as nat, keys, comma3), ws, k - 1, keys, comma3)
    }
}

fn with_comma(key: &str) -> (v: Vec<char>)
    ensures
        v@ == key@.push(','),
{
    let mut v = to_chars(key);
    v.push(',');
    v
}

/// Reads the counts that a summary line's words give, starting from `st`.
pub fn tally_words(
    ws: &Vec<Vec<char>>,
    st: (usize, usize, usize),
    k0: &str,
    k1: &str,
    k2: &str,
    comma3: bool,
) -> (r: (usize, usize, usize))
    ensures
        r == tally(st, views(ws@), ws@.len() as nat, (k0@, k1@, k2@), comma3),
{
    let key0 = to_chars(k0);
    let key1 = to_chars(k1);
    let key2 = to_chars(k2);
    let key0c = with_comma(k0);
    let key1c = with_comma(k1);
    let key2c = with_comma(k2);
    let mut cur = st;
    for i in 0..ws.len()
        invariant
            key0@ == k0@,
            key1@ == k1@,
            key2@ == k2@,
            key0c@ == k0@.push(','),
            key1c@ == k1@.push(','),
            key2c@ == k2@.push(','),
            cur == tally(st, views(ws@), i as nat, (k0@, k1@, k2@), comma3),
    {
        match parse_usize(ws[i].as_slice()) {
            Some(n) => {
                if i + 1 < ws.len() {
                    let next = ws[i + 1].as_slice();
                    if chars_eq(next, key0.as_slice()) || chars_eq(next, key0c.as_slice()) {
                        cur = (n, cur.1, cur.2);
                    } else if chars_eq(next, key1.as_slice()) || chars_eq(next, key1c.as_slice()) {
                        cur = (cur.0, n, cur.2);
                    } else if chars_eq(next, key2.as_slice()) || (comma3 && chars_eq(next, key2c.as_slice())) {
                        cur = (cur.0, cur.1, n);
                    }
                }
            },
            None => {},
        }
    }
    cur
}

/// The tests a run counted but neither passed nor failed: none where the
/// counts overlap.
pub fn skipped_tests(total: usize, passed: usize, failed: usize) -> (r: usize)
    ensures
        r == (if total >= passed + failed { total - passed - failed } else { 0int }),
{
    if passed <= total && failed <= total - passed {
        total - passed - failed
    } else {
        0
    }
}

/// The counts of a run that reports only whether it succeeded: one test,
/// passed or failed.
pub fn single_outcome(succeeded: bool) -> (r: (usize, usize, usize))
    ensures
        r == (if succeeded { (1usize, 1usize, 0usize) } else { (1usize, 0usize, 1usize) }),
{
    if succeeded {
        (1, 1, 0)
    } else {
        (1, 0, 1)
    }
}

} // verus!
