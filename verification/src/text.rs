//! Character-level text helpers shared by the parsers of this crate.
//!
//! Every helper works on `Seq<char>` models: a string slice is taken by its
//! view, the characters it holds.  The line, word and field splitters follow
//! the rules of `str::lines`, `str::split_whitespace` and `str::split`.
use vstd::prelude::*;

verus! {

/// Unicode `White_Space`, the property that `char::is_whitespace` tests.
pub open spec fn is_ws(c: char) -> bool {
    ||| c == '\t' || c == '\n' || c == '\x0B' || c == '\x0C' || c == '\r' || c == ' '
    ||| c == '\u{85}' || c == '\u{A0}' || c == '\u{1680}'
    ||| ('\u{2000}' <= c && c <= '\u{200A}')
    ||| c == '\u{2028}' || c == '\u{2029}' || c == '\u{202F}' || c == '\u{205F}'
    ||| c == '\u{3000}'
}

/// The characters after the last `sep` of `s` (all of `s` when it holds none).
pub open spec fn split_tail(s: Seq<char>, sep: char) -> Seq<char>
    decreases s.len(),
{
    if s.len() == 0 {
        seq![]
    } else if s.last() == sep {
        seq![]
    } else {
        split_tail(s.drop_last(), sep).push(s.last())
    }
}

/// The pieces of `s` that a `sep` closes, in order.
pub open spec fn split_done(s: Seq<char>, sep: char) -> Seq<Seq<char>>
    decreases s.len(),
{
    if s.len() == 0 {
        seq![]
    } else if s.last() == sep {
        split_done(s.drop_last(), sep).push(split_tail(s.drop_last(), sep))
    } else {
        split_done(s.drop_last(), sep)
    }
}

/// `s.split(sep)`: every piece between separators, empty ones included.
pub open spec fn split_char(s: Seq<char>, sep: char) -> Seq<Seq<char>> {
    split_done(s, sep).push(split_tail(s, sep))
}

/// A line without its closing `"\r"` (the part of a `"\r\n"` ending).
pub open spec fn strip_cr(l: Seq<char>) -> Seq<char> {
    if l.len() > 0 && l.last() == '\r' {
        l.drop_last()
    } else {
        l
    }
}

/// Lines closed by a `'\n'`, each without its line ending.
pub open spec fn lines_done(s: Seq<char>) -> Seq<Seq<char>>
    decreases s.len(),
{
    if s.len() == 0 {
        seq![]
    } else if s.last() == '\n' {
        lines_done(s.drop_last()).push(strip_cr(split_tail(s.drop_last(), '\n')))
    } else {
        lines_done(s.drop_last())
    }
}

/// `s.lines()`: the lines of `s`; a final line ending adds no empty line.
pub open spec fn lines(s: Seq<char>) -> Seq<Seq<char>> {
    if split_tail(s, '\n').len() > 0 {
        lines_done(s).push(split_tail(s, '\n'))
    } else {
        lines_done(s)
    }
}

/// The word that the end of `s` is in the middle of (empty after whitespace).
pub open spec fn word_tail(s: Seq<char>) -> Seq<char>
    decreases s.len(),
{
    if s.len() == 0 {
        seq![]
    } else if is_ws(s.last()) {
        seq![]
    } else {
        word_tail(s.drop_last()).push(s.last())
    }
}

/// The words of `s` that whitespace has closed.
pub open spec fn words_done(s: Seq<char>) -> Seq<Seq<char>>
    decreases s.len(),
{
    if s.len() == 0 {
        seq![]
    } else if is_ws(s.last()) && word_tail(s.drop_last()).len() > 0 {
        words_done(s.drop_last()).push(word_tail(s.drop_last()))
    } else {
        words_done(s.drop_last())
    }
}

/// `s.split_whitespace()`: the maximal runs of non-whitespace characters.
pub open spec fn words(s: Seq<char>) -> Seq<Seq<char>> {
    if word_tail(s).len() > 0 {
        words_done(s).push(word_tail(s))
    } else {
        words_done(s)
    }
}

/// `t` occurs in `s` at position `i`.
pub open spec fn occurs_at(s: Seq<char>, t: Seq<char>, i: int) -> bool {
    0 <= i && i + t.len() <= s.len() && s.subrange(i, i + t.len()) == t
}

/// `s.contains(t)`.
pub open spec fn contains(s: Seq<char>, t: Seq<char>) -> bool {
    exists|i: int| occurs_at(s, t, i)
}

/// `s.starts_with(t)`.
pub open spec fn starts_with(s: Seq<char>, t: Seq<char>) -> bool {
    t.len() <= s.len() && s.take(t.len() as int) == t
}

/// `s.ends_with(t)`.
pub open spec fn ends_with(s: Seq<char>, t: Seq<char>) -> bool {
    t.len() <= s.len() && s.skip(s.len() - t.len()) == t
}

/// The characters are all ASCII decimal digits.
pub open spec fn all_digits(s: Seq<char>) -> bool {
    forall|i: int| 0 <= i < s.len() ==> '0' <= #[trigger] s[i] && s[i] <= '9'
}

/// The number that a string of decimal digits spells.
pub open spec fn digits_value(s: Seq<char>) -> nat
    decreases s.len(),
{
    if s.len() == 0 {
        0
    } else {
        digits_value(s.drop_last()) * 10 + ((s.last() as int - '0' as int) as nat)
    }
}

/// The digits that an unsigned integer literal holds: a leading `+` is allowed.
pub open spec fn unsigned_digits(s: Seq<char>) -> Seq<char> {
    if s.len() > 0 && s[0] == '+' {
        s.drop_first()
    } else {
        s
    }
}

/// The text is an unsigned decimal literal: an optional `+`, then digits.
pub open spec fn is_unsigned_literal(s: Seq<char>) -> bool {
    unsigned_digits(s).len() > 0 && all_digits(unsigned_digits(s))
}

/// `s.parse::<usize>()`, as `Some` of the value or `None`.
pub open spec fn parse_usize_spec(s: Seq<char>) -> Option<usize> {
    if is_unsigned_literal(s) && digits_value(unsigned_digits(s)) <= usize::MAX {
        Some(digits_value(unsigned_digits(s)) as usize)
    } else {
        None
    }
}

/// `s.parse::<u8>()`, as `Some` of the value or `None`.
pub open spec fn parse_u8_spec(s: Seq<char>) -> Option<u8> {
    if is_unsigned_literal(s) && digits_value(unsigned_digits(s)) <= 255 {
        Some(digits_value(unsigned_digits(s)) as u8)
    } else {
        None
    }
}

/// `i` is the first position at which `t` occurs in `s`.
pub open spec fn is_first_occ(s: Seq<char>, t: Seq<char>, i: int) -> bool {
    occurs_at(s, t, i) && forall|j: int| 0 <= j < i ==> !occurs_at(s, t, j)
}

/// `s.find(t)`: the first position of `t` in `s`, or -1.
pub open spec fn first_occ(s: Seq<char>, t: Seq<char>) -> int {
    if contains(s, t) {
        choose|i: int| is_first_occ(s, t, i)
    } else {
        -1
    }
}

/// `j` is the first index at which `w` stands in `ws`.
pub open spec fn is_first_pos(ws: Seq<Seq<char>>, w: Seq<char>, j: int) -> bool {
    0 <= j < ws.len() && ws[j] == w && forall|k: int| 0 <= k < j ==> ws[k] != w
}

/// `ws.iter().position(|x| x == w)`: the first index of `w`, or -1.
pub open spec fn position(ws: Seq<Seq<char>>, w: Seq<char>) -> int {
    if ws.contains(w) {
        choose|j: int| is_first_pos(ws, w, j)
    } else {
        -1
    }
}

/// `s.trim_start()`.
pub open spec fn trim_start(s: Seq<char>) -> Seq<char>
    decreases s.len(),
{
    if s.len() > 0 && is_ws(s[0]) {
        trim_start(s.drop_first())
    } else {
        s
    }
}

/// `s.trim_end()`.
pub open spec fn trim_end(s: Seq<char>) -> Seq<char>
    decreases s.len(),
{
    if s.len() > 0 && is_ws(s.last()) {
        trim_end(s.drop_last())
    } else {
        s
    }
}

/// `s.trim()`.
pub open spec fn trim(s: Seq<char>) -> Seq<char> {
    trim_end(trim_start(s))
}

/// The views of a vector of character vectors.
pub open spec fn views(v: Seq<Vec<char>>) -> Seq<Seq<char>> {
    v.map_values(|x: Vec<char>| x@)
}

/// Copies the characters of a string slice into a vector.
pub fn to_chars(s: &str) -> (v: Vec<char>)
    ensures
        v@ == s@,
{
    let mut v: Vec<char> = Vec::new();
    for c in it: s.chars()
        invariant
            v@ == it.seq().take(it.index() as int),
    {
        v.push(c);
    }
    v
}

/// Appends one character with `String::push`.
#[verifier::external_body]
fn push_char(s: &mut String, c: char)
    ensures
        final(s)@ == old(s)@.push(c),
{
    s.push(c)
}

/// Builds a `String` from its characters.
pub fn from_chars(v: &[char]) -> (s: String)
    ensures
        s@ == v@,
{
    let mut s = String::new();
    for i in 0..v.len()
        invariant
            s@ == v@.take(i as int),
    {
        push_char(&mut s, v[i]);
        assert(v@.take(i + 1) == v@.take(i as int).push(v@[i as int]));
    }
    assert(v@.take(v@.len() as int) == v@);
    s
}

/// Tests a character as `char::is_whitespace` does.
pub fn char_is_whitespace(c: char) -> (b: bool)
    ensures
        b == is_ws(c),
{
    (c == '\t' || c == '\n' || c == '\x0B' || c == '\x0C' || c == '\r' || c == ' ')
        || (c == '\u{85}' || c == '\u{A0}' || c == '\u{1680}')
        || ('\u{2000}' <= c && c <= '\u{200A}')
        || (c == '\u{2028}' || c == '\u{2029}' || c == '\u{202F}' || c == '\u{205F}')
        || c == '\u{3000}'
}

/// Copies a list of strings.
pub fn clone_strings(v: &Vec<String>) -> (r: Vec<String>)
    ensures
        string_views(r@) == string_views(v@),
{
    let mut r: Vec<String> = Vec::new();
    for i in 0..v.len()
        invariant
            string_views(r@) == string_views(v@).take(i as int),
    {
        let ghost prev = r@;
        r.push(v[i].clone());
        assert(string_views(r@) =~= string_views(prev).push(v@[i as int]@));
        assert(string_views(r@) =~= string_views(v@).take(i + 1));
    }
    assert(string_views(v@).take(v@.len() as int) =~= string_views(v@));
    r
}

/// Copies a slice of bytes.
pub fn copy_bytes(s: &[u8]) -> (v: Vec<u8>)
    ensures
        v@ == s@,
{
    let mut v: Vec<u8> = Vec::new();
    for i in 0..s.len()
        invariant
            v@ == s@.take(i as int),
    {
        v.push(s[i]);
        assert(v@ =~= s@.take(i + 1));
    }
    assert(s@.take(s@.len() as int) =~= s@);
    v
}

/// Copies a slice of characters.
pub fn copy_chars(s: &[char]) -> (v: Vec<char>)
    ensures
        v@ == s@,
{
    let mut v: Vec<char> = Vec::new();
    for i in 0..s.len()
        invariant
            v@ == s@.take(i as int),
    {
        v.push(s[i]);
        assert(s@.take(i + 1) == s@.take(i as int).push(s@[i as int]));
    }
    assert(s@.take(s@.len() as int) == s@);
    v
}

/// Two character sequences are equal.
pub fn chars_eq(a: &[char], b: &[char]) -> (r: bool)
    ensures
        r == (a@ == b@),
{
    if a.len() != b.len() {
        return false;
    }
    for i in 0..a.len()
        invariant
            a@.len() == b@.len(),
            forall|j: int| 0 <= j < i ==> a@[j] == b@[j],
    {
        if a[i] != b[i] {
            return false;
        }
    }
    assert(a@ =~= b@);
    true
}

/// `s` equals the string slice `t`.
pub fn eq_str(s: &[char], t: &str) -> (r: bool)
    ensures
        r == (s@ == t@),
{
    let tv = to_chars(t);
    chars_eq(s, tv.as_slice())
}

/// `t` occurs in `s` at position `i`.
pub fn occurs_at_exec(s: &[char], t: &[char], i: usize) -> (r: bool)
    ensures
        r == occurs_at(s@, t@, i as int),
{
    if i > s.len() || t.len() > s.len() - i {
        return false;
    }
    let mut j: usize = 0;
    while j < t.len()
        invariant
            i + t@.len() <= s@.len(),
            s@.len() <= usize::MAX,
            j <= t@.len(),
            forall|k: int| 0 <= k < j ==> s@[i + k] == t@[k],
        decreases t@.len() - j,
    {
        if s[i + j] != t[j] {
            assert(s@.subrange(i as int, i + t@.len())[j as int] != t@[j as int]);
            return false;
        }
        j = j + 1;
    }
    assert(s@.subrange(i as int, i + t@.len()) =~= t@);
    true
}

/// `s.starts_with(t)` on character slices.
pub fn starts_with_exec(s: &[char], t: &[char]) -> (r: bool)
    ensures
        r == starts_with(s@, t@),
{
    let r = occurs_at_exec(s, t, 0);
    assert(s@.subrange(0, t@.len() as int) == s@.take(t@.len() as int));
    r
}

/// `s.starts_with(t)` where `t` is a string slice.
pub fn starts_with_str(s: &[char], t: &str) -> (r: bool)
    ensures
        r == starts_with(s@, t@),
{
    let tv = to_chars(t);
    starts_with_exec(s, tv.as_slice())
}

/// `s.ends_with(t)` on character slices.
pub fn ends_with_exec(s: &[char], t: &[char]) -> (r: bool)
    ensures
        r == ends_with(s@, t@),
{
    if t.len() > s.len() {
        return false;
    }
    let r = occurs_at_exec(s, t, s.len() - t.len());
    assert(s@.subrange(s@.len() - t@.len(), s@.len() as int) == s@.skip(s@.len() - t@.len()));
    r
}

/// `s.ends_with(t)` where `t` is a string slice.
pub fn ends_with_str(s: &[char], t: &str) -> (r: bool)
    ensures
        r == ends_with(s@, t@),
{
    let tv = to_chars(t);
    ends_with_exec(s, tv.as_slice())
}

/// `s.contains(t)` on character slices.
pub fn contains_exec(s: &[char], t: &[char]) -> (r: bool)
    ensures
        r == contains(s@, t@),
{
    if t.len() > s.len() {
        assert forall|i: int| !occurs_at(s@, t@, i) by {}
        return false;
    }
    if t.len() == 0 {
        assert(s@.subrange(0, 0) =~= t@);
        assert(occurs_at(s@, t@, 0));
        return true;
    }
    let last = s.len() - t.len();
    let mut i: usize = 0;
    while i <= last
        invariant
            last == s@.len() - t@.len(),
            t@.len() <= s@.len(),
            t@.len() >= 1,
            s@.len() <= usize::MAX,
            i <= last + 1,
            forall|k: int| 0 <= k < i ==> !occurs_at(s@, t@, k),
        decreases last + 1 - i,
    {
        if occurs_at_exec(s, t, i) {
            return true;
        }
        i = i + 1;
    }
    assert forall|k: int| !occurs_at(s@, t@, k) by {
        if 0 <= k < i {
        } else {
        }
    }
    false
}

/// `s.contains(t)` where `t` is a string slice.
pub fn contains_str(s: &[char], t: &str) -> (r: bool)
    ensures
        r == contains(s@, t@),
{
    let tv = to_chars(t);
    contains_exec(s, tv.as_slice())
}

/// The characters of `s` from `start` on.
pub fn skip_chars(s: &[char], start: usize) -> (v: Vec<char>)
    requires
        start <= s@.len(),
    ensures
        v@ == s@.skip(start as int),
{
    let mut v: Vec<char> = Vec::new();
    let mut i = start;
    while i < s.len()
        invariant
            start <= i <= s@.len(),
            v@ == s@.subrange(start as int, i as int),
        decreases s@.len() - i,
    {
        v.push(s[i]);
        assert(s@.subrange(start as int, i + 1) == s@.subrange(start as int, i as int).push(s@[i as int]));
        i = i + 1;
    }
    v
}

/// `s.find(t)` on characters.
pub fn find_exec(s: &[char], t: &[char]) -> (r: Option<usize>)
    ensures
        r is Some <==> contains(s@, t@),
        r matches Some(i) ==> i == first_occ(s@, t@),
{
    if t.len() > s.len() {
        assert forall|i: int| !occurs_at(s@, t@, i) by {}
        return None;
    }
    if t.len() == 0 {
        proof {
            assert(s@.subrange(0, 0) =~= t@);
            assert(is_first_occ(s@, t@, 0));
            lemma_first_occ_unique(s@, t@, 0);
        }
        return Some(0);
    }
    let last = s.len() - t.len();
    let mut i: usize = 0;
    while i <= last
        invariant
            last == s@.len() - t@.len(),
            t@.len() <= s@.len(),
            t@.len() >= 1,
            s@.len() <= usize::MAX,
            i <= last + 1,
            forall|k: int| 0 <= k < i ==> !occurs_at(s@, t@, k),
        decreases last + 1 - i,
    {
        if occurs_at_exec(s, t, i) {
            proof {
                assert(is_first_occ(s@, t@, i as int));
                lemma_first_occ_unique(s@, t@, i as int);
            }
            return Some(i);
        }
        i = i + 1;
    }
    assert forall|k: int| !occurs_at(s@, t@, k) by {
        if 0 <= k < i {
        }
    }
    None
}

/// The first position of `t` in `s` is unique.
pub proof fn lemma_first_occ_unique(s: Seq<char>, t: Seq<char>, i: int)
    requires
        is_first_occ(s, t, i),
    ensures
        contains(s, t),
        first_occ(s, t) == i,
{
    assert(occurs_at(s, t, i));
    let j = choose|j: int| is_first_occ(s, t, j);
    assert(is_first_occ(s, t, j));
    if j < i {
        assert(!occurs_at(s, t, j));
    }
    if i < j {
        assert(!occurs_at(s, t, i));
    }
}

/// The first index of `w` is unique.
pub proof fn lemma_first_pos_unique(ws: Seq<Seq<char>>, w: Seq<char>, j: int)
    requires
        is_first_pos(ws, w, j),
    ensures
        ws.contains(w),
        position(ws, w) == j,
{
    assert(ws[j] == w);
    let k = choose|k: int| is_first_pos(ws, w, k);
    assert(is_first_pos(ws, w, k));
    if k < j {
        assert(ws[k] != w);
    }
    if j < k {
        assert(ws[j] != w);
    }
}

/// The index of the first word of `ws` that equals the string slice `w`.
pub fn position_of(ws: &Vec<Vec<char>>, w: &str) -> (r: Option<usize>)
    ensures
        r is Some <==> views(ws@).contains(w@),
        r matches Some(j) ==> j == position(views(ws@), w@) && j < ws@.len()
            && is_first_pos(views(ws@), w@, j as int),
{
    let wv = to_chars(w);
    for j in 0..ws.len()
        invariant
            wv@ == w@,
            forall|k: int| 0 <= k < j ==> views(ws@)[k] != w@,
    {
        if chars_eq(ws[j].as_slice(), wv.as_slice()) {
            proof {
                assert(is_first_pos(views(ws@), w@, j as int));
                lemma_first_pos_unique(views(ws@), w@, j as int);
            }
            return Some(j);
        }
    }
    assert(!views(ws@).contains(w@)) by {
        if views(ws@).contains(w@) {
            let k = choose|k: int| 0 <= k < views(ws@).len() && views(ws@)[k] == w@;
            assert(views(ws@)[k] != w@);
        }
    }
    None
}

proof fn lemma_trim_start_skip(s: Seq<char>, i: int)
    requires
        0 <= i <= s.len(),
        forall|k: int| 0 <= k < i ==> is_ws(#[trigger] s[k]),
    ensures
        trim_start(s) == trim_start(s.skip(i)),
    decreases i,
{
    if i > 0 {
        assert(is_ws(s[0]));
        lemma_trim_start_skip(s.drop_first(), i - 1);
        assert(s.drop_first().skip(i - 1) == s.skip(i));
    } else {
        assert(s.skip(0) == s);
    }
}

proof fn lemma_trim_end_take(s: Seq<char>, n: int)
    requires
        0 <= n <= s.len(),
        forall|k: int| n <= k < s.len() ==> is_ws(#[trigger] s[k]),
    ensures
        trim_end(s) == trim_end(s.take(n)),
    decreases s.len() - n,
{
    if n < s.len() {
        assert(is_ws(s.last()));
        lemma_trim_end_take(s.drop_last(), n);
        assert(s.drop_last().take(n) == s.take(n));
    } else {
        assert(s.take(n) == s);
    }
}

/// `s.trim()` on characters.
pub fn trim_exec(s: &[char]) -> (r: Vec<char>)
    ensures
        r@ == trim(s@),
{
    let mut i: usize = 0;
    while i < s.len() && char_is_whitespace(s[i])
        invariant
            i <= s@.len(),
            forall|k: int| 0 <= k < i ==> is_ws(#[trigger] s@[k]),
        decreases s@.len() - i,
    {
        i = i + 1;
    }
    proof {
        lemma_trim_start_skip(s@, i as int);
        if i < s@.len() {
            assert(s@.skip(i as int)[0] == s@[i as int]);
        }
    }
    let rest = skip_chars(s, i);
    assert(trim_start(s@) == rest@);
    let mut n: usize = rest.len();
    while n > 0 && char_is_whitespace(rest[n - 1])
        invariant
            n <= rest@.len(),
            forall|k: int| n <= k < rest@.len() ==> is_ws(#[trigger] rest@[k]),
        decreases n,
    {
        n = n - 1;
    }
    proof {
        lemma_trim_end_take(rest@, n as int);
        if n > 0 {
            assert(rest@.take(n as int).last() == rest@[n - 1]);
        }
    }
    take_chars(rest.as_slice(), n)
}

/// The first `n` characters of `s`.
pub fn take_chars(s: &[char], n: usize) -> (v: Vec<char>)
    requires
        n <= s@.len(),
    ensures
        v@ == s@.take(n as int),
{
    let mut v: Vec<char> = Vec::new();
    for i in 0..n
        invariant
            n <= s@.len(),
            v@ == s@.take(i as int),
    {
        v.push(s[i]);
        assert(s@.take(i + 1) == s@.take(i as int).push(s@[i as int]));
    }
    v
}

proof fn lemma_split_step(s: Seq<char>, c: char, sep: char)
    ensures
        split_tail(s.push(c), sep) == (if c == sep { seq![] } else { split_tail(s, sep).push(c) }),
        split_done(s.push(c), sep) == (if c == sep {
            split_done(s, sep).push(split_tail(s, sep))
        } else {
            split_done(s, sep)
        }),
{
    assert(s.push(c).drop_last() == s);
}

/// `s.split(sep)` on characters.
pub fn split_on(s: &[char], sep: char) -> (r: Vec<Vec<char>>)
    ensures
        views(r@) == split_char(s@, sep),
{
    let mut done: Vec<Vec<char>> = Vec::new();
    let mut cur: Vec<char> = Vec::new();
    for i in 0..s.len()
        invariant
            views(done@) == split_done(s@.take(i as int), sep),
            cur@ == split_tail(s@.take(i as int), sep),
    {
        let c = s[i];
        proof {
            assert(s@.take(i + 1) == s@.take(i as int).push(c));
            lemma_split_step(s@.take(i as int), c, sep);
        }
        if c == sep {
            let piece = cur;
            done.push(piece);
            cur = Vec::new();
            assert(views(done@) =~= split_done(s@.take(i as int), sep).push(split_tail(s@.take(i as int), sep)));
        } else {
            cur.push(c);
        }
    }
    assert(s@.take(s@.len() as int) == s@);
    done.push(cur);
    assert(views(done@) =~= split_char(s@, sep));
    done
}

proof fn lemma_lines_step(s: Seq<char>, c: char)
    ensures
        lines_done(s.push(c)) == (if c == '\n' {
            lines_done(s).push(strip_cr(split_tail(s, '\n')))
        } else {
            lines_done(s)
        }),
{
    assert(s.push(c).drop_last() == s);
}

/// Drops a closing `'\r'`.
fn strip_cr_exec(l: Vec<char>) -> (r: Vec<char>)
    ensures
        r@ == strip_cr(l@),
{
    let mut l = l;
    if l.len() > 0 && l[l.len() - 1] == '\r' {
        l.pop();
    }
    l
}

/// `s.lines()` on characters.
pub fn split_lines(s: &[char]) -> (r: Vec<Vec<char>>)
    ensures
        views(r@) == lines(s@),
{
    let mut done: Vec<Vec<char>> = Vec::new();
    let mut cur: Vec<char> = Vec::new();
    for i in 0..s.len()
        invariant
            views(done@) == lines_done(s@.take(i as int)),
            cur@ == split_tail(s@.take(i as int), '\n'),
    {
        let c = s[i];
        proof {
            assert(s@.take(i + 1) == s@.take(i as int).push(c));
            lemma_lines_step(s@.take(i as int), c);
            lemma_split_step(s@.take(i as int), c, '\n');
        }
        if c == '\n' {
            let line = strip_cr_exec(cur);
            done.push(line);
            cur = Vec::new();
            assert(views(done@) =~= lines_done(s@.take(i as int)).push(strip_cr(split_tail(s@.take(i as int), '\n'))));
        } else {
            cur.push(c);
        }
    }
    assert(s@.take(s@.len() as int) == s@);
    if cur.len() > 0 {
        done.push(cur);
        assert(views(done@) =~= lines(s@));
    }
    done
}

proof fn lemma_words_step(s: Seq<char>, c: char)
    ensures
        word_tail(s.push(c)) == (if is_ws(c) { seq![] } else { word_tail(s).push(c) }),
        words_done(s.push(c)) == (if is_ws(c) && word_tail(s).len() > 0 {
            words_done(s).push(word_tail(s))
        } else {
            words_done(s)
        }),
{
    assert(s.push(c).drop_last() == s);
}

/// `s.split_whitespace()` on characters.
pub fn split_words(s: &[char]) -> (r: Vec<Vec<char>>)
    ensures
        views(r@) == words(s@),
{
    let mut done: Vec<Vec<char>> = Vec::new();
    let mut cur: Vec<char> = Vec::new();
    for i in 0..s.len()
        invariant
            views(done@) == words_done(s@.take(i as int)),
            cur@ == word_tail(s@.take(i as int)),
    {
        let c = s[i];
        proof {
            assert(s@.take(i + 1) == s@.take(i as int).push(c));
            lemma_words_step(s@.take(i as int), c);
        }
        if char_is_whitespace(c) {
            if cur.len() > 0 {
                let w = cur;
                done.push(w);
                cur = Vec::new();
                assert(views(done@) =~= words_done(s@.take(i as int)).push(word_tail(s@.take(i as int))));
            }
        } else {
            cur.push(c);
        }
    }
    assert(s@.take(s@.len() as int) == s@);
    if cur.len() > 0 {
        done.push(cur);
        assert(views(done@) =~= words(s@));
    }
    done
}

/// The value of a digit string: a step of `digits_value`.
proof fn lemma_digits_push(s: Seq<char>, c: char)
    ensures
        digits_value(s.push(c)) == digits_value(s) * 10 + ((c as int - '0' as int) as nat),
{
    assert(s.push(c).drop_last() == s);
}

/// Reads an unsigned decimal literal; `None` when it is not one or exceeds `bound`.
fn parse_bounded(s: &[char], bound: u64) -> (r: Option<u64>)
    requires
        bound >= 9,
    ensures
        r == (if is_unsigned_literal(s@) && digits_value(unsigned_digits(s@)) <= bound {
            Some(digits_value(unsigned_digits(s@)) as u64)
        } else {
            None::<u64>
        }),
{
    let start: usize = if s.len() > 0 && s[0] == '+' { 1 } else { 0 };
    let ghost d = unsigned_digits(s@);
    assert(d == s@.skip(start as int));
    if start >= s.len() {
        return None;
    }
    let mut value: u64 = 0;
    let mut i = start;
    while i < s.len()
        invariant
            start <= i <= s@.len(),
            bound >= 9,
            d == s@.skip(start as int),
            d == unsigned_digits(s@),
            value as nat == digits_value(d.take(i - start)),
            value <= bound,
            all_digits(d.take(i - start)),
        decreases s@.len() - i,
    {
        let c = s[i];
        proof {
            assert(d.take(i - start + 1) == d.take(i - start).push(c));
            lemma_digits_push(d.take(i - start), c);
        }
        if c < '0' || c > '9' {
            assert(d[i - start] == s@[i as int]);
            assert(!all_digits(d));
            return None;
        }
        let digit: u64 = (c as u32 - '0' as u32) as u64;
        assert(digit <= 9);
        if value > (bound - digit) / 10 {
            proof {
                assert(value * 10 + digit > bound) by (nonlinear_arith)
                    requires
                        value > (bound - digit) / 10,
                        digit <= bound,
                ;
                lemma_digits_prefix_mono(d, (i - start + 1) as int);
            }
            return None;
        }
        assert(value * 10 + digit <= bound) by (nonlinear_arith)
            requires
                value <= (bound - digit) / 10,
                digit <= bound,
        ;
        value = value * 10 + digit;
        i = i + 1;
    }
    assert(d.take(d.len() as int) == d);
    Some(value)
}

proof fn lemma_digits_prefix_mono(d: Seq<char>, n: int)
    requires
        0 <= n <= d.len(),
    ensures
        all_digits(d) ==> digits_value(d) >= digits_value(d.take(n)),
    decreases d.len() - n,
{
    if n < d.len() {
        lemma_digits_prefix_mono(d, n + 1);
        assert(d.take(n + 1) == d.take(n).push(d[n]));
        lemma_digits_push(d.take(n), d[n]);
        if all_digits(d) {
            assert('0' <= d[n]);
        }
    } else {
        assert(d.take(n) == d);
    }
}

/// `s.parse::<usize>().ok()`.
pub fn parse_usize(s: &[char]) -> (r: Option<usize>)
    ensures
        r == parse_usize_spec(s@),
{
    let r = parse_bounded(s, usize::MAX as u64);
    match r {
        Some(v) => Some(v as usize),
        None => None,
    }
}

/// `s.parse::<u8>().ok()`.
pub fn parse_u8(s: &[char]) -> (r: Option<u8>)
    ensures
        r == parse_u8_spec(s@),
{
    let r = parse_bounded(s, 255);
    match r {
        Some(v) => Some(v as u8),
        None => None,
    }
}

/// A first occurrence lies inside the text.
pub proof fn lemma_first_occ_in_bounds(s: Seq<char>, t: Seq<char>)
    requires
        contains(s, t),
    ensures
        0 <= first_occ(s, t) && first_occ(s, t) + t.len() <= s.len(),
{
    let i = choose|i: int| occurs_at(s, t, i);
    lemma_exists_first_occ(s, t, i);
}

proof fn lemma_exists_first_occ(s: Seq<char>, t: Seq<char>, i: int)
    requires
        occurs_at(s, t, i),
    ensures
        is_first_occ(s, t, first_occ(s, t)),
    decreases i,
{
    if forall|j: int| 0 <= j < i ==> !occurs_at(s, t, j) {
        lemma_first_occ_unique(s, t, i);
    } else {
        let j = choose|j: int| 0 <= j < i && occurs_at(s, t, j);
        lemma_exists_first_occ(s, t, j);
    }
}

/// Appends the characters of `s` to `v`.
pub fn push_all(v: &mut Vec<char>, s: &[char])
    ensures
        final(v)@ == old(v)@ + s@,
{
    for i in 0..s.len()
        invariant
            v@ == old(v)@ + s@.take(i as int),
    {
        v.push(s[i]);
        assert(s@.take(i + 1) == s@.take(i as int).push(s@[i as int]));
    }
    assert(s@.take(s@.len() as int) == s@);
}

/// The concatenation of two strings.
pub fn concat(a: &str, b: &str) -> (r: String)
    ensures
        r@ == a@ + b@,
{
    let mut v = to_chars(a);
    let w = to_chars(b);
    push_all(&mut v, w.as_slice());
    from_chars(v.as_slice())
}

/// A `String` with the characters of `s`.
pub fn owned(s: &str) -> (r: String)
    ensures
        r@ == s@,
{
    s.to_owned()
}

/// The views of a sequence of strings.
pub open spec fn string_views(v: Seq<String>) -> Seq<Seq<char>> {
    v.map_values(|s: String| s@)
}

/// The decimal digits of `n`, without leading zeros (`0` for zero).
pub open spec fn decimal(n: nat) -> Seq<char>
    decreases n,
{
    if n < 10 {
        seq![digit_char(n)]
    } else {
        decimal(n / 10).push(digit_char(n % 10))
    }
}

/// The digit character for a value below ten.
pub open spec fn digit_char(d: nat) -> char {
    ((d + 48) as u8) as char
}

/// `n.to_string()`: the decimal digits of `n`.
pub fn u64_to_string(n: u64) -> (r: String)
    ensures
        r@ == decimal(n as nat),
{
    let mut digits: Vec<char> = Vec::new();
    let mut m = n;
    while m >= 10
        invariant
            decimal(n as nat) == decimal(m as nat) + digits@,
        decreases m,
    {
        let d = (m % 10) as u8;
        let c = (d + 48) as char;
        let ghost prev = digits@;
        digits.insert(0, c);
        assert(decimal(m as nat) == decimal((m / 10) as nat).push(digit_char((m % 10) as nat)));
        assert(decimal(m as nat) + prev == decimal((m / 10) as nat) + digits@) by {
            assert(digits@ == seq![c] + prev);
        }
        m = m / 10;
    }
    let c = ((m as u8) + 48) as char;
    digits.insert(0, c);
    from_chars(digits.as_slice())
}

/// `n.to_string()`: the decimal digits of `n`.
pub fn usize_to_string(n: usize) -> (r: String)
    ensures
        r@ == decimal(n as nat),
{
    u64_to_string(n as u64)
}

/// `s.replace(from, to)`: every occurrence of `from`, found left to right
/// without overlap, replaced by `to`; an empty `from` matches before every
/// character and at the end.
pub open spec fn replace_all(s: Seq<char>, from: Seq<char>, to: Seq<char>) -> Seq<char>
    decreases s.len(),
{
    if from.len() == 0 {
        if s.len() == 0 {
            to
        } else {
            to + seq![s[0]] + replace_all(s.skip(1), from, to)
        }
    } else if s.len() < from.len() {
        s
    } else if s.take(from.len() as int) == from {
        to + replace_all(s.skip(from.len() as int), from, to)
    } else {
        seq![s[0]] + replace_all(s.skip(1), from, to)
    }
}

/// Replaces every occurrence of `from` in `s` by `to`.
pub fn replace_str(s: &str, from: &str, to: &str) -> (r: String)
    ensures
        r@ == replace_all(s@, from@, to@),
{
    let sv = to_chars(s);
    let fv = to_chars(from);
    let tv = to_chars(to);
    let n = sv.len();
    let fl = fv.len();
    let mut out: Vec<char> = Vec::new();
    let mut i: usize = 0;
    assert(sv@.skip(0) =~= sv@);
    assert(out@ + replace_all(sv@, fv@, tv@) =~= replace_all(sv@, fv@, tv@));
    if fl == 0 {
        while i < n
            invariant
                i <= n,
                n == sv@.len(),
                fv@.len() == 0,
                out@ + replace_all(sv@.skip(i as int), fv@, tv@) == replace_all(sv@, fv@, tv@),
            decreases n - i,
        {
            let ghost rest = sv@.skip(i as int);
            assert(rest.skip(1) == sv@.skip(i + 1));
            assert(rest[0] == sv@[i as int]);
            push_all(&mut out, tv.as_slice());
            out.push(sv[i]);
            assert(out@ + replace_all(sv@.skip(i + 1), fv@, tv@) == replace_all(sv@, fv@, tv@)) by {
                assert(replace_all(rest, fv@, tv@) == tv@ + seq![rest[0]] + replace_all(rest.skip(1), fv@, tv@));
                assert(out@ =~= (out@.take(out@.len() - 1 - tv@.len()) + tv@ + seq![sv@[i as int]]));
            }
            i = i + 1;
        }
        push_all(&mut out, tv.as_slice());
        assert(sv@.skip(n as int) =~= Seq::<char>::empty());
        return from_chars(out.as_slice());
    }
    while i < n
        invariant
            i <= n,
            n == sv@.len(),
            fl == fv@.len(),
            fl > 0,
            out@ + replace_all(sv@.skip(i as int), fv@, tv@) == replace_all(sv@, fv@, tv@),
        decreases n - i,
    {
        let ghost rest = sv@.skip(i as int);
        if n - i >= fl && occurs_at_exec(sv.as_slice(), fv.as_slice(), i) {
            assert(rest.take(fl as int) =~= fv@);
            assert(rest.skip(fl as int) =~= sv@.skip(i + fl));
            let ghost before = out@;
            push_all(&mut out, tv.as_slice());
            assert(before + replace_all(rest, fv@, tv@) == out@ + replace_all(sv@.skip(i + fl), fv@, tv@));
            i = i + fl;
        } else {
            proof {
                if rest.len() >= fl {
                    assert(rest.take(fl as int) != fv@) by {
                        if rest.take(fl as int) == fv@ {
                            assert(sv@.subrange(i as int, i + fl) =~= rest.take(fl as int));
                        }
                    }
                }
            }
            if n - i < fl {
                assert(replace_all(rest, fv@, tv@) == rest);
                let ghost before = out@;
                let tail = skip_chars(sv.as_slice(), i);
                push_all(&mut out, tail.as_slice());
                assert(sv@.skip(n as int) =~= Seq::<char>::empty());
                assert(replace_all(sv@.skip(n as int), fv@, tv@) == Seq::<char>::empty());
                assert(out@ + replace_all(sv@.skip(n as int), fv@, tv@) =~= before + rest);
                i = n;
            } else {
                assert(rest.skip(1) =~= sv@.skip(i + 1));
                let ghost before = out@;
                out.push(sv[i]);
                assert(before + replace_all(rest, fv@, tv@) =~= out@ + replace_all(sv@.skip(i + 1), fv@, tv@));
                i = i + 1;
            }
        }
    }
    assert(sv@.skip(n as int) =~= Seq::<char>::empty());
    from_chars(out.as_slice())
}

/// The pieces with the separator between each two.
pub open spec fn join_with(ps: Seq<Seq<char>>, sep: Seq<char>) -> Seq<char>
    decreases ps.len(),
{
    if ps.len() == 0 {
        Seq::empty()
    } else if ps.len() == 1 {
        ps[0]
    } else {
        join_with(ps.drop_last(), sep) + sep + ps.last()
    }
}

/// `pieces.join(sep)`.
pub fn join_strings(pieces: &Vec<String>, sep: &str) -> (r: String)
    ensures
        r@ == join_with(string_views(pieces@), sep@),
{
    let mut v: Vec<char> = Vec::new();
    let sepv = to_chars(sep);
    for i in 0..pieces.len()
        invariant
            sepv@ == sep@,
            v@ == join_with(string_views(pieces@).take(i as int), sep@),
    {
        let p = to_chars(pieces[i].as_str());
        let ghost prev = v@;
        if i > 0 {
            push_all(&mut v, sepv.as_slice());
        }
        push_all(&mut v, p.as_slice());
        proof {
            let t = string_views(pieces@).take(i + 1);
            assert(t.drop_last() =~= string_views(pieces@).take(i as int));
            assert(t.last() == pieces@[i as int]@);
            if i == 0 {
                assert(v@ =~= t[0]);
            } else {
                assert(v@ =~= prev + sep@ + t.last());
            }
        }
    }
    assert(string_views(pieces@).take(pieces@.len() as int) =~= string_views(pieces@));
    from_chars(v.as_slice())
}

/// `s.trim_start_matches(c)`.
pub open spec fn strip_start_char(s: Seq<char>, c: char) -> Seq<char>
    decreases s.len(),
{
    if s.len() > 0 && s[0] == c {
        strip_start_char(s.drop_first(), c)
    } else {
        s
    }
}

/// `s.trim_end_matches(c)`.
pub open spec fn strip_end_char(s: Seq<char>, c: char) -> Seq<char>
    decreases s.len(),
{
    if s.len() > 0 && s.last() == c {
        strip_end_char(s.drop_last(), c)
    } else {
        s
    }
}

/// `s.trim_matches(c)`.
pub open spec fn trim_char(s: Seq<char>, c: char) -> Seq<char> {
    strip_end_char(strip_start_char(s, c), c)
}

proof fn lemma_strip_start_skip(s: Seq<char>, c: char, i: int)
    requires
        0 <= i <= s.len(),
        forall|k: int| 0 <= k < i ==> s[k] == c,
        i == s.len() || s[i] != c,
    ensures
        strip_start_char(s, c) == s.skip(i),
    decreases i,
{
    if i > 0 {
        lemma_strip_start_skip(s.drop_first(), c, i - 1);
        assert(s.drop_first().skip(i - 1) =~= s.skip(i));
    } else {
        assert(s.skip(0) =~= s);
    }
}

proof fn lemma_strip_end_take(s: Seq<char>, c: char, n: int)
    requires
        0 <= n <= s.len(),
        forall|k: int| n <= k < s.len() ==> s[k] == c,
        n == 0 || s[n - 1] != c,
    ensures
        strip_end_char(s, c) == s.take(n),
    decreases s.len() - n,
{
    if n < s.len() {
        lemma_strip_end_take(s.drop_last(), c, n);
        assert(s.drop_last().take(n) =~= s.take(n));
    } else {
        assert(s.take(n) =~= s);
    }
}

/// `s.trim_matches(c)` on characters.
pub fn trim_char_exec(s: &[char], c: char) -> (r: Vec<char>)
    ensures
        r@ == trim_char(s@, c),
{
    let mut i: usize = 0;
    while i < s.len() && s[i] == c
        invariant
            i <= s@.len(),
            forall|k: int| 0 <= k < i ==> s@[k] == c,
        decreases s@.len() - i,
    {
        i = i + 1;
    }
    proof {
        lemma_strip_start_skip(s@, c, i as int);
    }
    let rest = skip_chars(s, i);
    let mut n: usize = rest.len();
    while n > 0 && rest[n - 1] == c
        invariant
            n <= rest@.len(),
            forall|k: int| n <= k < rest@.len() ==> rest@[k] == c,
        decreases n,
    {
        n = n - 1;
    }
    proof {
        lemma_strip_end_take(rest@, c, n as int);
    }
    take_chars(rest.as_slice(), n)
}

/// `s.trim_start_matches(c)` on characters.
pub fn strip_start_char_exec(s: &[char], c: char) -> (r: Vec<char>)
    ensures
        r@ == strip_start_char(s@, c),
{
    let mut i: usize = 0;
    while i < s.len() && s[i] == c
        invariant
            i <= s@.len(),
            forall|k: int| 0 <= k < i ==> s@[k] == c,
        decreases s@.len() - i,
    {
        i = i + 1;
    }
    proof {
        lemma_strip_start_skip(s@, c, i as int);
    }
    skip_chars(s, i)
}

/// A template filled in: the first piece, then each value followed by the
/// next piece.
pub open spec fn fill(pieces: Seq<Seq<char>>, values: Seq<Seq<char>>) -> Seq<char>
    decreases values.len(),
{
    if values.len() == 0 {
        if pieces.len() > 0 { pieces[0] } else { Seq::empty() }
    } else {
        fill(pieces, values.drop_last()) + values.last() + pieces[values.len() as int]
    }
}

/// Fills a template: `pieces` has one more element than `values`.
pub fn fill_template(pieces: &Vec<&str>, values: &Vec<String>) -> (r: String)
    requires
        pieces@.len() == values@.len() + 1,
    ensures
        r@ == fill(pieces@.map_values(|p: &str| p@), string_views(values@)),
{
    let ghost ps = pieces@.map_values(|p: &str| p@);
    let ghost vs = string_views(values@);
    let mut out = to_chars(pieces[0]);
    for i in 0..values.len()
        invariant
            pieces@.len() == values@.len() + 1,
            ps == pieces@.map_values(|p: &str| p@),
            vs == string_views(values@),
            out@ == fill(ps, vs.take(i as int)),
    {
        assert(vs.take(i + 1).drop_last() =~= vs.take(i as int));
        let v = to_chars(values[i].as_str());
        push_all(&mut out, v.as_slice());
        let p = to_chars(pieces[i + 1]);
        push_all(&mut out, p.as_slice());
        assert(out@ =~= fill(ps, vs.take(i as int)) + vs[i as int] + ps[i + 1]);
    }
    assert(vs.take(vs.len() as int) =~= vs);
    from_chars(out.as_slice())
}

/// The decimal digits of a number are digits, at least one, and spell the
/// number back.
/// A number written in decimal parses back to itself.
pub proof fn lemma_parse_decimal(n: usize)
    ensures
        parse_usize_spec(decimal(n as nat)) == Some(n),
{
    lemma_decimal_spells(n as nat);
    let d = decimal(n as nat);
    assert('0' <= d[0] && d[0] <= '9');
    assert(unsigned_digits(d) == d);
}

pub proof fn lemma_decimal_spells(n: nat)
    ensures
        decimal(n).len() > 0,
        all_digits(decimal(n)),
        digits_value(decimal(n)) == n,
    decreases n,
{
    if n < 10 {
        let d = decimal(n);
        assert(d =~= seq![digit_char(n)]);
        assert(d.drop_last() =~= Seq::<char>::empty());
        assert(digit_char(n) as int == n + 48);
        assert(d.last() == digit_char(n));
        assert(digits_value(d) == digits_value(d.drop_last()) * 10 + ((d.last() as int - '0' as int) as nat));
    } else {
        lemma_decimal_spells(n / 10);
        let d = decimal(n);
        assert(d.drop_last() =~= decimal(n / 10));
        assert(digit_char(n % 10) as int == n % 10 + 48);
        assert(d.last() == digit_char(n % 10));
        assert(digits_value(d) == digits_value(d.drop_last()) * 10 + ((d.last() as int - '0' as int) as nat));
        assert((n / 10) * 10 + n % 10 == n) by (nonlinear_arith);
        assert forall|i: int| 0 <= i < d.len() implies '0' <= #[trigger] d[i] && d[i] <= '9' by {
            if i < d.len() - 1 {
                assert(d[i] == decimal(n / 10)[i]);
            }
        }
    }
}

/// `a` and `b` differ somewhere in the length they share.
pub open spec fn clash(a: Seq<char>, b: Seq<char>) -> bool {
    exists|k: int| 0 <= k < a.len() && k < b.len() && a[k] != b[k]
}

/// Where what `replace_all` made begins with `g`, and `to` can begin at no
/// position of `g`, the text it was made from begins with `g` too.
proof fn lemma_replace_prefix(t: Seq<char>, from: Seq<char>, to: Seq<char>, g: Seq<char>)
    requires
        from.len() > 0,
        g.len() <= replace_all(t, from, to).len(),
        replace_all(t, from, to).take(g.len() as int) == g,
        forall|j: int| 0 <= j < g.len() ==> #[trigger] clash(g.skip(j), to),
    ensures
        g.len() <= t.len(),
        t.take(g.len() as int) == g,
    decreases t.len(),
{
    let r = replace_all(t, from, to);
    if g.len() == 0 {
        assert(t.take(0) =~= g);
    } else if t.len() < from.len() {
    } else if t.take(from.len() as int) == from {
        let r2 = replace_all(t.skip(from.len() as int), from, to);
        assert(r == to + r2);
        assert(clash(g.skip(0), to));
        let k = choose|k: int| 0 <= k < g.skip(0).len() && k < to.len() && g.skip(0)[k] != to[k];
        assert(r[k] == to[k]);
        assert(r.take(g.len() as int)[k] == g[k]);
    } else {
        let r2 = replace_all(t.skip(1), from, to);
        assert(r == seq![t[0]] + r2);
        let g2 = g.skip(1);
        assert(r2.take(g2.len() as int) =~= g2) by {
            assert forall|k: int| 0 <= k < g2.len() implies r2[k] == g2[k] by {
                assert(r[k + 1] == r2[k]);
                assert(r.take(g.len() as int)[k + 1] == g[k + 1]);
            }
        }
        assert forall|j: int| 0 <= j < g2.len() implies #[trigger] clash(g2.skip(j), to) by {
            assert(g2.skip(j) =~= g.skip(j + 1));
            assert(clash(g.skip(j + 1), to));
        }
        lemma_replace_prefix(t.skip(1), from, to, g2);
        assert(r.take(g.len() as int)[0] == g[0]);
        assert(t.take(g.len() as int) =~= g) by {
            assert forall|k: int| 0 <= k < g.len() implies t[k] == g[k] by {
                if k > 0 {
                    assert(t.skip(1).take(g2.len() as int)[k - 1] == g2[k - 1]);
                }
            }
        }
    }
}

/// Replacing every occurrence of `from` by `to` leaves none, where no
/// occurrence can straddle the replacement: no tail of `to` agrees with the
/// start of `from`, and no proper tail of `from` agrees with the start of `to`.
pub proof fn lemma_replace_removes(s: Seq<char>, from: Seq<char>, to: Seq<char>)
    requires
        from.len() > 0,
        forall|i: int| 0 <= i < to.len() ==> #[trigger] clash(to.skip(i), from),
        forall|j: int| 1 <= j < from.len() ==> #[trigger] clash(from.skip(j), to),
    ensures
        !contains(replace_all(s, from, to), from),
    decreases s.len(),
{
    let r = replace_all(s, from, to);
    if contains(r, from) {
        let i = choose|i: int| occurs_at(r, from, i);
        if s.len() < from.len() {
        } else if s.take(from.len() as int) == from {
            let r2 = replace_all(s.skip(from.len() as int), from, to);
            assert(r == to + r2);
            if i >= to.len() {
                assert(occurs_at(r2, from, i - to.len())) by {
                    assert(r2.subrange(i - to.len(), i - to.len() + from.len()) =~= r.subrange(i, i + from.len()));
                }
                lemma_replace_removes(s.skip(from.len() as int), from, to);
            } else {
                assert(clash(to.skip(i), from));
                let k = choose|k: int| 0 <= k < to.skip(i).len() && k < from.len() && to.skip(i)[k] != from[k];
                assert(r[i + k] == to[i + k]);
                assert(r.subrange(i, i + from.len())[k] == from[k]);
            }
        } else {
            let r2 = replace_all(s.skip(1), from, to);
            assert(r == seq![s[0]] + r2);
            if i >= 1 {
                assert(occurs_at(r2, from, i - 1)) by {
                    assert(r2.subrange(i - 1, i - 1 + from.len()) =~= r.subrange(i, i + from.len()));
                }
                lemma_replace_removes(s.skip(1), from, to);
            } else {
                let g = from.skip(1);
                assert(r2.take(g.len() as int) =~= g) by {
                    assert forall|k: int| 0 <= k < g.len() implies r2[k] == g[k] by {
                        assert(r[k + 1] == r2[k]);
                        assert(r.subrange(0, from.len() as int)[k + 1] == from[k + 1]);
                    }
                }
                assert forall|j: int| 0 <= j < g.len() implies #[trigger] clash(g.skip(j), to) by {
                    assert(g.skip(j) =~= from.skip(j + 1));
                    assert(clash(from.skip(j + 1), to));
                }
                lemma_replace_prefix(s.skip(1), from, to, g);
                assert(r.subrange(0, from.len() as int)[0] == from[0]);
                assert(s.take(from.len() as int) =~= from) by {
                    assert forall|k: int| 0 <= k < from.len() implies s[k] == from[k] by {
                        if k > 0 {
                            assert(s.skip(1).take(g.len() as int)[k - 1] == g[k - 1]);
                        }
                    }
                }
            }
        }
    }
}

} // verus!
