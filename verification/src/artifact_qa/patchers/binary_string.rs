//! Binary-safe string patcher for embedded paths in executables and libraries.
use vstd::string::StringSliceAdditionalSpecFns;
use vstd::utf8::encode_utf8;
use crate::text::{concat, contains, contains_str, owned, to_chars};
use vstd::prelude::*;

verus! {

/// Binary-safe string patcher for embedded paths.
pub struct BinaryStringPatcher;

/// `needle` occurs in `haystack` at byte offset `i`.
pub open spec fn bytes_at(haystack: Seq<u8>, needle: Seq<u8>, i: int) -> bool {
    0 <= i && i + needle.len() <= haystack.len() && haystack.subrange(i, i + needle.len()) == needle
}

/// The offsets below `k` at which `needle` occurs, in increasing order.
pub open spec fn positions_upto(haystack: Seq<u8>, needle: Seq<u8>, k: nat) -> Seq<usize>
    decreases k,
{
    if k == 0 {
        seq![]
    } else {
        let p = positions_upto(haystack, needle, (k - 1) as nat);
        if bytes_at(haystack, needle, k - 1) {
            p.push((k - 1) as usize)
        } else {
            p
        }
    }
}

/// Every offset at which a non-empty `needle` occurs in `haystack`, in
/// increasing order; none for an empty needle.
pub open spec fn match_positions(haystack: Seq<u8>, needle: Seq<u8>) -> Seq<usize> {
    if needle.len() == 0 || haystack.len() < needle.len() {
        seq![]
    } else {
        positions_upto(haystack, needle, (haystack.len() - needle.len() + 1) as nat)
    }
}

/// The first zero byte at or after `start`, or -1.
pub open spec fn first_zero_from(data: Seq<u8>, start: int) -> int
    decreases data.len() - start,
{
    if start < 0 || start >= data.len() {
        -1
    } else if data[start] == 0 {
        start
    } else {
        first_zero_from(data, start + 1)
    }
}

/// The room a string at `offset` has: up to and including the first zero
/// byte after the old string, or the old string's length where none follows.
pub open spec fn null_alloc_len(data: Seq<u8>, offset: int, old_len: int) -> int {
    let z = first_zero_from(data, offset + old_len);
    if z >= 0 {
        z - offset + 1
    } else {
        old_len
    }
}

/// The room used for a replacement: the given length, or the scanned one.
pub open spec fn alloc_len(data: Seq<u8>, offset: int, old_len: int, allocated: Option<usize>) -> int {
    match allocated {
        Some(l) => l as int,
        None => null_alloc_len(data, offset, old_len),
    }
}

/// `data` with `new` written at `offset` and zeros after it up to
/// `offset + alloc` (or the end of the data).
pub open spec fn patched(data: Seq<u8>, offset: int, new: Seq<u8>, alloc: int) -> Seq<u8> {
    Seq::new(
        data.len(),
        |i: int|
            if offset <= i < offset + new.len() {
                new[i - offset]
            } else if offset + new.len() <= i < offset + alloc {
                0u8
            } else {
                data[i]
            },
    )
}

/// One replacement at `offset`, room found by scanning: the new data, and
/// whether the new string fitted.
pub open spec fn patch_at(data: Seq<u8>, offset: int, old: Seq<u8>, new: Seq<u8>) -> (Seq<u8>, bool) {
    let a = null_alloc_len(data, offset, old.len() as int);
    if new.len() + 1 <= a {
        (patched(data, offset, new, a), true)
    } else {
        (data, false)
    }
}

/// Replacements at the given offsets, in order: the data, whether one was
/// made, whether one was skipped for want of room.
pub open spec fn patch_offsets(data: Seq<u8>, ps: Seq<usize>, old: Seq<u8>, new: Seq<u8>) -> (Seq<u8>, bool, bool)
    decreases ps.len(),
{
    if ps.len() == 0 {
        (data, false, false)
    } else {
        let prev = patch_offsets(data, ps.drop_last(), old, new);
        let step = patch_at(prev.0, ps.last() as int, old, new);
        (step.0, prev.1 || step.1, prev.2 || !step.1)
    }
}

/// Each `(old, new)` pair in turn: every occurrence of `old` (found before
/// that pair's first write) is replaced where the new string fits.
pub open spec fn patch_all(data: Seq<u8>, reps: Seq<(Seq<u8>, Seq<u8>)>) -> (Seq<u8>, bool, bool)
    decreases reps.len(),
{
    if reps.len() == 0 {
        (data, false, false)
    } else {
        let prev = patch_all(data, reps.drop_last());
        let r = reps.last();
        let step = patch_offsets(prev.0, match_positions(prev.0, r.0), r.0, r.1);
        (step.0, prev.1 || step.1, prev.2 || step.2)
    }
}

/// The offsets that `positions_upto` lists are occurrences below `k`, in
/// increasing order, and it lists each such occurrence.
proof fn lemma_positions_upto(haystack: Seq<u8>, needle: Seq<u8>, k: nat)
    requires
        k <= usize::MAX + 1,
    ensures
        forall|j: int| 0 <= j < positions_upto(haystack, needle, k).len()
            ==> #[trigger] positions_upto(haystack, needle, k)[j] < k
                && bytes_at(haystack, needle, positions_upto(haystack, needle, k)[j] as int),
        forall|j: int, l: int| 0 <= j < l < positions_upto(haystack, needle, k).len()
            ==> positions_upto(haystack, needle, k)[j] < positions_upto(haystack, needle, k)[l],
        forall|i: int| 0 <= i < k && bytes_at(haystack, needle, i)
            ==> positions_upto(haystack, needle, k).contains(i as usize),
    decreases k,
{
    if k > 0 {
        lemma_positions_upto(haystack, needle, (k - 1) as nat);
        let p = positions_upto(haystack, needle, (k - 1) as nat);
        if bytes_at(haystack, needle, k - 1) {
            assert(p.push((k - 1) as usize)[p.len() as int] == (k - 1) as usize);
            assert forall|i: int| 0 <= i < k && bytes_at(haystack, needle, i) implies
                p.push((k - 1) as usize).contains(i as usize) by {
                if i < k - 1 {
                    let j = choose|j: int| 0 <= j < p.len() && p[j] == i as usize;
                    assert(p.push((k - 1) as usize)[j] == i as usize);
                } else {
                    assert(p.push((k - 1) as usize)[p.len() as int] == i as usize);
                }
            }
        }
    }
}

/// Every offset `find_binary_strings` returns is an occurrence of the needle,
/// the offsets increase, and every occurrence of a non-empty needle is among
/// them.
pub proof fn lemma_match_positions_exact(haystack: Seq<u8>, needle: Seq<u8>)
    requires
        haystack.len() <= usize::MAX,
    ensures
        forall|j: int| 0 <= j < match_positions(haystack, needle).len()
            ==> bytes_at(haystack, needle, #[trigger] match_positions(haystack, needle)[j] as int),
        forall|j: int, l: int| 0 <= j < l < match_positions(haystack, needle).len()
            ==> match_positions(haystack, needle)[j] < match_positions(haystack, needle)[l],
        forall|i: int| needle.len() > 0 && bytes_at(haystack, needle, i)
            ==> match_positions(haystack, needle).contains(i as usize),
{
    if needle.len() > 0 && haystack.len() >= needle.len() {
        let k = (haystack.len() - needle.len() + 1) as nat;
        lemma_positions_upto(haystack, needle, k);
    }
}

fn bytes_at_exec(haystack: &[u8], needle: &[u8], i: usize) -> (r: bool)
    requires
        i + needle@.len() <= haystack@.len(),
    ensures
        r == bytes_at(haystack@, needle@, i as int),
{
    let n = needle.len();
    let hl = haystack.len();
    for j in 0..n
        invariant
            n == needle@.len(),
            hl == haystack@.len(),
            i + n <= haystack@.len(),
            forall|l: int| 0 <= l < j ==> haystack@[i + l] == needle@[l],
    {
        if haystack[i + j] != needle[j] {
            assert(haystack@.subrange(i as int, i + n)[j as int] != needle@[j as int]);
            return false;
        }
    }
    assert(haystack@.subrange(i as int, i + n) =~= needle@);
    true
}

/// Find all occurrences of needle in haystack and return their byte offsets
pub fn find_binary_strings(haystack: &[u8], needle: &[u8]) -> (r: Vec<usize>)
    ensures
        r@ == match_positions(haystack@, needle@),
{
    let mut positions: Vec<usize> = Vec::new();
    let hl = haystack.len();
    let nl = needle.len();
    if nl == 0 || hl < nl {
        return positions;
    }
    let end = hl - nl + 1;
    for i in 0..end
        invariant
            hl == haystack@.len(),
            nl == needle@.len(),
            nl >= 1,
            end == hl - nl + 1,
            positions@ == positions_upto(haystack@, needle@, i as nat),
    {
        if bytes_at_exec(haystack, needle, i) {
            positions.push(i);
        }
    }
    positions
}

/// Replace a string in binary data with null-padding to maintain file
/// structure: writes `new_str` at `offset` and zeros up to the room the old
/// string had (the given length, or up to and including the first zero byte
/// after the old string); returns `false`, changing nothing, when the new
/// string and its terminator do not fit.
pub fn replace_binary_string(
    data: &mut [u8],
    offset: usize,
    old_str: &str,
    new_str: &str,
    allocated_len: Option<usize>,
) -> (r: bool)
    requires
        new_str.spec_bytes().len() < usize::MAX,
        allocated_len is None ==> offset + old_str.spec_bytes().len() <= usize::MAX,
        ({
            let a = alloc_len(old(data)@, offset as int, old_str.spec_bytes().len() as int, allocated_len);
            new_str.spec_bytes().len() + 1 <= a ==> offset + new_str.spec_bytes().len() <= old(data)@.len()
                && offset + a <= usize::MAX
        }),
    ensures
        ({
            let a = alloc_len(old(data)@, offset as int, old_str.spec_bytes().len() as int, allocated_len);
            &&& r == (new_str.spec_bytes().len() + 1 <= a)
            &&& r ==> final(data)@ == patched(old(data)@, offset as int, new_str.spec_bytes(), a)
            &&& !r ==> final(data)@ == old(data)@
        }),
{
    let old_bytes = old_str.as_bytes();
    let new_bytes = new_str.as_bytes();
    let dl = data.len();
    let alloc = match allocated_len {
        Some(len) => len,
        None => {
            let start = offset + old_bytes.len();
            let mut len = old_bytes.len();
            let mut i = start;
            let mut found = false;
            let ghost d = data@;
            while i < dl && !found
                invariant
                    dl == d.len(),
                    d == data@,
                    start <= i,
                    start == offset + old_bytes@.len(),
                    !found ==> len == old_bytes@.len() && first_zero_from(d, start as int) == first_zero_from(d, i as int),
                    found ==> first_zero_from(d, start as int) >= 0
                        && len == first_zero_from(d, start as int) - offset + 1,
                decreases dl - i,
            {
                if data[i] == 0 {
                    len = i - offset + 1;
                    found = true;
                }
                i = i + 1;
            }
            proof {
                if !found {
                    assert(first_zero_from(d, i as int) == -1);
                }
            }
            len
        },
    };
    assert(alloc == alloc_len(data@, offset as int, old_bytes@.len() as int, allocated_len));
    if new_bytes.len() + 1 > alloc {
        return false;
    }
    let ghost d0 = data@;
    let nl = new_bytes.len();
    for j in 0..nl
        invariant
            nl == new_bytes@.len(),
            dl == d0.len(),
            offset + nl <= d0.len(),
            data@.len() == d0.len(),
            forall|l: int| 0 <= l < data@.len() ==> data@[l] == (if offset <= l < offset + j {
                new_bytes@[l - offset]
            } else {
                d0[l]
            }),
    {
        data[offset + j] = new_bytes[j];
    }
    let end = offset + alloc;
    let mut i = offset + nl;
    while i < end
        invariant
            offset + nl <= i <= end,
            nl + 1 <= alloc,
            nl == new_bytes@.len(),
            end == offset + alloc,
            data@.len() == d0.len(),
            forall|l: int| 0 <= l < data@.len() ==> data@[l] == (if offset <= l < offset + nl {
                new_bytes@[l - offset]
            } else if offset + nl <= l < i {
                0u8
            } else {
                d0[l]
            }),
        decreases end - i,
    {
        if i < data.len() {
            data[i] = 0;
        }
        i = i + 1;
    }
    assert(data@ =~= patched(d0, offset as int, new_bytes@, alloc as int));
    true
}

/// The replacement pairs as byte strings.
pub open spec fn replacement_bytes(reps: Seq<(String, String)>) -> Seq<(Seq<u8>, Seq<u8>)> {
    reps.map_values(|p: (String, String)| (encode_utf8(p.0@), encode_utf8(p.1@)))
}

/// A zero byte found from `start` lies between `start` and the end.
proof fn lemma_first_zero_bounds(data: Seq<u8>, start: int)
    requires
        start >= 0,
    ensures
        first_zero_from(data, start) >= 0 ==> start <= first_zero_from(data, start) < data.len(),
    decreases data.len() - start,
{
    if start < data.len() && data[start] != 0 {
        lemma_first_zero_bounds(data, start + 1);
    }
}

/// Replacements keep the data's length.
proof fn lemma_patch_offsets_len(data: Seq<u8>, ps: Seq<usize>, old: Seq<u8>, new: Seq<u8>)
    ensures
        patch_offsets(data, ps, old, new).0.len() == data.len(),
    decreases ps.len(),
{
    if ps.len() > 0 {
        lemma_patch_offsets_len(data, ps.drop_last(), old, new);
    }
}

/// Replaces each `(old, new)` pair of paths throughout the data, in the
/// given order (the data is what was read from a binary file): returns
/// whether any replacement was made and whether any was skipped because the
/// new path did not fit.
pub fn patch_binary_data(data: &mut Vec<u8>, replacements: &Vec<(String, String)>) -> (r: (bool, bool))
    requires
        forall|k: int| 0 <= k < replacements@.len() ==> encode_utf8(#[trigger] replacements@[k].1@).len() < usize::MAX,
    ensures
        (final(data)@, r.0, r.1) == patch_all(old(data)@, replacement_bytes(replacements@)),
{
    let mut any_patched = false;
    let mut any_skipped = false;
    let ghost reps = replacement_bytes(replacements@);
    for k in 0..replacements.len()
        invariant
            reps == replacement_bytes(replacements@),
            forall|k: int| 0 <= k < replacements@.len() ==> encode_utf8(#[trigger] replacements@[k].1@).len() < usize::MAX,
            (data@, any_patched, any_skipped) == patch_all(old(data)@, reps.take(k as int)),
    {
        let old_s = replacements[k].0.as_str();
        let new_s = replacements[k].1.as_str();
        let ghost dk = data@;
        let ghost pk = any_patched;
        let ghost sk = any_skipped;
        let positions = find_binary_strings(data.as_slice(), old_s.as_bytes());
        let dlen = data.len();
        proof {
            assert(reps.take(k + 1).drop_last() == reps.take(k as int));
            lemma_match_positions_exact(dk, old_s.spec_bytes());
        }
        let mut p = false;
        let mut sk2 = false;
        for j in 0..positions.len()
            invariant
                dlen == dk.len(),
                encode_utf8(new_s@).len() < usize::MAX,
                forall|j: int| 0 <= j < positions@.len()
                    ==> bytes_at(dk, old_s.spec_bytes(), #[trigger] positions@[j] as int),
                (data@, p, sk2) == patch_offsets(dk, positions@.take(j as int), old_s.spec_bytes(), new_s.spec_bytes()),
        {
            proof {
                assert(positions@.take(j + 1).drop_last() == positions@.take(j as int));
                lemma_patch_offsets_len(dk, positions@.take(j as int), old_s.spec_bytes(), new_s.spec_bytes());
                assert(bytes_at(dk, old_s.spec_bytes(), positions@[j as int] as int));
                lemma_first_zero_bounds(data@, positions@[j as int] + old_s.spec_bytes().len());
            }
            let ok = replace_binary_string(data.as_mut_slice(), positions[j], old_s, new_s, None);
            if ok {
                p = true;
            } else {
                sk2 = true;
            }
        }
        proof {
            assert(positions@.take(positions@.len() as int) == positions@);
        }
        any_patched = any_patched || p;
        any_skipped = any_skipped || sk2;
    }
    proof {
        assert(reps.take(replacements@.len() as int) == reps);
    }
    (any_patched, any_skipped)
}

/// The file name's extension (the text after its last dot, where that dot
/// does not begin the name) is `a` in either case: a static archive.
pub open spec fn has_archive_extension(name: Seq<char>) -> bool {
    name.len() >= 3 && name[name.len() - 2] == '.' && (name.last() == 'a' || name.last() == 'A')
}

/// A file name that marks a binary: a shared library (`.so`, also
/// versioned, or `.dylib`) or a static archive.
pub open spec fn has_binary_name(name: Seq<char>) -> bool {
    contains(name, ".so"@) || contains(name, ".dylib"@) || has_archive_extension(name)
}

/// Whether a file name marks a binary to patch.
pub fn has_binary_extension(name: &str) -> (r: bool)
    ensures
        r == has_binary_name(name@),
{
    let v = to_chars(name);
    let n = v.len();
    let archive = n >= 3 && v[n - 2] == '.' && (v[n - 1] == 'a' || v[n - 1] == 'A');
    contains_str(v.as_slice(), ".so") || contains_str(v.as_slice(), ".dylib") || archive
}

/// A file is patched when its name marks a binary or it is a Mach-O file;
/// a name that is not valid UTF-8 (`None`) marks nothing.
pub fn is_binary_file(file_name: Option<&str>, is_macho: bool) -> (r: bool)
    ensures
        r == ((file_name matches Some(n) && has_binary_name(n@)) || is_macho),
{
    let by_name = match file_name {
        Some(n) => has_binary_extension(n),
        None => false,
    };
    by_name || is_macho
}

/// The paths that embedded build paths are rewritten to, most specific
/// first: `<prefix>/src`, then the build prefix, then `/opt/pm/build`, each
/// to the live prefix `/opt/pm/live`.
pub fn binary_replacements(build_prefix: &str) -> (r: Vec<(String, String)>)
    ensures
        r@.len() == 3,
        r@[0].0@ == build_prefix@ + "/src"@,
        r@[1].0@ == build_prefix@,
        r@[2].0@ == "/opt/pm/build"@,
        forall|k: int| 0 <= k < 3 ==> (#[trigger] r@[k]).1@ == "/opt/pm/live"@,
{
    let mut r: Vec<(String, String)> = Vec::new();
    r.push((concat(build_prefix, "/src"), owned("/opt/pm/live")));
    r.push((owned(build_prefix), owned("/opt/pm/live")));
    r.push((owned("/opt/pm/build"), owned("/opt/pm/live")));
    r
}

/// `needle` occurs somewhere in `haystack`.
pub open spec fn bytes_occur(haystack: Seq<u8>, needle: Seq<u8>) -> bool {
    exists|i: int| bytes_at(haystack, needle, i)
}

/// Whether `needle` occurs in `haystack`.
pub fn contains_bytes(haystack: &[u8], needle: &[u8]) -> (r: bool)
    ensures
        r == bytes_occur(haystack@, needle@),
{
    let hl = haystack.len();
    let nl = needle.len();
    if nl > hl {
        assert forall|i: int| !bytes_at(haystack@, needle@, i) by {}
        return false;
    }
    if nl == 0 {
        assert(haystack@.subrange(0, 0) =~= needle@);
        assert(bytes_at(haystack@, needle@, 0));
        return true;
    }
    let end = hl - nl + 1;
    for i in 0..end
        invariant
            hl == haystack@.len(),
            nl == needle@.len(),
            1 <= nl <= hl,
            end == hl - nl + 1,
            forall|j: int| 0 <= j < i ==> !bytes_at(haystack@, needle@, j),
    {
        if bytes_at_exec(haystack, needle, i) {
            return true;
        }
    }
    assert forall|j: int| !bytes_at(haystack@, needle@, j) by {
        if 0 <= j < end {
        }
    }
    false
}

} // verus!
