//! Paths as text: the components, file name and extension that `std::path`
//! gives a `/`-separated path.
use crate::text::{chars_eq, copy_chars, eq_str, join_with, split_char, split_done, split_on, split_tail, to_chars, views};
use vstd::prelude::*;

verus! {

/// A piece between slashes that names something: not empty and not `.`.
pub open spec fn is_named_component(c: Seq<char>) -> bool {
    c.len() > 0 && c != "."@
}

/// The pieces of `cs` that name something, in order.
pub open spec fn named(cs: Seq<Seq<char>>) -> Seq<Seq<char>>
    decreases cs.len(),
{
    if cs.len() == 0 {
        seq![]
    } else if is_named_component(cs.last()) {
        named(cs.drop_last()).push(cs.last())
    } else {
        named(cs.drop_last())
    }
}

/// The components of a path, without the root, empty pieces and `.`.
pub open spec fn path_components(p: Seq<char>) -> Seq<Seq<char>> {
    named(split_char(p, '/'))
}

/// `Path::file_name`: the last component, unless there is none or it is `..`.
pub open spec fn file_name_of(p: Seq<char>) -> Option<Seq<char>> {
    let cs = path_components(p);
    if cs.len() == 0 || cs.last() == ".."@ {
        None
    } else {
        Some(cs.last())
    }
}

/// The index of the last `.` in `s`, or -1.
pub open spec fn last_dot(s: Seq<char>) -> int
    decreases s.len(),
{
    if s.len() == 0 {
        -1
    } else if s.last() == '.' {
        s.len() - 1
    } else {
        last_dot(s.drop_last())
    }
}

/// `Path::extension`: the text after the last dot of the file name, where
/// that dot does not begin the name.
pub open spec fn extension_of(p: Seq<char>) -> Option<Seq<char>> {
    match file_name_of(p) {
        Some(name) => if last_dot(name) > 0 {
            Some(name.skip(last_dot(name) + 1))
        } else {
            None
        },
        None => None,
    }
}

/// The components of a path.
pub fn components(p: &str) -> (r: Vec<Vec<char>>)
    ensures
        views(r@) == path_components(p@),
{
    let v = to_chars(p);
    let pieces = split_on(v.as_slice(), '/');
    let dot = to_chars(".");
    let mut r: Vec<Vec<char>> = Vec::new();
    for i in 0..pieces.len()
        invariant
            dot@ == "."@,
            views(pieces@) == split_char(v@, '/'),
            v@ == p@,
            views(r@) == named(views(pieces@).take(i as int)),
    {
        proof {
            assert(views(pieces@).take(i + 1).drop_last() == views(pieces@).take(i as int));
        }
        if pieces[i].len() > 0 && !chars_eq(pieces[i].as_slice(), dot.as_slice()) {
            r.push(pieces[i].clone());
            assert(views(r@) =~= named(views(pieces@).take(i as int)).push(pieces@[i as int]@));
        }
    }
    assert(views(pieces@).take(pieces@.len() as int) == views(pieces@));
    r
}

/// The file name of a path, if it has one.
pub fn file_name(p: &str) -> (r: Option<Vec<char>>)
    ensures
        match r {
            Some(n) => file_name_of(p@) == Some(n@),
            None => file_name_of(p@) is None,
        },
{
    let cs = components(p);
    let n = cs.len();
    if n == 0 || eq_str(cs[n - 1].as_slice(), "..") {
        None
    } else {
        Some(cs[n - 1].clone())
    }
}

fn last_dot_exec(s: &[char]) -> (r: Option<usize>)
    ensures
        match r {
            Some(i) => last_dot(s@) == i && i < s@.len(),
            None => last_dot(s@) == -1,
        },
{
    let mut i = s.len();
    assert(s@.take(i as int) == s@);
    while i > 0
        invariant
            i <= s@.len(),
            last_dot(s@) == last_dot(s@.take(i as int)),
        decreases i,
    {
        proof {
            assert(s@.take(i as int).drop_last() == s@.take(i - 1));
        }
        if s[i - 1] == '.' {
            return Some(i - 1);
        }
        i = i - 1;
    }
    None
}

/// The extension of a path, if it has one.
pub fn extension(p: &str) -> (r: Option<Vec<char>>)
    ensures
        match r {
            Some(e) => extension_of(p@) == Some(e@),
            None => extension_of(p@) is None,
        },
{
    match file_name(p) {
        Some(name) => {
            let _len = name.len();
            match last_dot_exec(name.as_slice()) {
                Some(i) => if i > 0 {
                    Some(crate::text::skip_chars(name.as_slice(), i + 1))
                } else {
                    None
                },
                None => None,
            }
        },
        None => None,
    }
}

/// `Path::components`, with the root written `/` and a leading `.` kept.
pub open spec fn full_components(p: Seq<char>) -> Seq<Seq<char>> {
    if p.len() > 0 && p[0] == '/' {
        seq!["/"@] + path_components(p)
    } else if split_char(p, '/')[0] == "."@ {
        seq!["."@] + path_components(p)
    } else {
        path_components(p)
    }
}

/// `Path::starts_with`: the components of `base` begin those of `p`.
pub open spec fn path_starts_with(p: Seq<char>, base: Seq<char>) -> bool {
    full_components(base).len() <= full_components(p).len()
        && full_components(p).take(full_components(base).len() as int) == full_components(base)
}

/// `Path::join` with a relative name: the name after a separator.
pub open spec fn path_join(base: Seq<char>, name: Seq<char>) -> Seq<char> {
    if base.len() == 0 {
        name
    } else if base.last() == '/' {
        base + name
    } else {
        base + "/"@ + name
    }
}

/// Splitting at a separator between two texts splits each of them.
pub proof fn lemma_split_around(a: Seq<char>, x: Seq<char>, sep: char)
    ensures
        split_char(a + seq![sep] + x, sep) == split_char(a, sep) + split_char(x, sep),
    decreases x.len(),
{
    let s = a + seq![sep];
    assert(s.drop_last() =~= a);
    if x.len() == 0 {
        assert(s + x =~= s);
        assert(split_tail(x, sep) =~= Seq::<char>::empty());
        assert(split_done(x, sep) =~= Seq::<Seq<char>>::empty());
        assert(split_char(x, sep) =~= seq![Seq::<char>::empty()]);
    } else {
        lemma_split_around(a, x.drop_last(), sep);
        let x0 = x.drop_last();
        assert(s + x =~= (s + x0).push(x.last()));
        assert((s + x).drop_last() =~= s + x0);
        assert(x.drop_last() =~= x0);
        // the pieces so far: those of `a`, then those of `x0`
        assert(split_done(s + x0, sep) =~= split_char(a, sep) + split_done(x0, sep)) by {
            lemma_split_done_around(a, x0, sep);
        }
        assert(split_tail(s + x0, sep) == split_tail(x0, sep)) by {
            lemma_split_done_around(a, x0, sep);
        }
        if x.last() == sep {
            assert(split_done(s + x, sep) =~= split_char(a, sep) + split_done(x, sep));
        } else {
            assert(split_done(s + x, sep) =~= split_char(a, sep) + split_done(x, sep));
        }
        assert(split_char(s + x, sep) =~= split_char(a, sep) + split_char(x, sep));
    }
}

/// A text without the separator is one piece.
pub proof fn lemma_split_single(x: Seq<char>, sep: char)
    requires
        !x.contains(sep),
    ensures
        split_char(x, sep) == seq![x],
    decreases x.len(),
{
    lemma_split_pieces_single(x, sep);
    assert(split_char(x, sep) =~= seq![x]);
}

proof fn lemma_split_pieces_single(x: Seq<char>, sep: char)
    requires
        !x.contains(sep),
    ensures
        split_done(x, sep) == Seq::<Seq<char>>::empty(),
        split_tail(x, sep) == x,
    decreases x.len(),
{
    if x.len() > 0 {
        let x0 = x.drop_last();
        assert(!x0.contains(sep)) by {
            if x0.contains(sep) {
                let i = choose|i: int| 0 <= i < x0.len() && x0[i] == sep;
                assert(x[i] == sep);
            }
        }
        lemma_split_pieces_single(x0, sep);
        assert(x.last() != sep) by {
            assert(x[x.len() - 1] == x.last());
        }
        assert(split_tail(x, sep) =~= x);
    }
}

/// The closed pieces and the open tail after a separator that follows `a`.
proof fn lemma_split_done_around(a: Seq<char>, x: Seq<char>, sep: char)
    ensures
        split_done(a + seq![sep] + x, sep) == split_char(a, sep) + split_done(x, sep),
        split_tail(a + seq![sep] + x, sep) == split_tail(x, sep),
    decreases x.len(),
{
    let s = a + seq![sep];
    assert(s.drop_last() =~= a);
    if x.len() == 0 {
        assert(s + x =~= s);
        assert(split_done(x, sep) =~= Seq::<Seq<char>>::empty());
        assert(split_done(s, sep) =~= split_char(a, sep));
    } else {
        let x0 = x.drop_last();
        lemma_split_done_around(a, x0, sep);
        assert((s + x).drop_last() =~= s + x0);
        assert((s + x).last() == x.last());
        assert(split_done(s + x, sep) =~= split_char(a, sep) + split_done(x, sep));
    }
}

/// The named pieces of two lists are those of each in turn.
proof fn lemma_named_concat(s: Seq<Seq<char>>, t: Seq<Seq<char>>)
    ensures
        named(s + t) == named(s) + named(t),
    decreases t.len(),
{
    if t.len() == 0 {
        assert(s + t =~= s);
        assert(named(s) + named(t) =~= named(s));
    } else {
        lemma_named_concat(s, t.drop_last());
        assert((s + t).drop_last() =~= s + t.drop_last());
        assert((s + t).last() == t.last());
        assert(named(s + t) =~= named(s) + named(t));
    }
}

proof fn lemma_named_empty_piece()
    ensures
        named(seq![Seq::<char>::empty()]) == Seq::<Seq<char>>::empty(),
{
    let cs = seq![Seq::<char>::empty()];
    assert(cs.drop_last() =~= Seq::<Seq<char>>::empty());
    assert(!is_named_component(cs.last()));
    assert(named(Seq::<Seq<char>>::empty()) == Seq::<Seq<char>>::empty());
}

/// Joining a name onto a path adds the name's components after the path's.
pub proof fn lemma_join_components(base: Seq<char>, name: Seq<char>)
    requires
        base.len() > 0,
    ensures
        full_components(path_join(base, name)) == full_components(base) + path_components(name),
{
    reveal_strlit("/");
    let j = path_join(base, name);
    if base.last() == '/' {
        let a0 = base.drop_last();
        assert(base =~= a0 + seq!['/'] + Seq::<char>::empty());
        assert(j =~= a0 + seq!['/'] + name);
        lemma_split_around(a0, name, '/');
        lemma_split_around(a0, Seq::<char>::empty(), '/');
        assert(split_char(Seq::<char>::empty(), '/') =~= seq![Seq::<char>::empty()]) by {
            assert(split_done(Seq::<char>::empty(), '/') =~= Seq::<Seq<char>>::empty());
        }
        lemma_named_concat(split_char(a0, '/'), split_char(name, '/'));
        lemma_named_concat(split_char(a0, '/'), seq![Seq::<char>::empty()]);
        lemma_named_empty_piece();
        assert(path_components(base) =~= named(split_char(a0, '/')));
        assert(path_components(j) =~= path_components(base) + path_components(name));
        assert(split_char(a0, '/').len() > 0);
        assert(split_char(j, '/')[0] == split_char(base, '/')[0]);
        assert(j[0] == base[0]);
    } else {
        assert(j =~= base + seq!['/'] + name);
        lemma_split_around(base, name, '/');
        lemma_named_concat(split_char(base, '/'), split_char(name, '/'));
        assert(split_char(base, '/').len() > 0);
        assert(split_char(j, '/')[0] == split_char(base, '/')[0]);
        assert(j[0] == base[0]);
    }
    assert(full_components(j) =~= full_components(base) + path_components(name));
}

/// A path joined onto a base lies under the base.
pub proof fn lemma_join_under(base: Seq<char>, name: Seq<char>)
    ensures
        path_starts_with(path_join(base, name), base),
{
    if base.len() > 0 {
        lemma_join_components(base, name);
        let fb = full_components(base);
        assert((fb + path_components(name)).take(fb.len() as int) =~= fb);
    } else {
        assert(split_char(base, '/') =~= seq![Seq::<char>::empty()]) by {
            assert(split_done(base, '/') =~= Seq::<Seq<char>>::empty());
            assert(split_tail(base, '/') =~= Seq::<char>::empty());
        }
        lemma_named_empty_piece();
        reveal_strlit(".");
        assert(split_char(base, '/')[0] =~= Seq::<char>::empty());
        assert("."@.len() == 1);
        assert(split_char(base, '/')[0] != "."@);
        assert(full_components(base) =~= Seq::<Seq<char>>::empty());
        assert(full_components(path_join(base, name)).take(0) =~= Seq::<Seq<char>>::empty());
    }
}

fn full_components_exec(p: &str) -> (r: Vec<Vec<char>>)
    ensures
        views(r@) == full_components(p@),
{
    let v = to_chars(p);
    let pieces = split_on(v.as_slice(), '/');
    let cs = components(p);
    let mut r: Vec<Vec<char>> = Vec::new();
    if v.len() > 0 && v[0] == '/' {
        r.push(to_chars("/"));
    } else if eq_str(pieces[0].as_slice(), ".") {
        r.push(to_chars("."));
    }
    let ghost head = views(r@);
    for i in 0..cs.len()
        invariant
            views(r@) == head + views(cs@).take(i as int),
    {
        let c = copy_chars(cs[i].as_slice());
        let ghost prev = r@;
        r.push(c);
        assert(views(r@) =~= views(prev).push(cs@[i as int]@));
        assert(views(cs@).take(i + 1) =~= views(cs@).take(i as int).push(cs@[i as int]@));
        assert(views(r@) =~= head + views(cs@).take(i + 1));
    }
    assert(views(cs@).take(cs@.len() as int) == views(cs@));
    r
}

/// Whether `p` lies at or below `base`, component by component.
pub fn starts_with_path(p: &str, base: &str) -> (r: bool)
    ensures
        r == path_starts_with(p@, base@),
{
    let pc = full_components_exec(p);
    let bc = full_components_exec(base);
    if bc.len() > pc.len() {
        return false;
    }
    for i in 0..bc.len()
        invariant
            bc@.len() <= pc@.len(),
            views(pc@) == full_components(p@),
            views(bc@) == full_components(base@),
            forall|j: int| 0 <= j < i ==> views(pc@)[j] == views(bc@)[j],
    {
        if !chars_eq(pc[i].as_slice(), bc[i].as_slice()) {
            assert(views(pc@).take(bc@.len() as int)[i as int] != views(bc@)[i as int]);
            return false;
        }
    }
    assert(views(pc@).take(bc@.len() as int) =~= views(bc@));
    true
}

/// Joins a relative name onto a path.
pub fn join(base: &str, name: &str) -> (r: String)
    ensures
        r@ == path_join(base@, name@),
{
    let mut v = to_chars(base);
    let n = to_chars(name);
    if v.len() == 0 {
        return crate::text::from_chars(n.as_slice());
    }
    if v[v.len() - 1] != '/' {
        v.push('/');
        proof {
            reveal_strlit("/");
        }
    }
    crate::text::push_all(&mut v, n.as_slice());
    crate::text::from_chars(v.as_slice())
}

/// `Path::join` with any name: an absolute name replaces the base, a
/// relative one goes after a separator.
pub open spec fn path_join_full(base: Seq<char>, name: Seq<char>) -> Seq<char> {
    if name.len() > 0 && name[0] == '/' {
        name
    } else {
        path_join(base, name)
    }
}

/// Joins a name onto a path; an absolute name replaces it.
pub fn join_full(base: &str, name: &str) -> (r: String)
    ensures
        r@ == path_join_full(base@, name@),
{
    let n = to_chars(name);
    if n.len() > 0 && n[0] == '/' {
        crate::text::from_chars(n.as_slice())
    } else {
        join(base, name)
    }
}

/// Components written back as a path: the root, then the rest joined by `/`.
pub open spec fn render_components(cs: Seq<Seq<char>>) -> Seq<char> {
    if cs.len() == 0 {
        Seq::empty()
    } else if cs[0] == "/"@ {
        "/"@ + join_with(cs.skip(1), "/"@)
    } else {
        join_with(cs, "/"@)
    }
}

/// `Path::parent`: the path without its last component; none for the root
/// and for the empty path.
pub open spec fn parent_of(p: Seq<char>) -> Option<Seq<char>> {
    let cs = full_components(p);
    if cs.len() == 0 || cs.last() == "/"@ {
        None
    } else {
        Some(render_components(cs.drop_last()))
    }
}

/// The parent of a path, if it has one.
pub fn parent(p: &str) -> (r: Option<String>)
    ensures
        opt_string_view(r) == parent_of(p@),
{
    let cs = full_components_exec(p);
    if cs.len() == 0 {
        return None;
    }
    let last = &cs[cs.len() - 1];
    if eq_str(last.as_slice(), "/") {
        return None;
    }
    let n = cs.len() - 1;
    let rooted = n > 0 && eq_str(cs[0].as_slice(), "/");
    let start: usize = if rooted { 1 } else { 0 };
    let mut rest: Vec<String> = Vec::new();
    let mut i = start;
    while i < n
        invariant
            start <= i <= n,
            n < cs@.len(),
            crate::text::string_views(rest@) == views(cs@).subrange(start as int, i as int),
        decreases n - i,
    {
        let ghost prev = rest@;
        rest.push(crate::text::from_chars(cs[i].as_slice()));
        assert(crate::text::string_views(rest@) =~= crate::text::string_views(prev).push(cs@[i as int]@));
        assert(views(cs@).subrange(start as int, i + 1) =~= views(cs@).subrange(start as int, i as int).push(cs@[i as int]@));
        i = i + 1;
    }
    let ghost init = views(cs@).drop_last();
    assert(n > 0 ==> init[0] == cs@[0]@);
    assert(views(cs@).last() == cs@[n as int]@);
    let joined = crate::text::join_strings(&rest, "/");
    if rooted {
        assert(views(cs@).subrange(1, n as int) =~= init.skip(1));
        Some(crate::text::concat("/", joined.as_str()))
    } else {
        assert(views(cs@).subrange(0, n as int) =~= init);
        Some(joined)
    }
}

/// The view of an optional string.
pub open spec fn opt_string_view(o: Option<String>) -> Option<Seq<char>> {
    match o {
        Some(s) => Some(s@),
        None => None,
    }
}

} // verus!
