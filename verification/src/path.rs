//! Paths as the library models them: a path is a string of characters whose
//! components are separated by `/`.

use vstd::prelude::*;
use vstd::string::*;

verus! {

/// Whether the path starts at the root.
pub open spec fn has_root(p: Seq<char>) -> bool {
    p.len() > 0 && p[0] == '/'
}

/// The pieces of `p` between its separators, empty pieces included.
pub open spec fn segments(p: Seq<char>) -> Seq<Seq<char>>
    decreases p.len(),
{
    if p.len() == 0 {
        seq![Seq::<char>::empty()]
    } else {
        let before = segments(p.drop_last());
        if p.last() == '/' {
            before.push(Seq::<char>::empty())
        } else {
            before.drop_last().push(before.last().push(p.last()))
        }
    }
}

/// Whether the piece `s`, the `index`-th of its path, names a component:
/// an empty piece never does, and `.` only where a relative path starts with it.
pub open spec fn names_component(rooted: bool, index: int, s: Seq<char>) -> bool {
    s.len() > 0 && !(s =~= seq!['.'] && (rooted || index > 0))
}

/// The pieces of `segs` that name a component, in order.
pub open spec fn named(rooted: bool, segs: Seq<Seq<char>>) -> Seq<Seq<char>>
    decreases segs.len(),
{
    if segs.len() == 0 {
        Seq::<Seq<char>>::empty()
    } else {
        let before = named(rooted, segs.drop_last());
        if names_component(rooted, segs.len() - 1, segs.last()) {
            before.push(segs.last())
        } else {
            before
        }
    }
}

/// The components of a path: the root, if the path starts there, then every
/// piece that names a component. Repeated and trailing separators add nothing.
pub open spec fn components(p: Seq<char>) -> Seq<Seq<char>> {
    let rest = named(has_root(p), segments(p));
    if has_root(p) {
        seq![seq!['/']] + rest
    } else {
        rest
    }
}

/// The depth of a path: the number of its components.
pub open spec fn depth_of(p: Seq<char>) -> nat {
    components(p).len()
}

/// Whether `a` lies strictly above `b`: the components of `a` are the first
/// components of `b`, and `b` has more.
pub open spec fn is_strict_prefix(a: Seq<char>, b: Seq<char>) -> bool {
    let ca = components(a);
    let cb = components(b);
    ca.len() < cb.len() && cb.subrange(0, ca.len() as int) =~= ca
}

/// The last piece of the path that names a component, unless it is `.` or
/// `..`: the name under which the path's target goes in its directory.
pub open spec fn file_name_of(p: Seq<char>) -> Option<Seq<char>> {
    let pieces = named(has_root(p), segments(p));
    if pieces.len() == 0 {
        None
    } else if pieces.last() =~= seq!['.'] || pieces.last() =~= seq!['.', '.'] {
        None
    } else {
        Some(pieces.last())
    }
}

/// `rel` appended to `base`: a rooted `rel` replaces `base`; otherwise one
/// separator stands between the two unless `base` is empty or ends in one.
pub open spec fn join_spec(base: Seq<char>, rel: Seq<char>) -> Seq<char> {
    if has_root(rel) {
        rel
    } else if base.len() == 0 || base.last() == '/' {
        base + rel
    } else {
        base + seq!['/'] + rel
    }
}

/// Whether the name holds no separator, as the name of a directory entry does.
pub open spec fn is_plain_name(name: Seq<char>) -> bool {
    forall|i: int| 0 <= i < name.len() ==> name[i] != '/'
}

/// A path strictly above another is strictly shallower.
pub proof fn lemma_prefix_is_shallower(a: Seq<char>, b: Seq<char>)
    requires
        is_strict_prefix(a, b),
    ensures
        depth_of(a) < depth_of(b),
{
}

/// A path has one piece at least.
pub proof fn lemma_segments_nonempty(p: Seq<char>)
    ensures
        segments(p).len() >= 1,
    decreases p.len(),
{
    if p.len() > 0 {
        lemma_segments_nonempty(p.drop_last());
    }
}

/// Characters other than the separator lengthen the last piece of a path and
/// leave the pieces before it alone.
pub proof fn lemma_segments_append(p: Seq<char>, name: Seq<char>)
    requires
        is_plain_name(name),
    ensures
        segments(p).len() >= 1,
        segments(p + name) == segments(p).drop_last().push(segments(p).last() + name),
    decreases name.len(),
{
    lemma_segments_nonempty(p);
    let s = segments(p);
    if name.len() == 0 {
        assert(p + name =~= p);
        assert(s.last() + name =~= s.last());
        assert(s.drop_last().push(s.last()) =~= s);
    } else {
        let shorter = name.drop_last();
        let c = name.last();
        lemma_segments_append(p, shorter);
        let whole = p + name;
        assert(whole.drop_last() =~= p + shorter);
        assert(whole.last() == c);
        let before = segments(p + shorter);
        assert(before.drop_last() =~= s.drop_last());
        assert(before.last().push(c) =~= s.last() + name);
    }
}

/// An entry lies strictly below its directory. Where `name` is a single name
/// (not empty, without separator, not `.`), the components of `name` appended
/// to `dir` are those of `dir` and then `name`; so the entry is one deeper
/// than `dir`, and `dir` lies strictly above it.
pub proof fn lemma_entry_lies_below(dir: Seq<char>, name: Seq<char>)
    requires
        name.len() > 0,
        is_plain_name(name),
        !(name =~= seq!['.']),
    ensures
        components(join_spec(dir, name)) == components(dir).push(name),
        depth_of(join_spec(dir, name)) == depth_of(dir) + 1,
        is_strict_prefix(dir, join_spec(dir, name)),
{
    let joined = join_spec(dir, name);
    let s = segments(dir);
    lemma_segments_nonempty(dir);
    assert(!has_root(name));
    if dir.len() == 0 {
        assert(joined =~= name);
        assert(dir =~= Seq::<char>::empty());
        lemma_segments_append(dir, name);
        assert(dir + name =~= name);
        assert(s =~= seq![Seq::<char>::empty()]);
        let t = segments(name);
        assert(t =~= seq![name]) by {
            assert(s.drop_last() =~= Seq::<Seq<char>>::empty());
            assert(s.last() + name =~= name);
        }
        assert(t.drop_last() =~= Seq::<Seq<char>>::empty());
        assert(s.drop_last() =~= Seq::<Seq<char>>::empty());
        assert(named(false, Seq::<Seq<char>>::empty()) =~= Seq::<Seq<char>>::empty());
        assert(t.last() == name);
        assert(t.len() == 1);
        assert(names_component(false, 0, name));
        assert(named(false, t) =~= seq![name]);
        assert(s.last() =~= Seq::<char>::empty());
        assert(named(false, s) =~= Seq::<Seq<char>>::empty());
        assert(components(joined) =~= components(dir).push(name));
    } else {
        let rooted = has_root(dir);
        if dir.last() == '/' {
            assert(joined == dir + name);
            assert(has_root(joined) == rooted);
            lemma_segments_append(dir, name);
            lemma_segments_nonempty(dir.drop_last());
            assert(s.last() =~= Seq::<char>::empty());
            assert(s.last() + name =~= name);
            let t = segments(joined);
            assert(t == s.drop_last().push(name));
            assert(t.drop_last() =~= s.drop_last());
            assert(t.last() == name);
            assert(s.len() >= 2);
            assert(named(rooted, t) == named(rooted, s.drop_last()).push(name));
            assert(named(rooted, s) == named(rooted, s.drop_last()));
            assert(components(joined) =~= components(dir).push(name));
        } else {
            let with_sep = dir.push('/');
            assert(joined =~= with_sep + name);
            assert(has_root(joined) == rooted);
            assert(with_sep.drop_last() =~= dir);
            assert(segments(with_sep) == s.push(Seq::<char>::empty()));
            lemma_segments_append(with_sep, name);
            let t = segments(joined);
            assert(s.push(Seq::<char>::empty()).drop_last() =~= s);
            assert(Seq::<char>::empty() + name =~= name);
            assert(t == s.push(name));
            assert(t.drop_last() =~= s);
            assert(t.last() == name);
            assert(named(rooted, t) == named(rooted, s).push(name));
            assert(components(joined) =~= components(dir).push(name));
        }
    }
    assert(components(joined).subrange(0, components(dir).len() as int) =~= components(dir));
}

/// Two entries of one directory that lie at the same path have the same name.
pub proof fn lemma_join_tells_names_apart(dir: Seq<char>, a: Seq<char>, b: Seq<char>)
    requires
        is_plain_name(a),
        is_plain_name(b),
        join_spec(dir, a) == join_spec(dir, b),
    ensures
        a == b,
{
    assert(!has_root(a) && !has_root(b));
    let base = if dir.len() == 0 || dir.last() == '/' {
        dir
    } else {
        dir + seq!['/']
    };
    assert(join_spec(dir, a) == base + a);
    assert(join_spec(dir, b) == base + b);
    assert((base + a).len() == base.len() + a.len());
    assert((base + b).len() == base.len() + b.len());
    assert forall|k: int| 0 <= k < a.len() implies a[k] == b[k] by {
        assert(a[k] == (base + a)[base.len() + k]);
        assert(b[k] == (base + b)[base.len() + k]);
    }
    assert(a =~= b);
}

/// Counts the components of `path`.
pub fn depth(path: &str) -> (d: usize)
    ensures
        d == depth_of(path@),
{
    let n: usize = path.unicode_len();
    let ghost p = path@;
    let rooted: bool = n > 0 && path.get_char(0) == '/';
    let mut done: usize = 0;
    let mut cur_len: usize = 0;
    let mut cur_is_dot: bool = false;
    let mut first: bool = true;
    let mut i: usize = 0;
    while i < n
        invariant
            n == p.len(),
            p == path@,
            rooted == has_root(p),
            0 <= i <= n,
            segments(p.take(i as int)).len() > 0,
            done == named(rooted, segments(p.take(i as int)).drop_last()).len(),
            cur_len == segments(p.take(i as int)).last().len(),
            cur_is_dot == (segments(p.take(i as int)).last() =~= seq!['.']),
            first == (segments(p.take(i as int)).len() == 1),
            done + cur_len + (if rooted && i >= 1 { 1int } else { 0int }) <= i,
        decreases n - i,
    {
        let c: char = path.get_char(i);
        let ghost before = segments(p.take(i as int));
        proof {
            assert(p.take(i as int + 1).drop_last() =~= p.take(i as int));
            assert(p.take(i as int + 1).last() == c);
        }
        if c == '/' {
            proof {
                let after = segments(p.take(i as int + 1));
                assert(after == before.push(Seq::<char>::empty()));
                assert(after.drop_last() =~= before);
                assert(after.last() =~= Seq::<char>::empty());
                if i == 0 {
                    assert(p.take(0) =~= Seq::<char>::empty());
                }
            }
            if cur_len > 0 && !(cur_is_dot && (rooted || !first)) {
                done = done + 1;
            }
            cur_len = 0;
            cur_is_dot = false;
            first = false;
        } else {
            proof {
                let after = segments(p.take(i as int + 1));
                assert(after == before.drop_last().push(before.last().push(c)));
                assert(after.drop_last() =~= before.drop_last());
                assert(after.last() =~= before.last().push(c));
                if before.last().len() == 0 && c == '.' {
                    assert(after.last() =~= seq!['.']);
                } else if before.last().len() == 0 {
                    assert(after.last()[0] != seq!['.'][0]);
                } else {
                    assert(after.last().len() != seq!['.'].len());
                }
                if i == 0 {
                    assert(p.take(0) =~= Seq::<char>::empty());
                }
            }
            cur_is_dot = cur_len == 0 && c == '.';
            cur_len = cur_len + 1;
        }
        i = i + 1;
    }
    proof {
        assert(p.take(n as int) =~= p);
    }
    let mut d: usize = done;
    if cur_len > 0 && !(cur_is_dot && (rooted || !first)) {
        d = d + 1;
    }
    if rooted {
        d = d + 1;
    }
    d
}

/// The final name of `path`, or `None` where it has none: where the path is
/// empty or the root, or ends in `.` or `..`.
pub fn file_name(path: &str) -> (name: Option<String>)
    ensures
        name.is_some() == file_name_of(path@).is_some(),
        name.is_some() ==> Some(name.unwrap()@) == file_name_of(path@),
{
    let n: usize = path.unicode_len();
    let ghost p = path@;
    let rooted: bool = n > 0 && path.get_char(0) == '/';
    let mut kept: bool = false;
    let mut kept_start: usize = 0;
    let mut kept_end: usize = 0;
    let mut cur_start: usize = 0;
    let mut cur_is_dot: bool = false;
    let mut first: bool = true;
    let mut i: usize = 0;
    proof {
        assert(p.take(0) =~= Seq::<char>::empty());
        assert(segments(p.take(0)).last() =~= p.subrange(0, 0));
    }
    while i < n
        invariant
            n == p.len(),
            p == path@,
            rooted == has_root(p),
            0 <= i <= n,
            0 <= cur_start <= i,
            segments(p.take(i as int)).len() > 0,
            segments(p.take(i as int)).last() == p.subrange(cur_start as int, i as int),
            cur_is_dot == (segments(p.take(i as int)).last() =~= seq!['.']),
            first == (segments(p.take(i as int)).len() == 1),
            kept == (named(rooted, segments(p.take(i as int)).drop_last()).len() > 0),
            kept ==> kept_start <= kept_end <= i && named(
                rooted,
                segments(p.take(i as int)).drop_last(),
            ).last() == p.subrange(kept_start as int, kept_end as int),
        decreases n - i,
    {
        let c: char = path.get_char(i);
        let ghost before = segments(p.take(i as int));
        proof {
            assert(p.take(i as int + 1).drop_last() =~= p.take(i as int));
            assert(p.take(i as int + 1).last() == c);
        }
        if c == '/' {
            proof {
                let after = segments(p.take(i as int + 1));
                assert(after == before.push(Seq::<char>::empty()));
                assert(after.drop_last() =~= before);
                assert(after.last() =~= p.subrange(i as int + 1, i as int + 1));
            }
            if i > cur_start && !(cur_is_dot && (rooted || !first)) {
                kept = true;
                kept_start = cur_start;
                kept_end = i;
            }
            cur_start = i + 1;
            cur_is_dot = false;
            first = false;
        } else {
            proof {
                let after = segments(p.take(i as int + 1));
                assert(after == before.drop_last().push(before.last().push(c)));
                assert(after.drop_last() =~= before.drop_last());
                assert(after.last() =~= before.last().push(c));
                assert(after.last() =~= p.subrange(cur_start as int, i as int + 1));
                if before.last().len() == 0 && c == '.' {
                    assert(after.last() =~= seq!['.']);
                } else if before.last().len() == 0 {
                    assert(after.last()[0] != seq!['.'][0]);
                } else {
                    assert(after.last().len() != seq!['.'].len());
                }
            }
            cur_is_dot = i == cur_start && c == '.';
        }
        i = i + 1;
    }
    proof {
        assert(p.take(n as int) =~= p);
    }
    if n > cur_start && !(cur_is_dot && (rooted || !first)) {
        kept = true;
        kept_start = cur_start;
        kept_end = n;
    }
    if !kept {
        return None;
    }
    let piece: &str = path.substring_char(kept_start, kept_end);
    let len: usize = kept_end - kept_start;
    if len == 1 && piece.get_char(0) == '.' {
        assert(piece@ =~= seq!['.']);
        return None;
    }
    if len == 2 && piece.get_char(0) == '.' && piece.get_char(1) == '.' {
        assert(piece@ =~= seq!['.', '.']);
        return None;
    }
    proof {
        if piece@ =~= seq!['.'] {
            assert(piece@[0] == '.');
        }
        if piece@ =~= seq!['.', '.'] {
            assert(piece@[0] == '.' && piece@[1] == '.');
        }
    }
    Some(String::from_str(piece))
}

/// Appends `rel` to `base`.
pub fn join(base: &str, rel: &str) -> (joined: String)
    ensures
        joined@ == join_spec(base@, rel@),
{
    let rel_len: usize = rel.unicode_len();
    if rel_len > 0 && rel.get_char(0) == '/' {
        return String::from_str(rel);
    }
    let base_len: usize = base.unicode_len();
    let mut joined = String::from_str(base);
    if base_len > 0 && base.get_char(base_len - 1) != '/' {
        proof {
            reveal_strlit("/");
            assert("/"@ =~= seq!['/']);
        }
        joined.append("/");
    }
    joined.append(rel);
    joined
}

} // verus!
