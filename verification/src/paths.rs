//! Paths as text, with `/` between their components.

use crate::text::{chars_of, copied, same_text, string_of};
use vstd::prelude::*;

verus! {

/// The pieces of `path[from..]` between slashes.
pub open spec fn pieces_from(path: Seq<char>, from: int) -> Seq<Seq<char>>
    decreases path.len() - from,
{
    if from < 0 || from > path.len() {
        Seq::empty()
    } else {
        let end = crate::text::position_from(path, '/', from);
        proof {
            crate::text::lemma_position_from(path, '/', from);
        }
        if end >= path.len() {
            seq![path.subrange(from, path.len() as int)]
        } else {
            seq![path.subrange(from, end)] + pieces_from(path, end + 1)
        }
    }
}

/// A piece that names something: neither empty nor the current directory.
pub open spec fn is_name(piece: Seq<char>) -> bool {
    piece.len() > 0 && piece != "."@
}

/// What stands before the first name: `/` of an absolute path, or a leading `.`.
pub open spec fn anchor_of(path: Seq<char>) -> Seq<Seq<char>> {
    if path.len() > 0 && path[0] == '/' {
        seq!["/"@]
    } else if pieces_from(path, 0)[0] == "."@ {
        seq!["."@]
    } else {
        Seq::empty()
    }
}

/// The components of a path. Repeated and trailing slashes, and `.` anywhere
/// but at the start, leave no component behind.
pub open spec fn components_of(path: Seq<char>) -> Seq<Seq<char>> {
    anchor_of(path) + pieces_from(path, 0).filter(|p: Seq<char>| is_name(p))
}

/// The last component of a path, if it is a name: not `/`, `.` or `..`.
pub open spec fn file_name_of(path: Seq<char>) -> Option<Seq<char>> {
    let parts = components_of(path);
    if parts.len() == 0 || parts.last() == "/"@ || parts.last() == "."@ || parts.last() == ".."@ {
        None
    } else {
        Some(parts.last())
    }
}

/// The position of the last dot in `name[..to]`.
pub open spec fn last_dot(name: Seq<char>, to: int) -> Option<int>
    decreases to,
{
    if to <= 0 || to > name.len() {
        None
    } else if name[to - 1] == '.' {
        Some(to - 1)
    } else {
        last_dot(name, to - 1)
    }
}

/// What stands after the last dot of the file name, unless that dot is the
/// first character of the name.
pub open spec fn extension_of(path: Seq<char>) -> Option<Seq<char>> {
    match file_name_of(path) {
        None => None,
        Some(name) => match last_dot(name, name.len() as int) {
            Some(dot) if dot > 0 => Some(name.subrange(dot + 1, name.len() as int)),
            _ => None,
        },
    }
}

/// `path` resolved against `dir`: an absolute `path` stands for itself, any
/// other is appended, behind a slash where one is needed.
pub open spec fn joined_path(dir: Seq<char>, path: Seq<char>) -> Seq<char> {
    if path.len() > 0 && path[0] == '/' {
        path
    } else if dir.len() == 0 || dir.last() == '/' {
        dir + path
    } else {
        dir + "/"@ + path
    }
}

/// The views of an optional string.
pub open spec fn opt_view(s: Option<String>) -> Option<Seq<char>> {
    match s {
        Some(t) => Some(t@),
        None => None,
    }
}

fn pieces(path: &str) -> (r: Vec<String>)
    ensures
        crate::text::views(r@) == pieces_from(path@, 0),
        r@.len() > 0,
{
    let v = chars_of(path);
    let mut out: Vec<String> = Vec::new();
    let mut from: usize = 0;
    loop
        invariant
            from <= v@.len(),
            v@ == path@,
            pieces_from(path@, 0) == crate::text::views(out@) + pieces_from(v@, from as int),
        decreases v@.len() - from,
    {
        let mut end: usize = from;
        while end < v.len() && v[end] != '/'
            invariant
                from <= end <= v@.len(),
                crate::text::position_from(v@, '/', from as int) == crate::text::position_from(v@, '/', end as int),
            decreases v@.len() - end,
        {
            end += 1;
        }
        let ghost before = out@;
        out.push(string_of(&v, from, end));
        proof {
            assert(crate::text::views(out@) =~= crate::text::views(before).push(v@.subrange(from as int, end as int)));
        }
        if end == v.len() {
            proof {
                assert(crate::text::views(before) + seq![v@.subrange(from as int, end as int)] =~= crate::text::views(out@));
            }
            return out;
        }
        proof {
            assert(crate::text::views(before) + (seq![v@.subrange(from as int, end as int)] + pieces_from(
                v@,
                end + 1,
            )) =~= crate::text::views(out@) + pieces_from(v@, end + 1));
        }
        from = end + 1;
    }
}

/// The components of a path.
pub fn components(path: &str) -> (r: Vec<String>)
    ensures
        crate::text::views(r@) == components_of(path@),
{
    let all = pieces(path);
    let mut out: Vec<String> = Vec::new();
    proof {
        assert(crate::text::views(all@)[0] == all@[0]@);
        reveal_strlit("/");
        reveal_strlit(".");
    }
    let absolute = {
        let v = chars_of(path);
        v.len() > 0 && v[0] == '/'
    };
    if absolute {
        out.push(copied("/"));
    } else if same_text(all[0].as_str(), ".") {
        out.push(copied("."));
    }
    let ghost anchor = crate::text::views(out@);
    let ghost keep = |p: Seq<char>| is_name(p);
    proof {
        assert(anchor =~= anchor_of(path@));
        assert(crate::text::views(all@).take(0).filter(keep) =~= Seq::empty()) by {
            reveal(Seq::filter);
        }
    }
    let mut i: usize = 0;
    while i < all.len()
        invariant
            i <= all@.len(),
            keep == (|p: Seq<char>| is_name(p)),
            crate::text::views(out@) == anchor + crate::text::views(all@).take(i as int).filter(keep),
        decreases all@.len() - i,
    {
        let ghost before = out@;
        proof {
            reveal(Seq::filter);
            assert(crate::text::views(all@).take(i + 1).drop_last() =~= crate::text::views(all@).take(i as int));
            assert(crate::text::views(all@).take(i + 1).last() == all@[i as int]@);
        }
        let piece = all[i].as_str();
        if !piece.is_empty() && !same_text(piece, ".") {
            out.push(copied(piece));
            proof {
                assert(crate::text::views(out@) =~= crate::text::views(before).push(piece@));
                assert(crate::text::views(out@) =~= anchor + crate::text::views(all@).take(i + 1).filter(keep));
            }
        }
        i += 1;
    }
    proof {
        assert(crate::text::views(all@).take(all@.len() as int) =~= crate::text::views(all@));
    }
    out
}

/// Whether two paths have the same components.
pub fn same_path(a: &str, b: &str) -> (r: bool)
    ensures
        r == (components_of(a@) == components_of(b@)),
{
    let x = components(a);
    let y = components(b);
    if x.len() != y.len() {
        proof {
            assert(crate::text::views(x@).len() != crate::text::views(y@).len());
        }
        return false;
    }
    let mut i: usize = 0;
    while i < x.len()
        invariant
            i <= x@.len(),
            x@.len() == y@.len(),
            crate::text::views(x@) == components_of(a@),
            crate::text::views(y@) == components_of(b@),
            forall|k: int| 0 <= k < i ==> (#[trigger] x@[k])@ == y@[k]@,
        decreases x@.len() - i,
    {
        if !same_text(x[i].as_str(), y[i].as_str()) {
            proof {
                assert(crate::text::views(x@)[i as int] != crate::text::views(y@)[i as int]);
            }
            return false;
        }
        i += 1;
    }
    proof {
        assert(crate::text::views(x@) =~= crate::text::views(y@));
    }
    true
}

/// The file name of a path: its last component, if that is a name.
pub fn file_name(path: &str) -> (r: Option<String>)
    ensures
        opt_view(r) == file_name_of(path@),
{
    let parts = components(path);
    if parts.len() == 0 {
        proof {
            assert(components_of(path@).len() == 0);
        }
        return None;
    }
    let last = parts[parts.len() - 1].as_str();
    proof {
        assert(crate::text::views(parts@).last() == last@);
    }
    if same_text(last, "/") || same_text(last, ".") || same_text(last, "..") {
        None
    } else {
        Some(copied(last))
    }
}

/// The extension of a path: what follows the last dot of its file name, unless
/// the name starts with that dot.
pub fn extension(path: &str) -> (r: Option<String>)
    ensures
        opt_view(r) == extension_of(path@),
{
    match file_name(path) {
        None => None,
        Some(name) => {
            let v = chars_of(name.as_str());
            let mut to: usize = v.len();
            while to > 0 && v[to - 1] != '.'
                invariant
                    to <= v@.len(),
                    last_dot(v@, v@.len() as int) == last_dot(v@, to as int),
                decreases to,
            {
                to -= 1;
            }
            if to > 1 {
                Some(string_of(&v, to, v.len()))
            } else {
                None
            }
        },
    }
}

/// Resolves `path` against the directory `dir`.
pub fn join(dir: &str, path: &str) -> (r: String)
    ensures
        r@ == joined_path(dir@, path@),
{
    let d = chars_of(dir);
    let p = chars_of(path);
    if p.len() > 0 && p[0] == '/' {
        return copied(path);
    }
    let mut out = copied(dir);
    if d.len() > 0 && d[d.len() - 1] != '/' {
        out.append("/");
    }
    out.append(path);
    out
}

// ---- A key for paths ------------------------------------------------------

/// The names one after the other, each with a slash behind it.
pub open spec fn names_key(names: Seq<Seq<char>>) -> Seq<char>
    decreases names.len(),
{
    if names.len() == 0 {
        Seq::empty()
    } else {
        names_key(names.drop_last()) + names.last() + seq!['/']
    }
}

/// A text for the components of a path, by which it can be looked up.
pub open spec fn key_of(path: Seq<char>) -> Seq<char> {
    let parts = components_of(path);
    if parts.len() > 0 && parts[0] == "/"@ {
        seq!['/'] + names_key(parts.drop_first())
    } else {
        names_key(parts)
    }
}

/// The lookup key of a path.
pub fn path_key(path: &str) -> (r: String)
    ensures
        r@ == key_of(path@),
{
    let parts = components(path);
    let mut out = String::new();
    let mut i: usize = 0;
    proof {
        if parts@.len() > 0 {
            assert(crate::text::views(parts@)[0] == parts@[0]@);
        }
    }
    let ghost all = crate::text::views(parts@);
    let mut from: usize = 0;
    if parts.len() > 0 && same_text(parts[0].as_str(), "/") {
        out.push('/');
        i = 1;
        from = 1;
    }
    let ghost head = out@;
    let ghost names = all.skip(from as int);
    proof {
        if from == 1 {
            assert(names =~= all.drop_first());
            assert(head =~= seq!['/']);
        } else {
            assert(names =~= all);
        }
        assert(out@ =~= head + names_key(names.take(0)));
    }
    while i < parts.len()
        invariant
            from <= i <= parts@.len(),
            all == crate::text::views(parts@),
            names == all.skip(from as int),
            out@ == head + names_key(names.take(i - from)),
        decreases parts@.len() - i,
    {
        out.append(parts[i].as_str());
        out.push('/');
        proof {
            let next = names.take(i - from + 1);
            assert(next.drop_last() =~= names.take(i - from));
            assert(next.last() == parts@[i as int]@);
            assert(out@ =~= head + names_key(next));
        }
        i += 1;
    }
    proof {
        assert(names.take(names.len() as int) =~= names);
        assert(out@ =~= head + names_key(names));
        if from == 0 {
            assert(head + names_key(names) =~= names_key(names));
        }
    }
    out
}

spec fn plain_names(names: Seq<Seq<char>>) -> bool {
    forall|i: int| 0 <= i < names.len() ==> (#[trigger] names[i]).len() > 0 && !names[i].contains('/')
}

/// Names that give the same text are the same names.
proof fn lemma_names_key_injective(x: Seq<Seq<char>>, y: Seq<Seq<char>>)
    requires
        plain_names(x),
        plain_names(y),
        names_key(x) == names_key(y),
    ensures
        x == y,
    decreases x.len(),
{
    let key = names_key(x);
    if x.len() == 0 {
        assert(y.len() == 0);
        assert(x =~= y);
    } else {
        assert(y.len() > 0);
        let n = key.len() as int;
        let a = x.last();
        let b = y.last();
        assert(x[x.len() - 1] == a && y[y.len() - 1] == b);
        let kx = names_key(x.drop_last());
        let ky = names_key(y.drop_last());
        assert(key == kx + a + seq!['/']);
        assert(key == ky + b + seq!['/']);
        if a.len() < b.len() {
            lemma_key_ends_with_slash(x.drop_last());
            assert(kx.len() > 0);
            assert(key[n - 2 - a.len()] == kx.last());
            assert(key[n - 2 - a.len()] == b[b.len() - 1 - a.len()]);
            assert(b.contains('/'));
        } else if b.len() < a.len() {
            lemma_key_ends_with_slash(y.drop_last());
            assert(ky.len() > 0);
            assert(key[n - 2 - b.len()] == ky.last());
            assert(key[n - 2 - b.len()] == a[a.len() - 1 - b.len()]);
            assert(a.contains('/'));
        }
        assert(a =~= key.subrange(n - 1 - a.len(), n - 1));
        assert(b =~= key.subrange(n - 1 - b.len(), n - 1));
        assert(kx =~= key.take(n - 1 - a.len()));
        assert(ky =~= key.take(n - 1 - b.len()));
        assert forall|i: int| 0 <= i < x.drop_last().len() implies (
        #[trigger] x.drop_last()[i]).len() > 0 && !x.drop_last()[i].contains('/') by {
            assert(x.drop_last()[i] == x[i]);
        }
        assert forall|i: int| 0 <= i < y.drop_last().len() implies (
        #[trigger] y.drop_last()[i]).len() > 0 && !y.drop_last()[i].contains('/') by {
            assert(y.drop_last()[i] == y[i]);
        }
        lemma_names_key_injective(x.drop_last(), y.drop_last());
        assert(x =~= x.drop_last().push(a));
        assert(y =~= y.drop_last().push(b));
    }
}

proof fn lemma_key_ends_with_slash(names: Seq<Seq<char>>)
    ensures
        names.len() > 0 ==> names_key(names).len() > 0 && names_key(names).last() == '/',
        names_key(names).len() == 0 ==> names.len() == 0,
{
}

/// The text of a key starts with a slash only for an absolute path.
proof fn lemma_key_start(names: Seq<Seq<char>>)
    requires
        plain_names(names),
    ensures
        names.len() > 0 ==> names_key(names).len() > 0 && names_key(names)[0] != '/',
    decreases names.len(),
{
    if names.len() > 0 {
        let init = names.drop_last();
        assert forall|i: int| 0 <= i < init.len() implies (#[trigger] init[i]).len() > 0
            && !init[i].contains('/') by {
            assert(init[i] == names[i]);
        }
        lemma_key_start(init);
        assert(names[names.len() - 1] == names.last());
        if init.len() == 0 {
            assert(names_key(names)[0] == names.last()[0]);
            assert(names.last().contains(names.last()[0]));
        } else {
            assert(names_key(names)[0] == names_key(init)[0]);
        }
    }
}

/// A piece between slashes has no slash in it.
proof fn lemma_pieces_are_plain(path: Seq<char>, from: int)
    requires
        0 <= from,
    ensures
        forall|k: int|
            0 <= k < pieces_from(path, from).len() ==> !(#[trigger] pieces_from(
                path,
                from,
            )[k]).contains('/'),
    decreases path.len() - from,
{
    if from <= path.len() {
        let end = crate::text::position_from(path, '/', from);
        crate::text::lemma_position_from(path, '/', from);
        lemma_no_slash_before(path, from);
        if end < path.len() {
            lemma_pieces_are_plain(path, end + 1);
            let rest = pieces_from(path, end + 1);
            let all = pieces_from(path, from);
            assert(all =~= seq![path.subrange(from, end)] + rest);
            assert forall|k: int| 0 <= k < all.len() implies !(#[trigger] all[k]).contains('/') by {
                if k > 0 {
                    assert(all[k] == rest[k - 1]);
                }
            }
        }
    }
}

proof fn lemma_no_slash_before(path: Seq<char>, from: int)
    requires
        0 <= from <= path.len(),
    ensures
        forall|k: int|
            from <= k < crate::text::position_from(path, '/', from) ==> (#[trigger] path[k]) != '/',
    decreases path.len() - from,
{
    if from < path.len() && path[from] != '/' {
        lemma_no_slash_before(path, from + 1);
    }
}

proof fn lemma_filter_is_plain(pieces: Seq<Seq<char>>)
    requires
        forall|k: int| 0 <= k < pieces.len() ==> !(#[trigger] pieces[k]).contains('/'),
    ensures
        plain_names(pieces.filter(|p: Seq<char>| is_name(p))),
{
    let keep = |p: Seq<char>| is_name(p);
    let kept = pieces.filter(keep);
    assert forall|i: int| 0 <= i < kept.len() implies (#[trigger] kept[i]).len() > 0
        && !kept[i].contains('/') by {
        pieces.lemma_filter_pred(keep, i);
        assert(kept.contains(kept[i]));
        pieces.lemma_filter_contains_rev(keep, kept[i]);
    }
}

/// Which components of a path are plain names.
proof fn lemma_components_are_plain(path: Seq<char>)
    ensures
        ({
            let parts = components_of(path);
            if parts.len() > 0 && parts[0] == "/"@ {
                plain_names(parts.drop_first())
            } else {
                plain_names(parts)
            }
        }),
{
    let parts = components_of(path);
    let names = pieces_from(path, 0).filter(|p: Seq<char>| is_name(p));
    lemma_pieces_are_plain(path, 0);
    lemma_filter_is_plain(pieces_from(path, 0));
    reveal_strlit("/");
    reveal_strlit(".");
    let anchor = anchor_of(path);
    assert(parts == anchor + names);
    if anchor.len() == 0 {
        assert(parts =~= names);
        if parts.len() > 0 && parts[0] == "/"@ {
            assert(parts[0][0] == '/');
            assert(names[0].contains('/'));
        }
    } else {
        assert(parts.drop_first() =~= names);
        assert forall|i: int| 0 < i < parts.len() implies (#[trigger] parts[i]).len() > 0
            && !parts[i].contains('/') by {
            assert(parts[i] == names[i - 1]);
        }
    }
}

/// Two paths have the same key exactly when they have the same components.
pub proof fn law_key_identifies_path(a: Seq<char>, b: Seq<char>)
    ensures
        key_of(a) == key_of(b) <==> components_of(a) == components_of(b),
{
    if key_of(a) == key_of(b) {
        let x = components_of(a);
        let y = components_of(b);
        lemma_components_are_plain(a);
        lemma_components_are_plain(b);
        let x_abs = x.len() > 0 && x[0] == "/"@;
        let y_abs = y.len() > 0 && y[0] == "/"@;
        if x_abs && y_abs {
            let kx = names_key(x.drop_first());
            let ky = names_key(y.drop_first());
            assert(kx =~= key_of(a).drop_first());
            assert(ky =~= key_of(b).drop_first());
            lemma_names_key_injective(x.drop_first(), y.drop_first());
            assert(x =~= seq!["/"@] + x.drop_first());
            assert(y =~= seq!["/"@] + y.drop_first());
        } else if x_abs {
            lemma_key_start(y);
            assert(key_of(a)[0] == '/');
        } else if y_abs {
            lemma_key_start(x);
            assert(key_of(b)[0] == '/');
        } else {
            lemma_names_key_injective(x, y);
        }
    }
}

} // verus!
