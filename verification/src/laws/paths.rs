//! Paths: their components, file names and extensions.

use vstd::prelude::*;

verus! {

proof fn lemma_position_from_end(text: Seq<char>, c: char, from: int)
    requires
        0 <= from <= text.len(),
        !text.contains(c),
    ensures
        crate::text::position_from(text, c, from) == text.len(),
    decreases text.len() - from,
{
    if from < text.len() {
        assert(text.contains(text[from]));
        lemma_position_from_end(text, c, from + 1);
    }
}

proof fn lemma_position_in_longer(text: Seq<char>, more: Seq<char>, c: char, from: int)
    requires
        0 <= from <= text.len(),
        more.len() > 0,
        more[0] == c,
    ensures
        crate::text::position_from(text + more, c, from) == crate::text::position_from(
            text,
            c,
            from,
        ),
    decreases text.len() - from,
{
    if from < text.len() {
        assert((text + more)[from] == text[from]);
        lemma_position_in_longer(text, more, c, from + 1);
    } else {
        assert((text + more)[from] == c);
    }
}

/// A name behind a slash is a piece of its own.
proof fn lemma_last_piece(dir: Seq<char>, name: Seq<char>, from: int)
    requires
        0 <= from <= dir.len(),
        !name.contains('/'),
    ensures
        crate::paths::pieces_from(dir + (seq!['/'] + name), from) == crate::paths::pieces_from(
            dir,
            from,
        ).push(name),
    decreases dir.len() - from,
{
    let tail = seq!['/'] + name;
    let whole = dir + tail;
    crate::text::lemma_position_from(dir, '/', from);
    lemma_position_in_longer(dir, tail, '/', from);
    let at = crate::text::position_from(dir, '/', from);
    assert(whole.subrange(from, at) =~= dir.subrange(from, at));
    if at == dir.len() {
        let n: int = dir.len() as int;
        assert forall|k: int| n + 1 <= k < whole.len() implies whole[k] != '/' by {
            assert(name.contains(name[k - n - 1]));
        }
        lemma_position_end(whole, '/', n + 1);
        assert(whole.subrange(n + 1, whole.len() as int) =~= name);
        assert(crate::paths::pieces_from(whole, n + 1) =~= seq![name]);
        assert(seq![dir.subrange(from, n)] + seq![name] =~= seq![dir.subrange(from, n)].push(name));
    } else {
        lemma_last_piece(dir, name, at + 1);
        let first = seq![dir.subrange(from, at)];
        assert(first + crate::paths::pieces_from(dir, at + 1).push(name) =~= (first
            + crate::paths::pieces_from(dir, at + 1)).push(name));
    }
}

proof fn lemma_position_end(text: Seq<char>, c: char, from: int)
    requires
        0 <= from <= text.len(),
        forall|k: int| from <= k < text.len() ==> text[k] != c,
    ensures
        crate::text::position_from(text, c, from) == text.len(),
    decreases text.len() - from,
{
    if from < text.len() {
        lemma_position_end(text, c, from + 1);
    }
}

/// A path goes component by component. A name behind a slash is one component more,
/// whatever stands before it; nothing behind a slash, or `.`, is none. A path of one
/// name has this component alone, the path of the root has `/`, and the empty path
/// has none.
pub proof fn law_components(dir: Seq<char>, name: Seq<char>)
    requires
        !name.contains('/'),
    ensures
        dir.len() > 0 && name.len() > 0 && name != seq!['.'] ==> crate::paths::components_of(
            dir + (seq!['/'] + name),
        ) == crate::paths::components_of(dir).push(name),
        dir.len() > 0 ==> crate::paths::components_of(dir + seq!['/'])
            == crate::paths::components_of(dir),
        dir.len() > 0 ==> crate::paths::components_of(dir + seq!['/', '.'])
            == crate::paths::components_of(dir),
        name.len() > 0 ==> crate::paths::components_of(name) == seq![name],
        crate::paths::components_of(seq!['/']) == seq![seq!['/']],
        crate::paths::components_of(Seq::<char>::empty()).len() == 0,
{
    let named = |p: Seq<char>| crate::paths::is_name(p);
    reveal(Seq::filter);
    reveal_strlit(".");
    reveal_strlit("/");
    assert("."@ =~= seq!['.']);
    assert("/"@ =~= seq!['/']);
    let nothing = Seq::<char>::empty();
    let dot = seq!['.'];
    if dir.len() > 0 {
        lemma_same_start(dir, name);
        lemma_same_start(dir, nothing);
        assert(!dot.contains('/'));
        lemma_same_start(dir, dot);
        assert(dir + (seq!['/'] + nothing) =~= dir + seq!['/']);
        assert(dir + (seq!['/'] + dot) =~= dir + seq!['/', '.']);
    }
    lemma_one_piece(name);
    lemma_one_piece(nothing);
    let root = seq!['/'];
    lemma_last_piece(nothing, nothing, 0);
    assert(nothing + (seq!['/'] + nothing) =~= root);
    assert(crate::paths::pieces_from(root, 0) =~= seq![nothing, nothing]);
    reveal_with_fuel(Seq::filter, 3);
    assert(seq![nothing, nothing].drop_last() =~= seq![nothing]);
    assert(seq![nothing].drop_last() =~= Seq::<Seq<char>>::empty());
    assert(seq![nothing, nothing].filter(named) =~= Seq::<Seq<char>>::empty());
    assert(crate::paths::components_of(root) =~= seq![root]);
    if name.len() > 0 {
        assert(seq![name].drop_last() =~= Seq::<Seq<char>>::empty());
        assert(name.contains(name[0]));
        assert(crate::paths::components_of(name) =~= seq![name]);
    }
}

proof fn lemma_one_piece(name: Seq<char>)
    requires
        !name.contains('/'),
    ensures
        crate::paths::pieces_from(name, 0) == seq![name],
{
    lemma_position_from_end(name, '/', 0);
    assert(name.subrange(0, name.len() as int) =~= name);
}

proof fn lemma_same_start(dir: Seq<char>, name: Seq<char>)
    requires
        dir.len() > 0,
        !name.contains('/'),
    ensures
        crate::paths::components_of(dir + (seq!['/'] + name)) == (if crate::paths::is_name(name) {
            crate::paths::components_of(dir).push(name)
        } else {
            crate::paths::components_of(dir)
        }),
{
    let whole = dir + (seq!['/'] + name);
    let named = |p: Seq<char>| crate::paths::is_name(p);
    lemma_last_piece(dir, name, 0);
    let pieces = crate::paths::pieces_from(dir, 0);
    crate::text::lemma_position_from(dir, '/', 0);
    assert(pieces.len() > 0);
    assert(crate::paths::pieces_from(whole, 0)[0] == pieces[0]);
    assert(whole[0] == dir[0]);
    reveal(Seq::filter);
    assert(pieces.push(name).drop_last() =~= pieces);
    let anchor = crate::paths::anchor_of(dir);
    assert(crate::paths::anchor_of(whole) == anchor);
    assert(anchor + pieces.filter(named).push(name) =~= (anchor + pieces.filter(named)).push(name));
}

/// The file name of a path is the name behind its last slash, unless this is `.` or
/// `..`; a path of one name has this name. The directory makes no difference.
pub proof fn law_file_name(dir: Seq<char>, name: Seq<char>)
    requires
        !name.contains('/'),
        name.len() > 0,
        name != seq!['.'],
    ensures
        name != seq!['.', '.'] ==> {
            &&& crate::paths::file_name_of(name) == Some(name)
            &&& dir.len() > 0 ==> crate::paths::file_name_of(dir + (seq!['/'] + name)) == Some(name)
            &&& dir.len() > 0 ==> crate::paths::file_name_of(dir + (seq!['/'] + name) + seq!['/'])
                == Some(name)
        },
        dir.len() > 0 ==> crate::paths::file_name_of(dir + seq!['/', '.', '.']) is None,
        crate::paths::file_name_of(seq!['/']) is None,
{
    reveal_strlit(".");
    reveal_strlit("/");
    reveal_strlit("..");
    assert("."@ =~= seq!['.']);
    assert("/"@ =~= seq!['/']);
    assert(".."@ =~= seq!['.', '.']);
    law_components(dir, name);
    if name == "/"@ {
        assert(name[0] == '/');
        assert(name.contains('/'));
    }
    let whole = dir + (seq!['/'] + name);
    let nothing = Seq::<char>::empty();
    law_components(whole, nothing);
    let up = seq!['.', '.'];
    assert(!up.contains('/'));
    law_components(dir, up);
    assert(dir + (seq!['/'] + up) =~= dir + seq!['/', '.', '.']);
    assert(up != seq!['.']) by {
        assert(up.len() == 2);
    }
}

proof fn lemma_no_dot(name: Seq<char>, to: int)
    requires
        0 <= to <= name.len(),
        forall|k: int| 0 <= k < to ==> name[k] != '.',
    ensures
        crate::paths::last_dot(name, to) is None,
    decreases to,
{
    if to > 0 {
        lemma_no_dot(name, to - 1);
    }
}

proof fn lemma_last_dot(name: Seq<char>, at: int, to: int)
    requires
        0 <= at < to <= name.len(),
        name[at] == '.',
        forall|k: int| at < k < to ==> name[k] != '.',
    ensures
        crate::paths::last_dot(name, to) == Some(at),
    decreases to,
{
    if at < to - 1 {
        lemma_last_dot(name, at, to - 1);
    }
}

/// The extension of a path is what stands behind the last dot of its file name. A
/// name without a dot has none, and neither has one whose only dot is the first
/// character.
pub proof fn law_extension(path: Seq<char>, stem: Seq<char>, ext: Seq<char>)
    requires
        !ext.contains('.'),
    ensures
        crate::paths::file_name_of(path) == Some(stem + (seq!['.'] + ext)) && stem.len() > 0
            ==> crate::paths::extension_of(path) == Some(ext),
        crate::paths::file_name_of(path) == Some(ext) ==> crate::paths::extension_of(path) is None,
        crate::paths::file_name_of(path) == Some(seq!['.'] + ext) ==> crate::paths::extension_of(
            path,
        ) is None,
        crate::paths::file_name_of(path) is None ==> crate::paths::extension_of(path) is None,
{
    assert forall|k: int| 0 <= k < ext.len() implies ext[k] != '.' by {
        assert(ext.contains(ext[k]));
    }
    lemma_no_dot(ext, ext.len() as int);
    let name = stem + (seq!['.'] + ext);
    let n: int = stem.len() as int;
    assert(name[n] == '.');
    assert forall|k: int| n < k < name.len() implies name[k] != '.' by {
        assert(name[k] == ext[k - n - 1]);
    }
    lemma_last_dot(name, n, name.len() as int);
    assert(name.subrange(n + 1, name.len() as int) =~= ext);
    let hidden = seq!['.'] + ext;
    assert(hidden[0] == '.');
    assert forall|k: int| 0 < k < hidden.len() implies hidden[k] != '.' by {
        assert(hidden[k] == ext[k - 1]);
    }
    lemma_last_dot(hidden, 0, hidden.len() as int);
}

/// A path that is resolved against a directory names the same thing in it: its
/// components are those of the directory and then its own. An absolute path stands
/// for itself.
pub proof fn law_joined_path(dir: Seq<char>, name: Seq<char>)
    requires
        !name.contains('/'),
        name.len() > 0,
        name != seq!['.'],
    ensures
        crate::paths::components_of(crate::paths::joined_path(dir, name))
            == crate::paths::components_of(dir).push(name),
        crate::paths::joined_path(dir, seq!['/'] + name) == seq!['/'] + name,
{
    reveal_strlit("/");
    assert("/"@ =~= seq!['/']);
    assert(name.contains(name[0]));
    law_components(dir, name);
    let nothing = Seq::<char>::empty();
    if dir.len() == 0 {
        assert(dir + name =~= name);
        assert(dir =~= nothing);
        assert(crate::paths::components_of(dir) =~= Seq::<Seq<char>>::empty());
        assert(Seq::<Seq<char>>::empty().push(name) =~= seq![name]);
    } else if dir.last() == '/' {
        let up = dir.drop_last();
        assert(dir =~= up + seq!['/']);
        assert(dir + name =~= up + (seq!['/'] + name));
        if up.len() > 0 {
            law_components(up, name);
        } else {
            assert(dir =~= seq!['/']);
            law_name_at_the_root(name);
            assert(dir + name =~= seq!['/'] + name);
        }
    } else {
        assert(dir + "/"@ + name =~= dir + (seq!['/'] + name));
    }
}

/// A name right behind the first slash is a component below the root.
pub proof fn law_name_at_the_root(name: Seq<char>)
    requires
        !name.contains('/'),
        name.len() > 0,
        name != seq!['.'],
    ensures
        crate::paths::components_of(seq!['/'] + name) == seq![seq!['/'], name],
{
    let nothing = Seq::<char>::empty();
    let whole = seq!['/'] + name;
    let named = |p: Seq<char>| crate::paths::is_name(p);
    reveal_strlit(".");
    reveal_strlit("/");
    assert("."@ =~= seq!['.']);
    assert("/"@ =~= seq!['/']);
    lemma_last_piece(nothing, name, 0);
    lemma_one_piece(nothing);
    assert(nothing + whole =~= whole);
    assert(crate::paths::pieces_from(whole, 0) =~= seq![nothing, name]);
    reveal(Seq::filter);
    reveal_with_fuel(Seq::filter, 3);
    assert(seq![nothing, name].drop_last() =~= seq![nothing]);
    assert(seq![nothing].drop_last() =~= Seq::<Seq<char>>::empty());
    assert(crate::paths::components_of(whole) =~= seq![seq!['/'], name]);
}

} // verus!
