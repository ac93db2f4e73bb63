//! File paths as texts with `/` between their components.

use vstd::prelude::*;

use crate::lists::{filter_none, filter_step};
use crate::text::{
    chars_of, first_index_at, joined, last_index, last_index_at, opt_text, pieces, pieces_of_both,
    rfind_char, same, split, string_of, texts,
};

verus! {

broadcast use crate::lists::group_lists;

/// Whether a piece between separators names something: neither nothing nor `.`.
pub open spec fn names_something(piece: Seq<char>) -> bool {
    piece.len() > 0 && piece != "."@
}

/// The components of a path that name something.
pub open spec fn components(path: Seq<char>) -> Seq<Seq<char>> {
    pieces(path, '/').filter(|p: Seq<char>| names_something(p))
}

/// Whether a path starts at the root.
pub open spec fn rooted(path: Seq<char>) -> bool {
    path.len() > 0 && path[0] == '/'
}

/// Whether a path starts with the current directory, written out.
pub open spec fn leads_with_dot(path: Seq<char>) -> bool {
    pieces(path, '/')[0] == "."@
}

/// Whether two paths have the same components: repeated separators, a trailing
/// separator and inner `.` components make no difference.
pub open spec fn same_components(a: Seq<char>, b: Seq<char>) -> bool {
    &&& rooted(a) == rooted(b)
    &&& leads_with_dot(a) == leads_with_dot(b)
    &&& components(a) == components(b)
}

/// The last component of a path, if it is a name.
pub open spec fn last_name(path: Seq<char>) -> Option<Seq<char>> {
    let names = components(path);
    if names.len() > 0 && names.last() != ".."@ {
        Some(names.last())
    } else {
        None
    }
}

/// A file name without its extension: what stands before the last dot, unless
/// nothing does.
pub open spec fn stem(name: Seq<char>) -> Seq<char> {
    if last_index(name, '.') > 0 {
        name.take(last_index(name, '.'))
    } else {
        name
    }
}

/// The components of a path that name something.
pub fn component_names(path: &str) -> (r: Vec<String>)
    ensures
        texts(r@) == components(path@),
{
    let parts = split(path, '/');
    let mut out: Vec<String> = Vec::new();
    let ghost keep = |p: Seq<char>| names_something(p);
    let ghost all = pieces(path@, '/');
    let mut i: usize = 0;
    proof {
        filter_none(all, keep);
        assert(texts(out@) =~= all.take(0).filter(keep));
    }
    while i < parts.len()
        invariant
            i <= parts@.len(),
            texts(parts@) == all,
            keep == (|p: Seq<char>| names_something(p)),
            texts(out@) == all.take(i as int).filter(keep),
        decreases parts@.len() - i,
    {
        let part = &parts[i];
        assert(all[i as int] == part@);
        proof {
            filter_step(all, i as int, keep);
        }
        if !part.as_str().is_empty() && !same(part.as_str(), ".") {
            let ghost before = out@;
            out.push(part.clone());
            assert(texts(out@) =~= texts(before).push(part@));
        }
        i = i + 1;
    }
    assert(all.take(i as int) =~= all);
    out
}

fn same_texts(a: &Vec<String>, b: &Vec<String>) -> (r: bool)
    ensures
        r == (texts(a@) == texts(b@)),
{
    if a.len() != b.len() {
        assert(texts(a@).len() != texts(b@).len());
        return false;
    }
    let mut i: usize = 0;
    while i < a.len()
        invariant
            i <= a@.len(),
            a@.len() == b@.len(),
            forall|k: int| 0 <= k < i ==> texts(a@)[k] == texts(b@)[k],
        decreases a@.len() - i,
    {
        if !same(a[i].as_str(), b[i].as_str()) {
            assert(texts(a@)[i as int] != texts(b@)[i as int]);
            return false;
        }
        i = i + 1;
    }
    assert(texts(a@) =~= texts(b@));
    true
}

fn first_is_dot(path: &str) -> (r: bool)
    ensures
        r == leads_with_dot(path@),
{
    let parts = split(path, '/');
    assert(texts(parts@).len() >= 1);
    assert(texts(parts@)[0] == parts@[0]@);
    same(parts[0].as_str(), ".")
}

fn starts_at_root(path: &str) -> (r: bool)
    ensures
        r == rooted(path@),
{
    let cs = chars_of(path);
    cs.len() > 0 && cs[0] == '/'
}

/// Whether two paths have the same components.
pub fn same_path(a: &str, b: &str) -> (r: bool)
    ensures
        r == same_components(a@, b@),
{
    starts_at_root(a) == starts_at_root(b) && first_is_dot(a) == first_is_dot(b) && same_texts(
        &component_names(a),
        &component_names(b),
    )
}

/// The last component of a path, if it is a name.
pub fn file_name(path: &str) -> (r: Option<String>)
    ensures
        opt_text(r) == last_name(path@),
{
    let names = component_names(path);
    if names.len() == 0 {
        assert(components(path@).len() == 0);
        return None;
    }
    let last = &names[names.len() - 1];
    assert(components(path@).last() == last@);
    if same(last.as_str(), "..") {
        None
    } else {
        Some(last.clone())
    }
}

/// The last component of a path without its extension, if it is a name.
pub fn file_stem(path: &str) -> (r: Option<String>)
    ensures
        match last_name(path@) {
            Some(name) => opt_text(r) == Some(stem(name)),
            None => r is None,
        },
{
    match file_name(path) {
        Some(name) => {
            let cs = chars_of(name.as_str());
            match rfind_char(&cs, '.') {
                Some(i) if i > 0 => {
                    assert(cs@.subrange(0, i as int) =~= cs@.take(i as int));
                    Some(string_of(&cs, 0, i))
                },
                _ => Some(name),
            }
        },
        None => None,
    }
}

/// A file name's extension: what stands behind the last dot, if something stands
/// before it.
pub open spec fn extension_of(name: Seq<char>) -> Option<Seq<char>> {
    if last_index(name, '.') > 0 {
        Some(name.skip(last_index(name, '.') + 1))
    } else {
        None
    }
}

/// The extension of a path's last component.
pub fn extension(path: &str) -> (r: Option<String>)
    ensures
        match last_name(path@) {
            Some(name) => opt_text(r) == extension_of(name),
            None => r is None,
        },
{
    match file_name(path) {
        Some(name) => {
            let cs = chars_of(name.as_str());
            match rfind_char(&cs, '.') {
                Some(i) if i > 0 => {
                    assert(cs@.subrange(i as int + 1, cs@.len() as int) =~= cs@.skip(
                        i as int + 1,
                    ));
                    Some(string_of(&cs, i + 1, cs.len()))
                },
                _ => None,
            }
        },
        None => None,
    }
}

/// The name of a file is what stands behind the last slash of its path.
pub proof fn file_names_stand_last(dir: Seq<char>, name: Seq<char>)
    requires
        name.len() > 0,
        !name.contains('/'),
        name != seq!['.'],
        name != seq!['.', '.'],
    ensures
        last_name(dir + seq!['/'] + name) == Some(name),
{
    reveal_strlit(".");
    reveal_strlit("..");
    assert("."@ =~= seq!['.']);
    assert(".."@ =~= seq!['.', '.']);
    let path = dir + seq!['/'] + name;
    let keep = |p: Seq<char>| names_something(p);
    pieces_of_both(dir, '/', name);
    first_index_at(name, '/', name.len() as int);
    assert(pieces(name, '/') =~= seq![name]);
    let all = pieces(path, '/');
    assert(all =~= pieces(dir, '/').push(name));
    assert(all.drop_last() =~= pieces(dir, '/'));
    reveal(Seq::filter);
    assert(components(path) == pieces(dir, '/').filter(keep).push(name));
}

/// The ending of a name is what stands behind its last dot, and the stem what stands before.
pub proof fn endings_stand_behind_the_dot(name: Seq<char>, ext: Seq<char>)
    requires
        name.len() > 0,
        !ext.contains('.'),
    ensures
        extension_of(name + seq!['.'] + ext) == Some(ext),
        stem(name + seq!['.'] + ext) == name,
{
    let s = name + seq!['.'] + ext;
    assert forall|k: int| name.len() < k < s.len() implies s[k] != '.' by {
        assert(s[k] == ext[k - name.len() - 1]);
    }
    last_index_at(s, '.', name.len() as int);
    assert(s.skip(name.len() as int + 1) =~= ext);
    assert(s.take(name.len() as int) =~= name);
}

/// A name without a dot, or with one only in front, has no ending.
pub proof fn plain_names_have_no_ending(name: Seq<char>)
    requires
        name.len() > 0 ==> !name.skip(1).contains('.'),
    ensures
        extension_of(name) is None,
        stem(name) == name,
{
    let i: int = if name.len() > 0 && name[0] == '.' {
        0
    } else {
        -1
    };
    assert forall|k: int| i < k < name.len() implies name[k] != '.' by {
        if k > 0 {
            assert(name.skip(1)[k - 1] == name[k]);
        }
    }
    last_index_at(name, '.', i);
}

/// A path is the same as itself, and two paths that are the same lead to files of the same
/// name, from the same place.
pub proof fn same_paths_agree(a: Seq<char>, b: Seq<char>)
    ensures
        same_components(a, a),
        same_components(a, b) == same_components(b, a),
        same_components(a, b) ==> last_name(a) == last_name(b),
        same_components(a, b) ==> (a.len() > 0 && a[0] == '/') == (b.len() > 0 && b[0] == '/'),
{
}

/// Two paths from the root without empty or single-dot names are the same only if they are
/// written alike.
pub proof fn plain_paths_differ(a: Seq<Seq<char>>, b: Seq<Seq<char>>)
    requires
        a.len() > 0,
        b.len() > 0,
        forall|i: int|
            0 <= i < a.len() ==> (#[trigger] a[i]).len() > 0 && a[i] != "."@ && !a[i].contains(
                '/',
            ),
        forall|i: int|
            0 <= i < b.len() ==> (#[trigger] b[i]).len() > 0 && b[i] != "."@ && !b[i].contains(
                '/',
            ),
        same_components(
            seq!['/'] + joined(a, seq!['/']),
            seq!['/'] + joined(b, seq!['/']),
        ),
    ensures
        a == b,
{
    names_are_components(a);
    names_are_components(b);
}

proof fn names_are_components(names: Seq<Seq<char>>)
    requires
        names.len() > 0,
        forall|i: int|
            0 <= i < names.len() ==> (#[trigger] names[i]).len() > 0 && names[i] != "."@
                && !names[i].contains('/'),
    ensures
        components(seq!['/'] + joined(names, seq!['/'])) == names,
    decreases names.len(),
{
    let keep = |p: Seq<char>| names_something(p);
    let text = seq!['/'] + joined(names, seq!['/']);
    let last = names.last();
    assert(last == names[names.len() - 1]);
    first_index_at(last, '/', last.len() as int);
    assert(pieces(last, '/') =~= seq![last]);
    reveal(Seq::filter);
    if names.len() == 1 {
        let none = Seq::<char>::empty();
        assert(text =~= none + seq!['/'] + last);
        pieces_of_both(none, '/', last);
        assert(pieces(none, '/') =~= seq![none]);
        let all = pieces(text, '/');
        assert(all =~= seq![none, last]);
        assert(all.drop_last() =~= seq![none]);
        assert(all.drop_last().drop_last() =~= Seq::empty());
        assert(!keep(none));
        assert(all.drop_last().last() == none);
        assert(all.drop_last().filter(keep) == all.drop_last().drop_last().filter(keep));
        assert(components(text) == all.drop_last().filter(keep).push(last));
        assert(components(text) =~= names);
    } else {
        let before = names.drop_last();
        assert forall|i: int| 0 <= i < before.len() implies (#[trigger] before[i]).len() > 0
            && before[i] != "."@ && !before[i].contains('/') by {
            assert(before[i] == names[i]);
        }
        names_are_components(before);
        let lead = seq!['/'] + joined(before, seq!['/']);
        assert(text =~= lead + seq!['/'] + last);
        pieces_of_both(lead, '/', last);
        let all = pieces(text, '/');
        assert(all =~= pieces(lead, '/').push(last));
        assert(all.drop_last() =~= pieces(lead, '/'));
        assert(components(text) == components(lead).push(last));
        assert(before.push(last) =~= names);
    }
}

} // verus!
