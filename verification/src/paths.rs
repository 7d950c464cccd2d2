//! Slash-separated paths as text.

use vstd::prelude::*;

use crate::text::{chars_of, same_text, texts};

verus! {

/// `name` inside `dir`: an absolute name stands for itself, and otherwise
/// one slash separates the two unless `dir` is empty or ends in one.
pub open spec fn joined_path(dir: Seq<char>, name: Seq<char>) -> Seq<char> {
    if dir.len() == 0 || (name.len() > 0 && name[0] == '/') {
        name
    } else if dir.last() == '/' {
        dir + name
    } else {
        dir.push('/') + name
    }
}

/// `name` inside `dir`.
pub fn join_path(dir: &str, name: &str) -> (path: String)
    ensures
        path@ == joined_path(dir@, name@),
{
    let d = chars_of(dir);
    let n = chars_of(name);
    if d.len() == 0 || (n.len() > 0 && n[0] == '/') {
        return name.to_owned();
    }
    let mut path = dir.to_owned();
    if d[d.len() - 1] != '/' {
        path.push('/');
    }
    path.append(name);
    path
}

/// Whether a path starts at the root.
pub open spec fn is_rooted(path: Seq<char>) -> bool {
    path.len() > 0 && path[0] == '/'
}

/// What stands between the slashes of a path.
pub open spec fn path_names(path: Seq<char>) -> Seq<Seq<char>>
    decreases path.len(),
{
    if path.len() == 0 {
        seq![Seq::empty()]
    } else {
        let before = path_names(path.drop_last());
        if path.last() == '/' {
            before.push(Seq::empty())
        } else {
            before.update(before.len() - 1, before.last().push(path.last()))
        }
    }
}

/// The names that count: not the empty ones that repeated and trailing
/// slashes leave, nor a dot, but for one that starts the path.
pub open spec fn counted_names(names: Seq<Seq<char>>) -> Seq<Seq<char>>
    decreases names.len(),
{
    if names.len() == 0 {
        Seq::empty()
    } else {
        let before = counted_names(names.drop_last());
        if names.last().len() == 0 || (names.last() == "."@ && names.len() > 1) {
            before
        } else {
            before.push(names.last())
        }
    }
}

/// The components of a path below its root.
pub open spec fn path_parts(path: Seq<char>) -> Seq<Seq<char>> {
    counted_names(path_names(path))
}

/// Whether two texts are the same path, however it is written.
pub open spec fn same_path(a: Seq<char>, b: Seq<char>) -> bool {
    is_rooted(a) == is_rooted(b) && path_parts(a) == path_parts(b)
}

/// What stands between the slashes of a path.
fn names_of(path: &str) -> (names: Vec<String>)
    ensures
        texts(names@) == path_names(path@),
{
    let chars = chars_of(path);
    let mut names: Vec<String> = Vec::new();
    let mut name = String::new();
    let mut i: usize = 0;
    assert(chars@.take(0) =~= Seq::empty());
    assert(texts(names@).push(name@) =~= path_names(chars@.take(0)));
    while i < chars.len()
        invariant
            i <= chars@.len(),
            texts(names@).push(name@) == path_names(chars@.take(i as int)),
        decreases chars@.len() - i,
    {
        let c: char = chars[i];
        let ghost before = texts(names@).push(name@);
        proof {
            assert(chars@.take(i + 1).drop_last() =~= chars@.take(i as int));
            assert(chars@.take(i + 1).last() == c);
        }
        if c == '/' {
            let ghost list = names@;
            names.push(name);
            name = String::new();
            assert(texts(names@) =~= texts(list).push(before.last()));
            assert(texts(names@) =~= before);
            assert(name@ =~= Seq::empty());
        } else {
            let ghost list = texts(names@);
            name.push(c);
            assert(list.push(name@) =~= before.update(before.len() - 1, before.last().push(c)));
        }
        i += 1;
    }
    assert(chars@.take(chars@.len() as int) =~= chars@);
    let ghost list = texts(names@);
    names.push(name);
    assert(texts(names@) =~= list.push(name@));
    names
}

/// The components of a path below its root.
fn parts_of(path: &str) -> (parts: Vec<String>)
    ensures
        texts(parts@) == path_parts(path@),
{
    let names = names_of(path);
    let ghost all = texts(names@);
    let mut parts: Vec<String> = Vec::new();
    let mut i: usize = 0;
    assert(texts(parts@) =~= counted_names(all.take(0)));
    while i < names.len()
        invariant
            i <= names@.len(),
            all == texts(names@),
            texts(parts@) == counted_names(all.take(i as int)),
        decreases names@.len() - i,
    {
        proof {
            assert(all.take(i + 1).drop_last() =~= all.take(i as int));
            assert(all.take(i + 1).last() == names@[i as int]@);
        }
        let empty = chars_of(names[i].as_str()).len() == 0;
        if !empty && (i == 0 || !same_text(names[i].as_str(), ".")) {
            let ghost list = texts(parts@);
            parts.push(names[i].clone());
            assert(texts(parts@) =~= list.push(all[i as int]));
        }
        i += 1;
    }
    assert(all.take(all.len() as int) =~= all);
    parts
}

/// Whether a path starts at the root.
fn starts_at_root(path: &str) -> (rooted: bool)
    ensures
        rooted == is_rooted(path@),
{
    let chars = chars_of(path);
    chars.len() > 0 && chars[0] == '/'
}

/// Whether two texts are the same path: repeated and trailing slashes and
/// dots within it do not count.
pub fn are_same_path(a: &str, b: &str) -> (same: bool)
    ensures
        same == same_path(a@, b@),
{
    if starts_at_root(a) != starts_at_root(b) {
        return false;
    }
    let ours = parts_of(a);
    let theirs = parts_of(b);
    if ours.len() != theirs.len() {
        assert(texts(ours@).len() != texts(theirs@).len());
        return false;
    }
    let mut i: usize = 0;
    while i < ours.len()
        invariant
            i <= ours@.len(),
            ours@.len() == theirs@.len(),
            forall|k: int| 0 <= k < i ==> (#[trigger] ours@[k])@ == theirs@[k]@,
            texts(ours@) == path_parts(a@),
            texts(theirs@) == path_parts(b@),
        decreases ours@.len() - i,
    {
        if !same_text(ours[i].as_str(), theirs[i].as_str()) {
            assert(texts(ours@)[i as int] != texts(theirs@)[i as int]);
            return false;
        }
        i += 1;
    }
    assert(texts(ours@) =~= texts(theirs@));
    true
}

/// A name is put into a directory with one slash between them; an absolute
/// name, or an empty directory, leaves the name alone.
pub proof fn law_joining_paths(dir: Seq<char>, name: Seq<char>)
    ensures
        dir.len() > 0 && dir.last() != '/' && (name.len() == 0 || name[0] != '/') ==> joined_path(
            dir,
            name,
        ) == dir + seq!['/'] + name,
        dir.len() > 0 && dir.last() == '/' && (name.len() == 0 || name[0] != '/') ==> joined_path(
            dir,
            name,
        ) == dir + name,
        name.len() > 0 && name[0] == '/' ==> joined_path(dir, name) == name,
        joined_path(Seq::empty(), name) == name,
{
    if dir.len() > 0 && dir.last() != '/' && (name.len() == 0 || name[0] != '/') {
        assert(dir.push('/') + name =~= dir + seq!['/'] + name);
    }
}

/// A slash parts the names of a path, and nothing else does.
pub proof fn law_slashes_part_names(dir: Seq<char>, rest: Seq<char>, name: Seq<char>)
    requires
        forall|i: int| 0 <= i < name.len() ==> #[trigger] name[i] != '/',
    ensures
        path_names(dir + seq!['/'] + rest) == path_names(dir) + path_names(rest),
        path_names(name) == seq![name],
        path_names(dir).len() >= 1,
    decreases rest.len(), name.len(), dir.len(),
{
    lemma_names_are_some(dir);
    lemma_parted_names(dir, rest);
    lemma_one_name(name);
}

proof fn lemma_names_are_some(path: Seq<char>)
    ensures
        path_names(path).len() >= 1,
    decreases path.len(),
{
    if path.len() > 0 {
        lemma_names_are_some(path.drop_last());
    }
}

proof fn lemma_parted_names(dir: Seq<char>, rest: Seq<char>)
    ensures
        path_names(dir + seq!['/'] + rest) == path_names(dir) + path_names(rest),
    decreases rest.len(),
{
    let all = dir + seq!['/'] + rest;
    lemma_names_are_some(dir);
    if rest.len() == 0 {
        assert(all.drop_last() =~= dir);
        assert(all.last() == '/');
        assert(path_names(all) =~= path_names(dir) + path_names(rest));
    } else {
        lemma_parted_names(dir, rest.drop_last());
        lemma_names_are_some(rest.drop_last());
        assert(all.drop_last() =~= dir + seq!['/'] + rest.drop_last());
        assert(all.last() == rest.last());
        assert(path_names(all) =~= path_names(dir) + path_names(rest));
    }
}

proof fn lemma_one_name(name: Seq<char>)
    requires
        forall|i: int| 0 <= i < name.len() ==> #[trigger] name[i] != '/',
    ensures
        path_names(name) == seq![name],
    decreases name.len(),
{
    if name.len() > 0 {
        let before = name.drop_last();
        assert forall|i: int| 0 <= i < before.len() implies #[trigger] before[i] != '/' by {
            assert(before[i] == name[i]);
        }
        lemma_one_name(before);
        assert(name[name.len() - 1] != '/');
        assert(before.push(name.last()) =~= name);
        assert(path_names(name) =~= seq![name]);
    } else {
        assert(name =~= Seq::empty());
    }
}

/// Of a path's names all count but the empty ones and the dots behind the
/// first name.
pub proof fn law_which_names_count(names: Seq<Seq<char>>, last: Seq<char>)
    ensures
        counted_names(Seq::empty()).len() == 0,
        last.len() == 0 ==> counted_names(names.push(last)) == counted_names(names),
        last == seq!['.'] && names.len() > 0 ==> counted_names(names.push(last)) == counted_names(
            names,
        ),
        last.len() > 0 && (last != seq!['.'] || names.len() == 0) ==> counted_names(
            names.push(last),
        ) == counted_names(names).push(last),
{
    reveal_strlit(".");
    assert("."@ =~= seq!['.']);
    assert(names.push(last).drop_last() =~= names);
}

/// Two texts are the same path exactly if both or neither start at the root
/// and the same names count in them; a slash more at the end, or a dot, makes
/// no other path.
pub proof fn law_same_paths(a: Seq<char>, b: Seq<char>)
    ensures
        same_path(a, b) <==> (a.len() > 0 && a[0] == '/' <==> b.len() > 0 && b[0] == '/')
            && counted_names(path_names(a)) == counted_names(path_names(b)),
        a.len() > 0 ==> same_path(a, a + seq!['/']) && same_path(a, a + seq!['/'] + seq!['.']),
        same_path(a, b) ==> same_path(b, a),
{
    if a.len() > 0 {
        let slash = a + seq!['/'];
        let dot = a + seq!['/'] + seq!['.'];
        assert(slash =~= a + seq!['/'] + Seq::<char>::empty());
        law_slashes_part_names(a, Seq::empty(), Seq::empty());
        law_slashes_part_names(a, seq!['.'], seq!['.']);
        assert(path_names(slash) =~= path_names(a).push(Seq::empty()));
        assert(path_names(dot) =~= path_names(a).push(seq!['.']));
        law_which_names_count(path_names(a), Seq::empty());
        law_which_names_count(path_names(a), seq!['.']);
        assert(slash[0] == a[0] && dot[0] == a[0]);
    }
}

} // verus!
