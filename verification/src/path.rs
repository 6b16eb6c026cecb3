//! Paths as Unix knows them: components that slashes part.
//!
//! Repeated slashes count as one, and a component `.` counts for nothing unless the path starts
//! with it.
use crate::text::{find_last, is_text, utf8};
use vstd::prelude::*;
use vstd::slice::slice_subrange;

verus! {

/// Where the components that can be taken off a path start: behind the root, or behind a dot
/// that the path starts with.
pub open spec fn body_start(path: Seq<u8>) -> int {
    if path.len() > 0 && (path[0] == 47 || (path[0] == 46 && (path.len() == 1 || path[1] == 47))) {
        1
    } else {
        0
    }
}

/// Where the last component starts.
pub open spec fn last_start(path: Seq<u8>) -> int {
    match path.skip(body_start(path)).index_of_last(47u8) {
        Some(at) => body_start(path) + at + 1,
        None => body_start(path),
    }
}

/// The last component, empty when the path ends with a slash.
pub open spec fn last_component(path: Seq<u8>) -> Seq<u8> {
    path.skip(last_start(path))
}

/// The path without its last component and the slash before it.
pub open spec fn without_last(path: Seq<u8>) -> Seq<u8> {
    if last_start(path) > body_start(path) {
        path.take(last_start(path) - 1)
    } else {
        path.take(body_start(path))
    }
}

/// Whether a path ends with something that counts for nothing.
pub open spec fn has_idle_end(path: Seq<u8>) -> bool {
    &&& path.len() > body_start(path)
    &&& last_component(path) == Seq::<u8>::empty() || last_component(path) == seq![46u8]
}

/// The path without what counts for nothing at its end.
pub open spec fn without_idle_end(path: Seq<u8>) -> Seq<u8>
    decreases path.len(),
{
    if has_idle_end(path) {
        proof {
            path.skip(body_start(path)).index_of_last_ensures(47u8);
        }
        without_idle_end(without_last(path))
    } else {
        path
    }
}

/// The path of the directory that a path lies in; `None` for the root and for the empty path.
pub open spec fn parent(path: Seq<u8>) -> Option<Seq<u8>> {
    let named = without_idle_end(path);
    if named.len() > body_start(named) {
        Some(without_idle_end(without_last(named)))
    } else if named.len() > 0 && named[0] == 46 {
        Some(Seq::empty())
    } else {
        None
    }
}

/// The last component, if it is a name.
pub open spec fn file_name(path: Seq<u8>) -> Option<Seq<u8>> {
    let named = without_idle_end(path);
    if named.len() > body_start(named) && last_component(named) != seq![46u8, 46u8] {
        Some(last_component(named))
    } else {
        None
    }
}

/// What follows the last dot of the file name, unless the name starts with that dot.
pub open spec fn extension(path: Seq<u8>) -> Option<Seq<u8>> {
    match file_name(path) {
        Some(name) => match name.index_of_last(46u8) {
            Some(at) => if at == 0 {
                None
            } else {
                Some(name.skip(at + 1))
            },
            None => None,
        },
        None => None,
    }
}

proof fn lemma_last_component_bounds(path: Seq<u8>)
    ensures
        body_start(path) <= last_start(path) <= path.len(),
        without_last(path).len() <= path.len(),
        path.len() > body_start(path) ==> without_last(path).len() < path.len(),
        without_last(path) == path.take(without_last(path).len() as int),
{
    path.skip(body_start(path)).index_of_last_ensures(47u8);
}

proof fn lemma_idle_end_is_cut_off(path: Seq<u8>)
    ensures
        without_idle_end(path).len() <= path.len(),
        without_idle_end(path) == path.take(without_idle_end(path).len() as int),
    decreases path.len(),
{
    if has_idle_end(path) {
        let shorter = without_last(path);
        lemma_last_component_bounds(path);
        lemma_idle_end_is_cut_off(shorter);
        let len = without_idle_end(path).len() as int;
        assert(path.take(len) =~= shorter.take(len));
    } else {
        assert(path.take(path.len() as int) =~= path);
    }
}

/// The path of the directory is what a path starts with.
pub proof fn law_path_starts_with_its_parent(path: Seq<u8>)
    requires
        parent(path) is Some,
    ensures
        parent(path)->0.is_prefix_of(path),
{
    let named = without_idle_end(path);
    lemma_idle_end_is_cut_off(path);
    lemma_last_component_bounds(named);
    lemma_idle_end_is_cut_off(without_last(named));
    let len = parent(path)->0.len() as int;
    assert(parent(path)->0 =~= path.take(len));
}

/// A path with an extension lies in a directory.
pub proof fn law_path_with_extension_has_a_parent(path: Seq<u8>)
    requires
        extension(path) is Some,
    ensures
        parent(path) is Some,
{
}

/// Where the components that can be taken off a path start.
fn find_body(path: &[u8]) -> (start: usize)
    ensures
        start == body_start(path@),
        start <= path@.len(),
{
    if path.len() == 0 {
        return 0;
    }
    if path[0] == 47 || (path[0] == 46 && (path.len() == 1 || path[1] == 47)) {
        1
    } else {
        0
    }
}

/// Where the last component starts.
fn find_last_start(path: &[u8]) -> (start: usize)
    ensures
        start == last_start(path@),
        body_start(path@) <= start <= path@.len(),
{
    let from: usize = find_body(path);
    let body: &[u8] = slice_subrange(path, from, path.len());
    assert(body@ =~= path@.skip(from as int));
    match find_last(body, 47) {
        Some(at) => from + at + 1,
        None => from,
    }
}

/// The last component.
fn take_last_component(path: &[u8]) -> (name: &[u8])
    ensures
        name@ == last_component(path@),
{
    let start: usize = find_last_start(path);
    slice_subrange(path, start, path.len())
}

/// The path without its last component and the slash before it.
fn cut_last(path: &[u8]) -> (rest: &[u8])
    ensures
        rest@ == without_last(path@),
{
    let from: usize = find_body(path);
    let start: usize = find_last_start(path);
    if start > from {
        slice_subrange(path, 0, start - 1)
    } else {
        slice_subrange(path, 0, from)
    }
}

/// Whether a path ends with something that counts for nothing.
fn ends_idly(path: &[u8]) -> (idle: bool)
    ensures
        idle == has_idle_end(path@),
{
    if path.len() <= find_body(path) {
        return false;
    }
    let name: &[u8] = take_last_component(path);
    if name.len() == 0 {
        assert(name@ =~= Seq::<u8>::empty());
        true
    } else {
        let idle: bool = name.len() == 1 && name[0] == 46;
        assert(idle ==> name@ =~= seq![46u8]);
        idle
    }
}

/// The path without what counts for nothing at its end.
fn cut_idle_end(path: &[u8]) -> (rest: &[u8])
    ensures
        rest@ == without_idle_end(path@),
{
    let mut rest: &[u8] = path;
    while ends_idly(rest)
        invariant
            without_idle_end(rest@) == without_idle_end(path@),
        decreases rest@.len(),
    {
        proof {
            lemma_last_component_bounds(rest@);
        }
        rest = cut_last(rest);
    }
    rest
}

/// The path of the directory that a path lies in.
pub fn parent_of(path: &[u8]) -> (dir: Option<&[u8]>)
    ensures
        match dir {
            Some(bytes) => parent(path@) == Some(bytes@),
            None => parent(path@) is None,
        },
{
    let named: &[u8] = cut_idle_end(path);
    if named.len() > find_body(named) {
        Some(cut_idle_end(cut_last(named)))
    } else if named.len() > 0 && named[0] == 46 {
        let none: &[u8] = slice_subrange(named, 0, 0);
        assert(none@ =~= Seq::<u8>::empty());
        Some(none)
    } else {
        None
    }
}

/// Whether a path has the extension `php`.
pub fn is_php_file(path: &[u8]) -> (php: bool)
    ensures
        php == (extension(path@) == Some(utf8("php"))),
{
    let named: &[u8] = cut_idle_end(path);
    if named.len() <= find_body(named) {
        return false;
    }
    let name: &[u8] = take_last_component(named);
    if name.len() == 2 && name[0] == 46 && name[1] == 46 {
        assert(name@ =~= seq![46u8, 46u8]);
        return false;
    }
    assert(name@ != seq![46u8, 46u8]);
    match find_last(name, 46) {
        Some(at) => at != 0 && is_text(slice_subrange(name, at + 1, name.len()), "php"),
        None => false,
    }
}

proof fn lemma_last_slash(path: Seq<u8>, at: int)
    requires
        body_start(path) <= at < path.len(),
        path[at] == 47,
        forall|i: int| at < i < path.len() ==> #[trigger] path[i] != 47,
    ensures
        last_start(path) == at + 1,
{
    let body = path.skip(body_start(path));
    body.index_of_last_ensures(47u8);
    assert(body[at - body_start(path)] == 47);
    assert(body.contains(47u8));
    let found = body.index_of_last(47u8)->0;
    assert(body[found] == path[found + body_start(path)]);
}

proof fn lemma_no_slash(path: Seq<u8>)
    requires
        forall|i: int| body_start(path) <= i < path.len() ==> #[trigger] path[i] != 47,
    ensures
        last_start(path) == body_start(path),
{
    let body = path.skip(body_start(path));
    body.index_of_last_ensures(47u8);
    if body.contains(47u8) {
        let found = body.index_of_last(47u8)->0;
        assert(body[found] == path[found + body_start(path)]);
    }
}

pub(crate) proof fn lemma_name_is_taken_off(dir: Seq<u8>, name: Seq<u8>)
    requires
        name.len() > 0,
        name != seq![46u8],
        forall|i: int| 0 <= i < name.len() ==> #[trigger] name[i] != 47,
        dir.len() > 0 ==> dir.last() != 47 && dir.last() != 46,
    ensures
        parent(dir + seq![47u8] + name) == Some(
            if dir.len() > 0 {
                dir
            } else {
                seq![47u8]
            },
        ),
{
    let whole = dir + seq![47u8] + name;
    assert(whole[dir.len() as int] == 47);
    assert forall|i: int| dir.len() < i < whole.len() implies #[trigger] whole[i] != 47 by {
        assert(whole[i] == name[i - dir.len() - 1]);
    }
    if dir.len() == 0 {
        assert forall|i: int| 1 <= i < whole.len() implies #[trigger] whole[i] != 47 by {
            assert(whole[i] == name[i - 1]);
        }
        lemma_no_slash(whole);
        assert(last_component(whole) =~= name);
        assert(without_last(whole) =~= seq![47u8]);
        assert(!has_idle_end(seq![47u8]));
    } else {
        assert(whole[0] == dir[0]);
        if dir.len() > 1 {
            assert(whole[1] == dir[1]);
        }
        assert(body_start(whole) == body_start(dir));
        lemma_last_slash(whole, dir.len() as int);
        assert(last_component(whole) =~= name);
        assert(without_last(whole) =~= dir);
        lemma_last_component_bounds(dir);
        if has_idle_end(dir) {
            let last = last_component(dir);
            if last.len() == 0 {
                let body = dir.skip(body_start(dir));
                body.index_of_last_ensures(47u8);
                assert(body[body.len() - 1] == dir.last());
            } else {
                assert(last.last() == dir.last());
                assert(last[0] == 46);
            }
        }
    }
}

/// The directory of `dir/name` is `dir`, and that of `/name` is the root.
pub proof fn law_name_is_taken_off(
    dir: Seq<u8>,
    name: Seq<u8>,
    path: &[u8],
    found: Option<&[u8]>,
)
    requires
        call_ensures(parent_of, (path,), found),
        name.len() > 0,
        name != seq![46u8],
        forall|i: int| 0 <= i < name.len() ==> #[trigger] name[i] != 47,
        path@ == dir + seq![47u8] + name,
        dir.len() > 0 ==> dir.last() != 47 && dir.last() != 46,
    ensures
        found is Some,
        dir.len() > 0 ==> found->0@ == dir,
        dir.len() == 0 ==> found->0@ == seq![47u8],
{
    lemma_name_is_taken_off(dir, name);
}

pub(crate) proof fn lemma_extension_follows_the_last_dot(
    dir: Seq<u8>,
    stem: Seq<u8>,
    ext: Seq<u8>,
)
    requires
        dir.len() > 0 ==> dir.last() == 47,
        stem.len() > 0,
        ext.len() > 0,
        forall|i: int| 0 <= i < stem.len() ==> #[trigger] stem[i] != 47,
        forall|i: int| 0 <= i < ext.len() ==> #[trigger] ext[i] != 47 && ext[i] != 46,
    ensures
        extension(dir + stem + seq![46u8] + ext) == Some(ext),
{
    let name = stem + seq![46u8] + ext;
    assert(dir + stem + seq![46u8] + ext =~= dir + name);
    assert forall|i: int| 0 <= i < name.len() implies #[trigger] name[i] != 47 by {
        if i < stem.len() {
            assert(name[i] == stem[i]);
        } else if i > stem.len() {
            assert(name[i] == ext[i - stem.len() - 1]);
        }
    }
    lemma_plain_last_component(dir, name);
    let dot = stem.len() as int;
    name.index_of_last_ensures(46u8);
    assert(name[dot] == 46);
    assert(name.contains(46u8));
    let at = name.index_of_last(46u8)->0;
    assert(name[at] == 46);
    if at > dot {
        assert(name[at] == ext[at - dot - 1]);
    }
    assert(name.skip(dot + 1) =~= ext);
    assert(name[name.len() - 1] == ext[ext.len() - 1]);
    assert(name != seq![46u8, 46u8]);
}

/// A path has the extension `php` when its last component is `stem.php`, whatever the stem and
/// the directory, and when it ends with another extension it has not.
pub proof fn law_extension_follows_the_last_dot(
    dir: Seq<u8>,
    stem: Seq<u8>,
    ext: Seq<u8>,
    path: &[u8],
    php: bool,
)
    requires
        call_ensures(is_php_file, (path,), php),
        dir.len() > 0 ==> dir.last() == 47,
        stem.len() > 0,
        ext.len() > 0,
        forall|i: int| 0 <= i < stem.len() ==> #[trigger] stem[i] != 47,
        forall|i: int| 0 <= i < ext.len() ==> #[trigger] ext[i] != 47 && ext[i] != 46,
        path@ == dir + stem + seq![46u8] + ext,
    ensures
        extension(path@) == Some(ext),
        php <==> ext == utf8("php"),
{
    lemma_extension_follows_the_last_dot(dir, stem, ext);
}

/// A path whose last component has no dot, or none but at its start, has no extension.
pub proof fn law_no_dot_no_extension(dir: Seq<u8>, name: Seq<u8>, path: &[u8], php: bool)
    requires
        call_ensures(is_php_file, (path,), php),
        dir.len() > 0 ==> dir.last() == 47,
        name.len() > 1,
        forall|i: int| 0 <= i < name.len() ==> #[trigger] name[i] != 47,
        forall|i: int| 0 < i < name.len() ==> #[trigger] name[i] != 46,
        path@ == dir + name,
    ensures
        extension(path@) is None,
        !php,
{
    lemma_plain_last_component(dir, name);
    name.index_of_last_ensures(46u8);
    if name.contains(46u8) {
        assert(name[name.index_of_last(46u8)->0] == 46);
    }
    assert(name[1] != 46);
}

proof fn lemma_plain_last_component(dir: Seq<u8>, name: Seq<u8>)
    requires
        dir.len() > 0 ==> dir.last() == 47,
        name.len() > 1,
        name != seq![46u8],
        forall|i: int| 0 <= i < name.len() ==> #[trigger] name[i] != 47,
    ensures
        last_component(dir + name) == name,
        without_idle_end(dir + name) == dir + name,
        (dir + name).len() > body_start(dir + name),
{
    let path = dir + name;
    assert forall|i: int| dir.len() <= i < path.len() implies #[trigger] path[i] != 47 by {
        assert(path[i] == name[i - dir.len()]);
    }
    if dir.len() == 0 {
        assert(path =~= name);
        assert(path[1] != 47);
        lemma_no_slash(path);
    } else if body_start(path) == dir.len() {
        assert(path[0] == 47);
        lemma_no_slash(path);
    } else {
        assert(path[dir.len() - 1] == dir.last());
        lemma_last_slash(path, dir.len() - 1);
    }
    assert(last_component(path) =~= name);
}

proof fn lemma_idle_slash(path: Seq<u8>)
    requires
        path.len() > 0,
    ensures
        without_idle_end(path.push(47)) == without_idle_end(path),
        without_idle_end(path.push(47).push(46)) == without_idle_end(path),
{
    let slash = path.push(47);
    let dot = slash.push(46);
    assert(slash[0] == path[0] && dot[0] == path[0]);
    if path.len() > 1 {
        assert(slash[1] == path[1] && dot[1] == path[1]);
    }
    assert(body_start(slash) == body_start(path));
    assert(body_start(dot) == body_start(path));
    lemma_last_slash(slash, path.len() as int);
    lemma_last_slash(dot, path.len() as int);
    assert(last_component(slash) =~= Seq::<u8>::empty());
    assert(last_component(dot) =~= seq![46u8]);
    assert(without_last(slash) =~= path);
    assert(without_last(dot) =~= path);
}

proof fn lemma_parent_below(dir: Seq<u8>, name: Seq<u8>)
    requires
        dir.len() > 0,
        name.len() > 0,
        name != seq![46u8],
        forall|i: int| 0 <= i < name.len() ==> #[trigger] name[i] != 47,
    ensures
        parent(dir.push(47) + name) == Some(without_idle_end(dir)),
{
    let path = dir.push(47) + name;
    assert(path[0] == dir[0]);
    assert(path[dir.len() as int] == 47);
    if dir.len() > 1 {
        assert(path[1] == dir[1]);
    }
    assert(body_start(path) == body_start(dir));
    assert forall|i: int| dir.len() < i < path.len() implies #[trigger] path[i] != 47 by {
        assert(path[i] == name[i - dir.len() - 1]);
    }
    lemma_last_slash(path, dir.len() as int);
    assert(last_component(path) =~= name);
    assert(without_last(path) =~= dir);
}

/// More than one slash in a row, a component `.` behind the first and a slash at the end make no
/// difference to the directory of a path.
pub proof fn law_idle_parts_make_no_difference(
    dir: Seq<u8>,
    name: Seq<u8>,
    plain: &[u8],
    slashes: &[u8],
    dotted: &[u8],
    ended: &[u8],
    from_plain: Option<&[u8]>,
    from_slashes: Option<&[u8]>,
    from_dotted: Option<&[u8]>,
    from_ended: Option<&[u8]>,
)
    requires
        call_ensures(parent_of, (plain,), from_plain),
        call_ensures(parent_of, (slashes,), from_slashes),
        call_ensures(parent_of, (dotted,), from_dotted),
        call_ensures(parent_of, (ended,), from_ended),
        dir.len() > 0,
        name.len() > 0,
        name != seq![46u8],
        forall|i: int| 0 <= i < name.len() ==> #[trigger] name[i] != 47,
        plain@ == dir.push(47) + name,
        slashes@ == dir.push(47).push(47) + name,
        dotted@ == dir.push(47).push(46).push(47) + name,
        ended@ == plain@.push(47),
    ensures
        from_plain is Some && from_slashes is Some && from_dotted is Some && from_ended is Some,
        from_slashes->0@ == from_plain->0@,
        from_dotted->0@ == from_plain->0@,
        from_ended->0@ == from_plain->0@,
{
    lemma_parent_below(dir, name);
    lemma_parent_below(dir.push(47), name);
    lemma_parent_below(dir.push(47).push(46), name);
    lemma_idle_slash(dir);
    lemma_idle_slash(plain@);
}

/// A name alone lies in the directory with the empty path; the root and the empty path lie in
/// none. The names of directories of their own, one dot or two, have no extension.
pub proof fn law_names_alone_have_an_empty_parent(
    path: &[u8],
    found: Option<&[u8]>,
    php: bool,
)
    requires
        call_ensures(parent_of, (path,), found),
        call_ensures(is_php_file, (path,), php),
    ensures
        path@.len() > 0 && (forall|i: int| 0 <= i < path@.len() ==> #[trigger] path@[i] != 47)
            ==> found is Some && found->0@.len() == 0,
        (forall|i: int| 0 <= i < path@.len() ==> #[trigger] path@[i] == 47) ==> found is None
            && !php,
        path@ == seq![46u8] || path@ == seq![46u8, 46u8] ==> !php,
{
    let s = path@;
    if s.len() > 0 && forall|i: int| 0 <= i < s.len() ==> #[trigger] s[i] != 47 {
        assert(s[0] != 47);
        if s.len() > 1 {
            assert(s[1] != 47);
        }
        lemma_no_slash(s);
        if body_start(s) == 0 {
            assert(last_component(s) =~= s);
            if s == seq![46u8] {
                assert(body_start(s) == 1);
            }
            assert(!has_idle_end(s));
            assert(without_last(s) =~= Seq::<u8>::empty());
        }
    }
    if forall|i: int| 0 <= i < s.len() ==> #[trigger] s[i] == 47 {
        lemma_slashes_alone(s);
    }
    if s == seq![46u8, 46u8] {
        lemma_no_slash(s);
        assert(last_component(s) =~= s);
    }
}

proof fn lemma_slashes_alone(s: Seq<u8>)
    requires
        forall|i: int| 0 <= i < s.len() ==> #[trigger] s[i] == 47,
    ensures
        without_idle_end(s).len() <= 1,
        without_idle_end(s).len() == 1 ==> without_idle_end(s)[0] == 47,
        s.len() == 0 ==> without_idle_end(s).len() == 0,
    decreases s.len(),
{
    if s.len() > 1 {
        let shorter = s.drop_last();
        lemma_slashes_alone(shorter);
        assert(s =~= shorter.push(47));
        lemma_idle_slash(shorter);
    }
}

/// A slash at the end of a path, and a component `.` behind it, make no difference to whether it
/// has the extension `php`.
pub proof fn law_idle_end_hides_no_extension(
    plain: &[u8],
    slash: &[u8],
    dot: &[u8],
    from_plain: bool,
    from_slash: bool,
    from_dot: bool,
)
    requires
        call_ensures(is_php_file, (plain,), from_plain),
        call_ensures(is_php_file, (slash,), from_slash),
        call_ensures(is_php_file, (dot,), from_dot),
        plain@.len() > 0,
        slash@ == plain@.push(47),
        dot@ == plain@.push(47).push(46),
    ensures
        from_slash == from_plain,
        from_dot == from_plain,
{
    lemma_idle_slash(plain@);
}

} // verus!
