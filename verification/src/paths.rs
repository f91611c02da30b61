//! Paths as text: file names, parents, extensions.
//!
//! A path is a sequence of components with slashes between them. Repeated slashes, a slash at the end
//! and components `.` that are not the first do not count.

use vstd::prelude::*;

use crate::text::{cat, cat3, chars_of, rfind_char, string_of};

verus! {

/// `s` without what does not count at its end.
pub open spec fn trim_tail(s: Seq<char>) -> Seq<char>
    decreases s.len(),
{
    if s.len() > 1 && s.last() == '/' {
        trim_tail(s.drop_last())
    } else if s.len() > 1 && s.last() == '.' && s[s.len() - 2] == '/' {
        trim_tail(s.drop_last())
    } else {
        s
    }
}

/// Where the last component of a trimmed path begins.
pub open spec fn last_start(t: Seq<char>) -> int
    decreases t.len(),
{
    if t.len() == 0 || t.last() == '/' {
        t.len() as int
    } else {
        last_start(t.drop_last())
    }
}

/// The last component of a path, `None` where there is none or where it is `.` or `..`.
pub open spec fn file_name_of(s: Seq<char>) -> Option<Seq<char>> {
    let t = trim_tail(s);
    let name = t.subrange(last_start(t), t.len() as int);
    if name.len() == 0 || name == seq!['.'] || name == seq!['.', '.'] {
        None
    } else {
        Some(name)
    }
}

/// The path without its last component, `None` where it has none.
pub open spec fn parent_of(s: Seq<char>) -> Option<Seq<char>> {
    let t = trim_tail(s);
    if t.len() == 0 || t == seq!['/'] {
        None
    } else {
        Some(trim_tail(t.subrange(0, last_start(t))))
    }
}

/// Where the last dot of a file name stands; one at the start does not count.
pub open spec fn dot_of(name: Seq<char>) -> Option<int> {
    match rfind_char(name, |c: char| c == '.', name.len() as int) {
        Some(i) => if i > 0 {
            Some(i)
        } else {
            None
        },
        None => None,
    }
}

/// A file name without its extension.
pub open spec fn stem_of_name(name: Seq<char>) -> Seq<char> {
    match dot_of(name) {
        Some(i) => name.subrange(0, i),
        None => name,
    }
}

/// The extension of a file name.
pub open spec fn extension_of_name(name: Seq<char>) -> Option<Seq<char>> {
    match dot_of(name) {
        Some(i) => Some(name.subrange(i + 1, name.len() as int)),
        None => None,
    }
}

/// The file name of a path without its extension.
pub open spec fn file_stem_of(s: Seq<char>) -> Option<Seq<char>> {
    match file_name_of(s) {
        Some(name) => Some(stem_of_name(name)),
        None => None,
    }
}

/// The extension of a path's file name.
pub open spec fn extension_of(s: Seq<char>) -> Option<Seq<char>> {
    match file_name_of(s) {
        Some(name) => extension_of_name(name),
        None => None,
    }
}

/// Trimming takes off a tail.
pub proof fn lemma_trim_tail(s: Seq<char>)
    ensures
        trim_tail(s).len() <= s.len(),
        trim_tail(s) == s.subrange(0, trim_tail(s).len() as int),
        s.len() > 0 ==> trim_tail(s).len() > 0,
    decreases s.len(),
{
    if s.len() > 1 && (s.last() == '/' || (s.last() == '.' && s[s.len() - 2] == '/')) {
        lemma_trim_tail(s.drop_last());
        assert(s.drop_last().subrange(0, trim_tail(s).len() as int) =~= s.subrange(
            0,
            trim_tail(s).len() as int,
        ));
    } else {
        assert(s.subrange(0, s.len() as int) =~= s);
    }
}

/// The last component begins within the path, after a slash or at the start.
pub proof fn lemma_last_start(t: Seq<char>)
    ensures
        0 <= last_start(t) <= t.len(),
        last_start(t) > 0 ==> t[last_start(t) - 1] == '/',
        forall|i: int| last_start(t) <= i < t.len() ==> t[i] != '/',
    decreases t.len(),
{
    if t.len() > 0 && t.last() != '/' {
        lemma_last_start(t.drop_last());
        assert forall|i: int| last_start(t) <= i < t.len() implies t[i] != '/' by {
            if i < t.len() - 1 {
                assert(t[i] == t.drop_last()[i]);
            }
        }
    }
}

/// The length of what is left of the first `n` characters once their tail is trimmed.
fn trimmed_len(v: &Vec<char>, n: usize) -> (r: usize)
    requires
        n <= v@.len(),
    ensures
        r <= n,
        v@.subrange(0, r as int) == trim_tail(v@.subrange(0, n as int)),
{
    let mut k: usize = n;
    while k > 1 && (v[k - 1] == '/' || (v[k - 1] == '.' && v[k - 2] == '/'))
        invariant
            k <= n <= v@.len(),
            trim_tail(v@.subrange(0, n as int)) == trim_tail(v@.subrange(0, k as int)),
        decreases k,
    {
        assert(v@.subrange(0, k as int).drop_last() =~= v@.subrange(0, k - 1));
        k = k - 1;
    }
    k
}

/// Where the last component of the first `n` characters begins.
fn last_component(v: &Vec<char>, n: usize) -> (r: usize)
    requires
        n <= v@.len(),
    ensures
        r == last_start(v@.subrange(0, n as int)),
        r <= n,
{
    let mut k: usize = n;
    while k > 0 && v[k - 1] != '/'
        invariant
            k <= n <= v@.len(),
            last_start(v@.subrange(0, n as int)) == last_start(v@.subrange(0, k as int)),
        decreases k,
    {
        assert(v@.subrange(0, k as int).drop_last() =~= v@.subrange(0, k - 1));
        k = k - 1;
    }
    k
}

/// The last component of a path.
pub fn file_name(path: &str) -> (r: Option<String>)
    ensures
        r is Some <==> file_name_of(path@) is Some,
        r matches Some(name) ==> Some(name@) == file_name_of(path@),
{
    let v = chars_of(path);
    assert(v@.subrange(0, v@.len() as int) =~= path@);
    let n = trimmed_len(&v, v.len());
    let k = last_component(&v, n);
    let ghost t = v@.subrange(0, n as int);
    let ghost name = t.subrange(k as int, n as int);
    assert(name =~= v@.subrange(k as int, n as int));
    assert(n - k == 1 && v@[k as int] == '.' ==> name =~= seq!['.']);
    assert(n - k == 2 && v@[k as int] == '.' && v@[k + 1] == '.' ==> name =~= seq!['.', '.']);
    assert(name =~= seq!['.'] ==> name[0] == '.');
    assert(name =~= seq!['.', '.'] ==> name[0] == '.' && name[1] == '.');
    if k == n || (n - k == 1 && v[k] == '.') || (n - k == 2 && v[k] == '.' && v[k + 1] == '.') {
        return None;
    }
    Some(string_of(&v, k, n))
}

/// The path without its last component.
pub fn parent(path: &str) -> (r: Option<String>)
    ensures
        r is Some <==> parent_of(path@) is Some,
        r matches Some(p) ==> Some(p@) == parent_of(path@),
{
    let v = chars_of(path);
    assert(v@.subrange(0, v@.len() as int) =~= path@);
    let n = trimmed_len(&v, v.len());
    let ghost t = v@.subrange(0, n as int);
    assert(n == 1 && v@[0] == '/' ==> t =~= seq!['/']);
    assert(t =~= seq!['/'] ==> t[0] == '/');
    if n == 0 || (n == 1 && v[0] == '/') {
        return None;
    }
    let k = last_component(&v, n);
    assert(t.subrange(0, k as int) =~= v@.subrange(0, k as int));
    let m = trimmed_len(&v, k);
    Some(string_of(&v, 0, m))
}

/// Where the last dot of a file name stands.
fn find_dot(v: &Vec<char>) -> (r: Option<usize>)
    ensures
        r is Some <==> dot_of(v@) is Some,
        r matches Some(i) ==> Some(i as int) == dot_of(v@) && i < v@.len(),
{
    let ghost f = |c: char| c == '.';
    let mut k: usize = v.len();
    while k > 0 && v[k - 1] != '.'
        invariant
            k <= v@.len(),
            f == (|c: char| c == '.'),
            rfind_char(v@, f, v@.len() as int) == rfind_char(v@, f, k as int),
        decreases k,
    {
        k = k - 1;
    }
    if k > 1 {
        Some(k - 1)
    } else {
        None
    }
}

/// A file name without its extension.
pub fn name_stem(name: &str) -> (r: String)
    ensures
        r@ == stem_of_name(name@),
{
    let v = chars_of(name);
    match find_dot(&v) {
        Some(i) => string_of(&v, 0, i),
        None => name.to_owned(),
    }
}

/// The extension of a file name.
pub fn name_extension(name: &str) -> (r: Option<String>)
    ensures
        r is Some <==> extension_of_name(name@) is Some,
        r matches Some(e) ==> Some(e@) == extension_of_name(name@),
{
    let v = chars_of(name);
    let len: usize = v.len();
    match find_dot(&v) {
        Some(i) => Some(string_of(&v, i + 1, len)),
        None => None,
    }
}

/// The file name of a path without its extension.
pub fn file_stem(path: &str) -> (r: Option<String>)
    ensures
        r is Some <==> file_stem_of(path@) is Some,
        r matches Some(s) ==> Some(s@) == file_stem_of(path@),
{
    match file_name(path) {
        Some(name) => Some(name_stem(name.as_str())),
        None => None,
    }
}

/// The extension of a path's file name.
pub fn extension(path: &str) -> (r: Option<String>)
    ensures
        r is Some <==> extension_of(path@) is Some,
        r matches Some(e) ==> Some(e@) == extension_of(path@),
{
    match file_name(path) {
        Some(name) => name_extension(name.as_str()),
        None => None,
    }
}

/// A path's parent is shorter than the path.
pub proof fn law_parent_is_shorter(s: Seq<char>)
    ensures
        parent_of(s) matches Some(p) ==> p.len() < s.len(),
{
    let t = trim_tail(s);
    lemma_trim_tail(s);
    lemma_last_start(t);
    if t.len() > 0 && t != seq!['/'] {
        lemma_trim_tail(t.subrange(0, last_start(t)));
        if last_start(t) == t.len() {
            assert(t[t.len() - 1] == '/');
            if t.len() == 1 {
                assert(t =~= seq!['/']);
            }
            lemma_trimmed_end(s);
        }
    }
}

/// What is left after trimming has nothing more to trim.
proof fn lemma_trimmed_end(s: Seq<char>)
    ensures
        trim_tail(s).len() > 1 ==> trim_tail(s).last() != '/',
    decreases s.len(),
{
    if s.len() > 1 && (s.last() == '/' || (s.last() == '.' && s[s.len() - 2] == '/')) {
        lemma_trimmed_end(s.drop_last());
    }
}

/// The path with its file name's extension replaced; a path without a file name stays as it is.
pub open spec fn with_ext(s: Seq<char>, ext: Seq<char>) -> Seq<char> {
    let t = trim_tail(s);
    match file_stem_of(s) {
        Some(stem) => t.subrange(0, last_start(t)) + stem + "."@ + ext,
        None => s,
    }
}

/// A name in a directory.
pub open spec fn join_of(dir: Seq<char>, name: Seq<char>) -> Seq<char> {
    if dir.len() == 0 || dir.last() == '/' {
        dir + name
    } else {
        dir + "/"@ + name
    }
}

/// Replaces the extension of a path's file name by one that is not empty.
pub fn with_extension(path: &str, ext: &str) -> (r: String)
    ensures
        r@ == with_ext(path@, ext@),
{
    let v = chars_of(path);
    assert(v@.subrange(0, v@.len() as int) =~= path@);
    match file_stem(path) {
        Some(stem) => {
            let n = trimmed_len(&v, v.len());
            let k = last_component(&v, n);
            let ghost t = v@.subrange(0, n as int);
            assert(t.subrange(0, k as int) =~= v@.subrange(0, k as int));
            let head = string_of(&v, 0, k);
            let name = cat3(head.as_str(), stem.as_str(), ".");
            cat(name.as_str(), ext)
        },
        None => path.to_owned(),
    }
}

/// Puts a relative name into a directory.
pub fn join_name(dir: &str, name: &str) -> (r: String)
    ensures
        r@ == join_of(dir@, name@),
{
    let v = chars_of(dir);
    if v.len() == 0 || v[v.len() - 1] == '/' {
        cat(dir, name)
    } else {
        cat3(dir, "/", name)
    }
}

/// The last component of a path begins behind the last slash.
proof fn lemma_start_behind_slash(dir: Seq<char>, name: Seq<char>)
    requires
        dir.len() == 0 || dir.last() == '/',
        !name.contains('/'),
    ensures
        last_start(dir + name) == dir.len(),
    decreases name.len(),
{
    let t = dir + name;
    if name.len() == 0 {
        assert(t =~= dir);
    } else {
        assert(t.last() == name.last());
        assert(name.contains(name.last()));
        assert(t.drop_last() =~= dir + name.drop_last());
        assert(!name.drop_last().contains('/')) by {
            if name.drop_last().contains('/') {
                let i = choose|i: int| 0 <= i < name.drop_last().len() && name.drop_last()[i] == '/';
                assert(name[i] == '/');
            }
        }
        lemma_start_behind_slash(dir, name.drop_last());
    }
}

/// The last dot of a name is the one before an extension.
proof fn lemma_last_dot(stem: Seq<char>, ext: Seq<char>, to: int)
    requires
        !ext.contains('.'),
        stem.len() < to <= stem.len() + 1 + ext.len(),
    ensures
        rfind_char(stem + seq!['.'] + ext, |c: char| c == '.', to) == Some(stem.len() as int),
    decreases to,
{
    let name = stem + seq!['.'] + ext;
    if to > stem.len() + 1 {
        assert(name[to - 1] == ext[to - 2 - stem.len()]);
        assert(ext.contains(ext[to - 2 - stem.len()]));
        lemma_last_dot(stem, ext, to - 1);
    }
}

/// The name of a file in a directory is what follows the last slash. It divides at its last dot into the stem
/// and the extension, and the directory is the parent.
pub proof fn law_file_names_divide(dir: Seq<char>, stem: Seq<char>, ext: Seq<char>)
    requires
        dir.len() == 0 || dir.last() == '/',
        stem.len() > 0,
        ext.len() > 0,
        !stem.contains('/'),
        !ext.contains('/'),
        !ext.contains('.'),
    ensures
        ({
            let path = dir + (stem + seq!['.'] + ext);
            &&& file_name_of(path) == Some(stem + seq!['.'] + ext)
            &&& file_stem_of(path) == Some(stem)
            &&& extension_of(path) == Some(ext)
            &&& parent_of(path) == Some(trim_tail(dir))
        }),
{
    let name = stem + seq!['.'] + ext;
    let path = dir + name;
    assert(path.last() == ext.last());
    assert(ext.contains(ext.last()));
    assert(trim_tail(path) == path);
    assert(!name.contains('/')) by {
        if name.contains('/') {
            let i = choose|i: int| 0 <= i < name.len() && name[i] == '/';
            if i < stem.len() {
                assert(stem[i] == '/');
            } else if i > stem.len() {
                assert(ext[i - stem.len() - 1] == '/');
            }
        }
    }
    lemma_start_behind_slash(dir, name);
    assert(path.subrange(dir.len() as int, path.len() as int) =~= name);
    assert(path.subrange(0, dir.len() as int) =~= dir);
    lemma_last_dot(stem, ext, name.len() as int);
    assert(name.subrange(0, stem.len() as int) =~= stem);
    assert(name.subrange(stem.len() as int + 1, name.len() as int) =~= ext);
    assert(name.len() > 1);
    assert(name != seq!['.', '.']) by {
        assert(name.last() == ext.last());
        assert(seq!['.', '.'].last() == '.');
    }
    assert(path.len() > 1);
}

/// A name without a dot, and one whose only dot stands in front, has no extension, and its stem is the whole
/// of it.
pub proof fn law_names_without_a_dot(dir: Seq<char>, first: char, rest: Seq<char>)
    requires
        dir.len() == 0 || dir.last() == '/',
        first != '/',
        rest.len() > 0 || first != '.',
        !rest.contains('/'),
        !rest.contains('.'),
    ensures
        ({
            let path = dir + (seq![first] + rest);
            &&& file_name_of(path) == Some(seq![first] + rest)
            &&& file_stem_of(path) == Some(seq![first] + rest)
            &&& extension_of(path) is None
        }),
{
    let name = seq![first] + rest;
    let path = dir + name;
    assert(path.last() == name.last());
    if rest.len() > 0 {
        assert(name.last() == rest.last());
        assert(rest.contains(rest.last()));
    } else {
        assert(name.last() == first);
    }
    assert(trim_tail(path) == path);
    assert(!name.contains('/')) by {
        if name.contains('/') {
            let i = choose|i: int| 0 <= i < name.len() && name[i] == '/';
            if i > 0 {
                assert(rest[i - 1] == '/');
            }
        }
    }
    lemma_start_behind_slash(dir, name);
    assert(path.subrange(dir.len() as int, path.len() as int) =~= name);
    lemma_only_front_dot(first, rest, name.len() as int);
    assert(name != seq!['.', '.'] && name != seq!['.']) by {
        assert(name.last() != '.');
        assert(seq!['.', '.'].last() == '.' && seq!['.'].last() == '.');
    }
}

/// A dot can only be found in front.
proof fn lemma_only_front_dot(first: char, rest: Seq<char>, to: int)
    requires
        !rest.contains('.'),
        0 <= to <= rest.len() + 1,
    ensures
        rfind_char(seq![first] + rest, |c: char| c == '.', to) matches Some(i) ==> i == 0,
    decreases to,
{
    let name = seq![first] + rest;
    if to > 1 {
        assert(name[to - 1] == rest[to - 2]);
        assert(rest.contains(rest[to - 2]));
        lemma_only_front_dot(first, rest, to - 1);
    } else if to == 1 {
        lemma_only_front_dot(first, rest, 0);
    }
}

/// A name that is joined to a directory lies in it.
pub proof fn law_joined_names_lie_in_the_directory(dir: Seq<char>, stem: Seq<char>, ext: Seq<char>)
    requires
        stem.len() > 0,
        ext.len() > 0,
        !stem.contains('/'),
        !ext.contains('/'),
        !ext.contains('.'),
    ensures
        file_name_of(join_of(dir, stem + seq!['.'] + ext)) == Some(stem + seq!['.'] + ext),
        parent_of(join_of(dir, stem + seq!['.'] + ext)) == Some(
            trim_tail(
                if dir.len() == 0 || dir.last() == '/' {
                    dir
                } else {
                    dir.push('/')
                },
            ),
        ),
{
    reveal_strlit("/");
    assert("/"@ =~= seq!['/']);
    let name = stem + seq!['.'] + ext;
    if dir.len() == 0 || dir.last() == '/' {
        law_file_names_divide(dir, stem, ext);
    } else {
        law_file_names_divide(dir.push('/'), stem, ext);
        assert(dir + "/"@ + name =~= dir.push('/') + name);
    }
}

}
