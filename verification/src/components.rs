//! The components of paths, and the order that they give.

use vstd::prelude::*;

use crate::text::{
    chars_of, comes_first, law_strings_are_ordered, lemma_lex_total, lex_le, nonempty, same, split_by,
    views, words_by,
};

verus! {

/// Slashes.
pub open spec fn slash() -> spec_fn(char) -> bool {
    |c: char| c == '/'
}

/// Names that are not a dot.
pub open spec fn not_dot() -> spec_fn(Seq<char>) -> bool {
    |w: Seq<char>| w != seq!['.']
}

/// What a path begins with: the root, or the current directory if it is written out.
pub open spec fn lead(s: Seq<char>) -> Seq<Seq<char>> {
    if s.len() > 0 && s[0] == '/' {
        seq![seq!['/']]
    } else if s.len() > 0 && s[0] == '.' && (s.len() == 1 || s[1] == '/') {
        seq![seq!['.']]
    } else {
        Seq::empty()
    }
}

/// The components of a path. Repeated slashes, one at the end, and dots that are not at the start do not
/// count.
pub open spec fn components(s: Seq<char>) -> Seq<Seq<char>> {
    lead(s) + words_by(s, slash()).filter(not_dot())
}

/// Leaves out the parts that are a dot.
fn without_dots(parts: &Vec<String>) -> (r: Vec<String>)
    ensures
        views(r@) == views(parts@).filter(not_dot()),
{
    let mut r: Vec<String> = Vec::new();
    let mut i: usize = 0;
    proof {
        reveal(Seq::filter);
        reveal_strlit(".");
        assert("."@ =~= seq!['.']);
        assert(views(parts@).take(0).filter(not_dot()) =~= views(r@));
    }
    while i < parts.len()
        invariant
            0 <= i <= parts@.len(),
            "."@ == seq!['.'],
            views(r@) == views(parts@).take(i as int).filter(not_dot()),
        decreases parts@.len() - i,
    {
        let ghost before = views(r@);
        proof {
            reveal(Seq::filter);
            let next = views(parts@).take(i + 1);
            assert(next.drop_last() =~= views(parts@).take(i as int));
            assert(next.last() == parts@[i as int]@);
        }
        if !same(parts[i].as_str(), ".") {
            r.push(parts[i].clone());
            assert(views(r@) =~= before.push(parts@[i as int]@));
        }
        i = i + 1;
    }
    assert(views(parts@).take(i as int) =~= views(parts@));
    r
}

/// Splits a path into its components.
pub fn split_path(path: &str) -> (r: Vec<String>)
    ensures
        views(r@) == components(path@),
{
    let v = chars_of(path);
    let is_slash = |c: char| -> (b: bool)
        ensures
            b == (c == '/'),
        { c == '/' };
    let mut rest = without_dots(&nonempty(split_by(path, is_slash, Ghost(slash()))));
    let ghost body = views(rest@);
    let mut r: Vec<String> = Vec::new();
    proof {
        reveal_strlit("/");
        reveal_strlit(".");
        assert("/"@ =~= seq!['/']);
        assert("."@ =~= seq!['.']);
    }
    if v.len() > 0 && v[0] == '/' {
        r.push("/".to_string());
    } else if v.len() > 0 && v[0] == '.' && (v.len() == 1 || v[1] == '/') {
        r.push(".".to_string());
    }
    assert(views(r@) =~= lead(path@));
    let ghost head = views(r@);
    r.append(&mut rest);
    assert(views(r@) =~= head + body);
    r
}

/// The kinds of components in their order: the root, `.`, `..`, names.
pub open spec fn rank(c: Seq<char>) -> int {
    if c == seq!['/'] {
        0
    } else if c == seq!['.'] {
        1
    } else if c == seq!['.', '.'] {
        2
    } else {
        3
    }
}

/// The component `a` comes before `b`.
pub open spec fn part_before(a: Seq<char>, b: Seq<char>) -> bool {
    rank(a) < rank(b) || rank(a) == rank(b) && a != b && lex_le(a, b)
}

/// The path with components `a` comes before that with components `b`.
pub open spec fn path_before(a: Seq<Seq<char>>, b: Seq<Seq<char>>) -> bool
    decreases a.len(),
{
    if b.len() == 0 {
        false
    } else if a.len() == 0 {
        true
    } else if a[0] == b[0] {
        path_before(a.drop_first(), b.drop_first())
    } else {
        part_before(a[0], b[0])
    }
}

/// The path `p` is `top` or lies under it.
pub open spec fn is_under(p: Seq<char>, top: Seq<char>) -> bool {
    components(top).is_prefix_of(components(p))
}

/// The rank of a component.
fn rank_of(c: &str) -> (r: u8)
    ensures
        r == rank(c@),
{
    proof {
        reveal_strlit("/");
        reveal_strlit(".");
        reveal_strlit("..");
        assert("/"@ =~= seq!['/']);
        assert("."@ =~= seq!['.']);
        assert(".."@ =~= seq!['.', '.']);
        assert(seq!['/'][0] != seq!['.'][0]);
        assert(seq!['/'].len() != seq!['.', '.'].len());
        assert(seq!['.'].len() != seq!['.', '.'].len());
    }
    if same(c, "/") {
        0
    } else if same(c, ".") {
        1
    } else if same(c, "..") {
        2
    } else {
        3
    }
}

/// Tells if a path comes before another.
pub fn comes_before(a: &Vec<String>, b: &Vec<String>) -> (r: bool)
    ensures
        r == path_before(views(a@), views(b@)),
{
    let mut i: usize = 0;
    assert(views(a@).skip(0) =~= views(a@));
    assert(views(b@).skip(0) =~= views(b@));
    while i < a.len() && i < b.len()
        invariant
            0 <= i <= a@.len(),
            i <= b@.len(),
            path_before(views(a@), views(b@)) == path_before(
                views(a@).skip(i as int),
                views(b@).skip(i as int),
            ),
        decreases a@.len() - i,
    {
        let ghost x = views(a@).skip(i as int);
        let ghost y = views(b@).skip(i as int);
        proof {
            assert(x[0] == a@[i as int]@);
            assert(y[0] == b@[i as int]@);
            assert(x.drop_first() =~= views(a@).skip(i + 1));
            assert(y.drop_first() =~= views(b@).skip(i + 1));
        }
        if !same(a[i].as_str(), b[i].as_str()) {
            let ra = rank_of(a[i].as_str());
            let rb = rank_of(b[i].as_str());
            return ra < rb || (ra == rb && comes_first(a[i].as_str(), b[i].as_str()));
        }
        i = i + 1;
    }
    i < b.len()
}

/// Tells if the components `top` are a prefix of `p`.
pub fn is_below(p: &Vec<String>, top: &Vec<String>) -> (r: bool)
    ensures
        r == views(top@).is_prefix_of(views(p@)),
{
    if top.len() > p.len() {
        return false;
    }
    let mut i: usize = 0;
    while i < top.len()
        invariant
            0 <= i <= top@.len() <= p@.len(),
            forall|j: int| 0 <= j < i ==> views(top@)[j] == #[trigger] views(p@)[j],
        decreases top@.len() - i,
    {
        assert(views(top@)[i as int] == top@[i as int]@);
        assert(views(p@)[i as int] == p@[i as int]@);
        if !same(top[i].as_str(), p[i].as_str()) {
            proof {
                assert(views(p@).take(top@.len() as int)[i as int] == views(p@)[i as int]);
            }
            return false;
        }
        i = i + 1;
    }
    assert(views(top@) =~= views(p@).take(top@.len() as int));
    true
}

/// Tells if a path is another or lies under it.
pub fn starts_with_path(p: &str, top: &str) -> (r: bool)
    ensures
        r == is_under(p@, top@),
{
    is_below(&split_path(p), &split_path(top))
}

/// Some path of the list has the components of `x`.
pub open spec fn holds_path(t: Seq<Seq<char>>, x: Seq<char>) -> bool {
    exists|j: int| 0 <= j < t.len() && components(#[trigger] t[j]) == components(x)
}

/// Where `x` goes in a list that is in order: before the first path that does not come before it.
pub open spec fn place(t: Seq<Seq<char>>, x: Seq<char>, from: int) -> int
    decreases t.len() - from,
{
    if 0 <= from < t.len() && path_before(components(t[from]), components(x)) {
        place(t, x, from + 1)
    } else {
        from
    }
}

/// The paths in their order, of those with the same components the first alone.
pub open spec fn tidy(paths: Seq<Seq<char>>) -> Seq<Seq<char>>
    decreases paths.len(),
{
    if paths.len() == 0 {
        Seq::empty()
    } else {
        let t = tidy(paths.drop_last());
        let x = paths.last();
        if holds_path(t, x) {
            t
        } else {
            t.insert(place(t, x, 0), x)
        }
    }
}

/// Puts paths into their order and leaves out repeated ones.
pub fn tidy_paths(paths: &Vec<String>) -> (r: Vec<String>)
    ensures
        views(r@) == tidy(views(paths@)),
{
    let mut r: Vec<String> = Vec::new();
    let mut i: usize = 0;
    assert(views(paths@).take(0) =~= Seq::empty());
    assert(views(r@) =~= tidy(views(paths@).take(0)));
    while i < paths.len()
        invariant
            0 <= i <= paths@.len(),
            views(r@) == tidy(views(paths@).take(i as int)),
        decreases paths@.len() - i,
    {
        let ghost t = views(r@);
        let ghost x = paths@[i as int]@;
        proof {
            let next = views(paths@).take(i + 1);
            assert(next.drop_last() =~= views(paths@).take(i as int));
            assert(next.last() == x);
        }
        let parts = split_path(paths[i].as_str());
        let mut held = false;
        let mut j: usize = 0;
        while j < r.len()
            invariant
                0 <= j <= r@.len(),
                t == views(r@),
                views(parts@) == components(x),
                held == exists|k: int|
                    0 <= k < j && components(#[trigger] t[k]) == components(x),
            decreases r@.len() - j,
        {
            let other = split_path(r[j].as_str());
            assert(views(other@) == components(t[j as int]));
            if is_below(&other, &parts) && is_below(&parts, &other) {
                assert(views(other@) =~= views(parts@));
                held = true;
            }
            j = j + 1;
        }
        if !held {
            assert(!holds_path(t, x));
            let mut p: usize = 0;
            let mut going = true;
            while going && p < r.len()
                invariant
                    0 <= p <= r@.len(),
                    t == views(r@),
                    views(parts@) == components(x),
                    place(t, x, 0) == place(t, x, p as int),
                    !going ==> p < t.len() && !path_before(components(t[p as int]), components(x)),
                decreases r@.len() - p + if going { 1int } else { 0int },
            {
                let other = split_path(r[p].as_str());
                assert(views(other@) == components(t[p as int]));
                if comes_before(&other, &parts) {
                    p = p + 1;
                } else {
                    going = false;
                }
            }
            let copy = paths[i].clone();
            r.insert(p, copy);
            assert(views(r@) =~= t.insert(p as int, x));
        } else {
            assert(holds_path(t, x));
        }
        i = i + 1;
    }
    assert(views(paths@).take(i as int) =~= views(paths@));
    r
}

/// Some path of the list is `p` or above it.
pub open spec fn covered(p: Seq<char>, tops: Seq<Seq<char>>) -> bool {
    exists|j: int| 0 <= j < tops.len() && is_under(p, #[trigger] tops[j])
}

/// The directories that are not under one that comes before.
pub open spec fn topmost(dirs: Seq<Seq<char>>) -> Seq<Seq<char>>
    decreases dirs.len(),
{
    if dirs.len() == 0 {
        Seq::empty()
    } else {
        let tops = topmost(dirs.drop_last());
        if covered(dirs.last(), tops) {
            tops
        } else {
            tops.push(dirs.last())
        }
    }
}

/// Tells if a path is one of the list or under one.
pub fn is_covered(p: &str, tops: &Vec<String>) -> (r: bool)
    ensures
        r == covered(p@, views(tops@)),
{
    let mut j: usize = 0;
    while j < tops.len()
        invariant
            0 <= j <= tops@.len(),
            forall|k: int| 0 <= k < j ==> !is_under(p@, #[trigger] views(tops@)[k]),
        decreases tops@.len() - j,
    {
        assert(views(tops@)[j as int] == tops@[j as int]@);
        if starts_with_path(p, tops[j].as_str()) {
            return true;
        }
        j = j + 1;
    }
    false
}

/// Keeps the directories that are not under one that comes before.
pub fn top_dirs(dirs: &Vec<String>) -> (r: Vec<String>)
    ensures
        views(r@) == topmost(views(dirs@)),
{
    let mut r: Vec<String> = Vec::new();
    let mut i: usize = 0;
    assert(views(r@) =~= topmost(views(dirs@).take(0)));
    while i < dirs.len()
        invariant
            0 <= i <= dirs@.len(),
            views(r@) == topmost(views(dirs@).take(i as int)),
        decreases dirs@.len() - i,
    {
        let ghost tops = views(r@);
        proof {
            let next = views(dirs@).take(i + 1);
            assert(next.drop_last() =~= views(dirs@).take(i as int));
            assert(next.last() == dirs@[i as int]@);
        }
        if !is_covered(dirs[i].as_str(), &r) {
            r.push(dirs[i].clone());
            assert(views(r@) =~= tops.push(dirs@[i as int]@));
        }
        i = i + 1;
    }
    assert(views(dirs@).take(i as int) =~= views(dirs@));
    r
}

/// Of two different strings at most one comes before the other.
proof fn lemma_lex_antisymmetric(a: Seq<char>, b: Seq<char>)
    requires
        lex_le(a, b),
        lex_le(b, a),
    ensures
        a == b,
    decreases a.len(),
{
    if a.len() > 0 && b.len() > 0 {
        lemma_lex_antisymmetric(a.drop_first(), b.drop_first());
        assert(a =~= seq![a[0]] + a.drop_first());
        assert(b =~= seq![b[0]] + b.drop_first());
    } else {
        assert(a =~= b);
    }
}

/// The order of strings is transitive.
proof fn lemma_lex_transitive(a: Seq<char>, b: Seq<char>, c: Seq<char>)
    requires
        lex_le(a, b),
        lex_le(b, c),
    ensures
        lex_le(a, c),
    decreases a.len(),
{
    if a.len() > 0 && b.len() > 0 && c.len() > 0 && a[0] == b[0] && b[0] == c[0] {
        lemma_lex_transitive(a.drop_first(), b.drop_first(), c.drop_first());
    }
}

/// The order of components is transitive.
proof fn lemma_part_transitive(a: Seq<char>, b: Seq<char>, c: Seq<char>)
    requires
        part_before(a, b),
        part_before(b, c),
    ensures
        part_before(a, c),
{
    if rank(a) == rank(b) && rank(b) == rank(c) {
        lemma_lex_transitive(a, b, c);
        if a == c {
            lemma_lex_antisymmetric(a, b);
        }
    }
}

/// The order of paths is transitive.
proof fn lemma_before_transitive(a: Seq<Seq<char>>, b: Seq<Seq<char>>, c: Seq<Seq<char>>)
    requires
        path_before(a, b),
        path_before(b, c),
    ensures
        path_before(a, c),
    decreases a.len(),
{
    if a.len() > 0 {
        if a[0] == b[0] && b[0] == c[0] {
            lemma_before_transitive(a.drop_first(), b.drop_first(), c.drop_first());
        } else if a[0] != b[0] && b[0] != c[0] {
            lemma_part_transitive(a[0], b[0], c[0]);
            if a[0] == c[0] {
                if rank(a[0]) == rank(b[0]) {
                    lemma_lex_antisymmetric(a[0], b[0]);
                }
            }
        }
    }
}

/// No path comes before itself.
proof fn lemma_before_irreflexive(a: Seq<Seq<char>>)
    ensures
        !path_before(a, a),
    decreases a.len(),
{
    if a.len() > 0 {
        lemma_before_irreflexive(a.drop_first());
    }
}

/// Of two different paths one comes before the other.
proof fn lemma_before_total(a: Seq<Seq<char>>, b: Seq<Seq<char>>)
    requires
        a != b,
    ensures
        path_before(a, b) || path_before(b, a),
    decreases a.len(),
{
    if a.len() == 0 && b.len() == 0 {
        assert(a =~= b);
    }
    if a.len() > 0 && b.len() > 0 {
        if a[0] == b[0] {
            if a.drop_first() == b.drop_first() {
                assert(a =~= seq![a[0]] + a.drop_first());
                assert(b =~= seq![b[0]] + b.drop_first());
            }
            lemma_before_total(a.drop_first(), b.drop_first());
        } else {
            lemma_lex_total(a[0], b[0]);
        }
    }
}

/// A path that another lies under comes before it.
proof fn lemma_prefix_before(a: Seq<Seq<char>>, b: Seq<Seq<char>>)
    requires
        a.is_prefix_of(b),
        a != b,
    ensures
        path_before(a, b),
    decreases a.len(),
{
    if a.len() == 0 {
        if b.len() == 0 {
            assert(a =~= b);
        }
    } else {
        assert(a[0] == b.take(a.len() as int)[0]);
        assert(a.drop_first() =~= b.drop_first().take(a.len() - 1));
        if a.drop_first() == b.drop_first() {
            assert(a =~= seq![a[0]] + a.drop_first());
            assert(b =~= seq![b[0]] + b.drop_first());
        }
        lemma_prefix_before(a.drop_first(), b.drop_first());
    }
}

/// The place of a path: all before it come before it, and the one there does not.
proof fn lemma_place(t: Seq<Seq<char>>, x: Seq<char>, from: int)
    requires
        0 <= from <= t.len(),
    ensures
        from <= place(t, x, from) <= t.len(),
        forall|j: int|
            from <= j < place(t, x, from) ==> path_before(components(#[trigger] t[j]), components(x)),
        place(t, x, from) < t.len() ==> !path_before(
            components(t[place(t, x, from)]),
            components(x),
        ),
    decreases t.len() - from,
{
    if from < t.len() && path_before(components(t[from]), components(x)) {
        lemma_place(t, x, from + 1);
    }
}

/// Each path of the list comes before all that follow.
pub open spec fn in_order(t: Seq<Seq<char>>) -> bool {
    forall|i: int, j: int|
        0 <= i < j < t.len() ==> path_before(components(#[trigger] t[i]), components(#[trigger] t[j]))
}

/// A new path put into its place leaves the list in order.
proof fn lemma_insert_in_order(t: Seq<Seq<char>>, x: Seq<char>)
    requires
        in_order(t),
        !holds_path(t, x),
    ensures
        in_order(t.insert(place(t, x, 0), x)),
{
    lemma_place(t, x, 0);
    let p = place(t, x, 0);
    let r = t.insert(p, x);
    if p < t.len() {
        assert(components(t[p]) != components(x));
        lemma_before_total(components(t[p]), components(x));
    }
    assert forall|i: int, j: int| 0 <= i < j < r.len() implies path_before(
        components(#[trigger] r[i]),
        components(#[trigger] r[j]),
    ) by {
        if j < p {
            assert(r[i] == t[i] && r[j] == t[j]);
        } else if j == p {
            assert(r[i] == t[i] && r[j] == x);
        } else if i < p {
            assert(r[i] == t[i] && r[j] == t[j - 1]);
        } else if i == p {
            assert(r[i] == x && r[j] == t[j - 1]);
            if j > p + 1 {
                assert(path_before(components(t[p]), components(t[j - 1])));
                lemma_before_transitive(components(x), components(t[p]), components(t[j - 1]));
            }
        } else {
            assert(r[i] == t[i - 1] && r[j] == t[j - 1]);
        }
    }
}

/// An inserted path leaves the others in the list.
proof fn lemma_insert_holds(t: Seq<Seq<char>>, p: int, x: Seq<char>, y: Seq<char>)
    requires
        0 <= p <= t.len(),
        holds_path(t, y),
    ensures
        holds_path(t.insert(p, x), y),
{
    let r = t.insert(p, x);
    let k = choose|k: int| 0 <= k < t.len() && components(#[trigger] t[k]) == components(y);
    if k < p {
        assert(r[k] == t[k]);
    } else {
        assert(r[k + 1] == t[k]);
    }
}

/// A tidied list is in order.
proof fn lemma_tidy_in_order(paths: Seq<Seq<char>>)
    ensures
        in_order(tidy(paths)),
    decreases paths.len(),
{
    if paths.len() > 0 {
        let t = tidy(paths.drop_last());
        lemma_tidy_in_order(paths.drop_last());
        if !holds_path(t, paths.last()) {
            lemma_insert_in_order(t, paths.last());
        }
    }
}

/// A tidied list holds a given path by its components.
proof fn lemma_tidy_holds(paths: Seq<Seq<char>>, i: int)
    requires
        0 <= i < paths.len(),
    ensures
        holds_path(tidy(paths), paths[i]),
    decreases paths.len(),
{
    let front = paths.drop_last();
    let t = tidy(front);
    let x = paths.last();
    lemma_place(t, x, 0);
    let p = place(t, x, 0);
    if i < paths.len() - 1 {
        lemma_tidy_holds(front, i);
        lemma_insert_holds(t, p, x, paths[i]);
    } else if !holds_path(t, x) {
        assert(t.insert(p, x)[p] == x);
    }
}

/// A path of a tidied list was given.
proof fn lemma_tidy_given(paths: Seq<Seq<char>>, j: int)
    requires
        0 <= j < tidy(paths).len(),
    ensures
        exists|k: int| 0 <= k < paths.len() && #[trigger] paths[k] == tidy(paths)[j],
    decreases paths.len(),
{
    if paths.len() > 0 {
        let front = paths.drop_last();
        let t = tidy(front);
        let x = paths.last();
        lemma_place(t, x, 0);
        let p = place(t, x, 0);
        assert(paths[paths.len() - 1] == x);
        let before = if holds_path(t, x) || j < p {
            j
        } else {
            j - 1
        };
        if holds_path(t, x) || j != p {
            lemma_tidy_given(front, before);
            let k = choose|k: int| 0 <= k < front.len() && #[trigger] front[k] == t[before];
            assert(paths[k] == front[k]);
        }
    }
}

/// The tidied list is strictly in order, holds only paths that were given, and each that was given by
/// its components.
pub proof fn law_tidy_paths_are_in_order(paths: Seq<Seq<char>>)
    ensures
        in_order(tidy(paths)),
        forall|j: int| 0 <= j < tidy(paths).len() ==> paths.contains(#[trigger] tidy(paths)[j]),
        forall|i: int| 0 <= i < paths.len() ==> holds_path(tidy(paths), #[trigger] paths[i]),
{
    lemma_tidy_in_order(paths);
    assert forall|j: int| 0 <= j < tidy(paths).len() implies paths.contains(
        #[trigger] tidy(paths)[j],
    ) by {
        lemma_tidy_given(paths, j);
    }
    assert forall|i: int| 0 <= i < paths.len() implies holds_path(
        tidy(paths),
        #[trigger] paths[i],
    ) by {
        lemma_tidy_holds(paths, i);
    }
}

/// Of directories in order, each is one of the topmost or under one; no topmost one is under another.
#[verifier::spinoff_prover]
#[verifier::rlimit(40)]
pub proof fn law_topmost_cover(dirs: Seq<Seq<char>>)
    requires
        in_order(dirs),
    ensures
        forall|i: int| 0 <= i < dirs.len() ==> covered(#[trigger] dirs[i], topmost(dirs)),
        forall|i: int, j: int|
            0 <= i < topmost(dirs).len() && 0 <= j < topmost(dirs).len() && i != j ==> !is_under(
                #[trigger] topmost(dirs)[i],
                #[trigger] topmost(dirs)[j],
            ),
        forall|j: int| 0 <= j < topmost(dirs).len() ==> dirs.contains(#[trigger] topmost(dirs)[j]),
    decreases dirs.len(),
{
    if dirs.len() > 0 {
        let front = dirs.drop_last();
        let x = dirs.last();
        assert(in_order(front));
        law_topmost_cover(front);
        let t = topmost(front);
        let r = topmost(dirs);
        assert forall|j: int| 0 <= j < r.len() implies dirs.contains(#[trigger] r[j]) by {
            if j < t.len() {
                assert(front.contains(t[j]));
                let k = choose|k: int| 0 <= k < front.len() && front[k] == t[j];
                assert(dirs[k] == r[j]);
            } else {
                assert(dirs[dirs.len() - 1] == r[j]);
            }
        }
        assert forall|i: int| 0 <= i < dirs.len() implies covered(#[trigger] dirs[i], r) by {
            if i < dirs.len() - 1 {
                assert(front[i] == dirs[i]);
                let k = choose|k: int| 0 <= k < t.len() && is_under(dirs[i], #[trigger] t[k]);
                assert(r[k] == t[k]);
            } else if !covered(x, t) {
                assert(r[t.len() as int] == x);
                assert(components(x) =~= components(x).take(components(x).len() as int));
            }
        }
        if !covered(x, t) {
            assert forall|i: int, j: int|
                0 <= i < r.len() && 0 <= j < r.len() && i != j implies !is_under(
                #[trigger] r[i],
                #[trigger] r[j],
            ) by {
                if i < t.len() && j < t.len() {
                    assert(r[i] == t[i] && r[j] == t[j]);
                } else if j < t.len() {
                    assert(r[j] == t[j]);
                } else {
                    assert(front.contains(t[i]));
                    let k = choose|k: int| 0 <= k < front.len() && front[k] == t[i];
                    assert(dirs[k] == r[i]);
                    assert(dirs[dirs.len() - 1] == r[j]);
                    assert(path_before(components(r[i]), components(r[j])));
                    if is_under(r[i], r[j]) {
                        lemma_before_irreflexive(components(r[i]));
                        if components(r[j]) != components(r[i]) {
                            lemma_prefix_before(components(r[j]), components(r[i]));
                            lemma_before_transitive(
                                components(r[i]),
                                components(r[j]),
                                components(r[i]),
                            );
                        }
                    }
                }
            }
        }
    }
}

/// Of two components at most one comes before the other.
proof fn lemma_parts_are_ordered_one_way(a: Seq<char>, b: Seq<char>)
    requires
        part_before(a, b),
    ensures
        !part_before(b, a),
{
    law_strings_are_ordered(a, b);
}

/// Of two paths at most one comes before the other.
pub proof fn law_paths_are_ordered_one_way(a: Seq<Seq<char>>, b: Seq<Seq<char>>)
    requires
        path_before(a, b),
    ensures
        !path_before(b, a),
    decreases a.len(),
{
    if a.len() > 0 {
        if a[0] == b[0] {
            law_paths_are_ordered_one_way(a.drop_first(), b.drop_first());
        } else {
            lemma_parts_are_ordered_one_way(a[0], b[0]);
        }
    }
}

/// A directory comes before what lies in it.
pub proof fn law_directories_come_first(a: Seq<Seq<char>>, name: Seq<Seq<char>>)
    requires
        name.len() > 0,
    ensures
        path_before(a, a + name),
    decreases a.len(),
{
    let b = a + name;
    if a.len() > 0 {
        assert(b.drop_first() =~= a.drop_first() + name);
        law_directories_come_first(a.drop_first(), name);
    }
}

}
