//! How alike two titles are.

use vstd::prelude::*;
use vstd::seq_lib::seq_to_set_is_finite;
use vstd::utf8::is_ascii_chars;

use crate::external::ExternalMedia;
use crate::text::{
    alphanumeric, ascii_lower, ascii_lowered, chars_of, contains, contains_str, is_alphanumeric,
    is_whitespace, lowercase, same, split_whitespace, to_lowercase, views, whitespace, words,
};

verus! {

/// A ratio, as a fraction: 1 for titles that are the same, 0 for titles with nothing in common.
#[derive(Clone, Copy, Debug, PartialEq, Eq, Structural)]
pub struct Score {
    pub num: u64,
    pub den: u64,
}

/// The fraction has a value, and it is at most one.
pub open spec fn is_score(s: Score) -> bool {
    s.den > 0 && s.num <= s.den
}

/// The value of `a` is not below that of `b`.
pub open spec fn at_least(a: Score, b: Score) -> bool {
    a.num * b.den >= b.num * a.den
}

/// The score from which on titles are taken for the same: three tenths.
pub open spec fn threshold() -> Score {
    Score { num: 3, den: 10 }
}

/// Letters, digits and whitespace.
pub open spec fn kept() -> spec_fn(char) -> bool {
    |c: char| alphanumeric(c) || whitespace(c)
}

/// A title in lowercase without punctuation, which file names often drop.
pub open spec fn prepared(s: Seq<char>) -> Seq<char> {
    lowercase(s).filter(kept())
}

/// A character of Chinese, Japanese or Korean.
pub open spec fn cjk_char(c: char) -> bool {
    ||| '\u{4E00}' <= c <= '\u{9FFF}'
    ||| '\u{3400}' <= c <= '\u{4DBF}'
    ||| '\u{3040}' <= c <= '\u{309F}'
    ||| '\u{30A0}' <= c <= '\u{30FF}'
    ||| '\u{AC00}' <= c <= '\u{D7AF}'
}

/// The text has such a character; there, whitespace does not mark the bounds of words.
pub open spec fn is_cjk(s: Seq<char>) -> bool {
    exists|i: int| 0 <= i < s.len() && cjk_char(#[trigger] s[i])
}

/// What two sets have in common, by the size of the larger.
pub open spec fn overlap<T>(a: Set<T>, b: Set<T>) -> Score {
    let total = if a.len() >= b.len() {
        a.len()
    } else {
        b.len()
    };
    if total == 0 {
        Score { num: 0, den: 1 }
    } else {
        Score { num: a.intersect(b).len() as u64, den: total as u64 }
    }
}

/// Holds of what is not whitespace.
pub open spec fn solid() -> spec_fn(char) -> bool {
    |c: char| !whitespace(c)
}

/// How alike two prepared titles are: the same, one part of the other, or by their words, or by their
/// characters where words are not marked.
pub open spec fn likeness(q: Seq<char>, r: Seq<char>) -> Score {
    if q == r {
        Score { num: 1, den: 1 }
    } else if contains_str(r, q) || contains_str(q, r) {
        Score { num: 4, den: 5 }
    } else if is_cjk(q) || is_cjk(r) {
        overlap(q.filter(solid()).to_set(), r.filter(solid()).to_set())
    } else {
        overlap(words(q).to_set(), words(r).to_set())
    }
}

/// How alike two titles are.
pub open spec fn similarity(query: Seq<char>, result: Seq<char>) -> Score {
    likeness(prepared(query), prepared(result))
}

/// The higher of two scores.
pub open spec fn higher(a: Score, b: Score) -> Score {
    if at_least(a, b) {
        a
    } else {
        b
    }
}

/// How alike a title is to that of a result, or to the result's original title.
pub open spec fn best_similarity(query: Seq<char>, media: ExternalMedia) -> Score {
    let score = similarity(query, media.title@);
    match media.original_title {
        Some(orig) => if orig@.len() > 0 {
            higher(score, similarity(query, orig@))
        } else {
            score
        },
        None => score,
    }
}

/// Whether the value of `a` is not below that of `b`.
pub fn is_at_least(a: Score, b: Score) -> (r: bool)
    ensures
        r == at_least(a, b),
{
    proof {
        lemma_products(a.num, b.den);
        lemma_products(b.num, a.den);
    }
    (a.num as u128) * (b.den as u128) >= (b.num as u128) * (a.den as u128)
}

/// The product of two 64-bit numbers has 128 bits.
proof fn lemma_products(a: u64, b: u64)
    ensures
        0 <= a * b <= u128::MAX,
{
    assert(0 <= a * b <= 0xffff_ffff_ffff_ffff * 0xffff_ffff_ffff_ffff) by (nonlinear_arith)
        requires
            0 <= a <= 0xffff_ffff_ffff_ffff,
            0 <= b <= 0xffff_ffff_ffff_ffff,
    ;
}

/// The higher of two scores.
pub fn max_score(a: Score, b: Score) -> (r: Score)
    ensures
        r == higher(a, b),
{
    if is_at_least(a, b) {
        a
    } else {
        b
    }
}

/// Takes punctuation out of a text.
pub fn strip_punctuation(s: &str) -> (r: String)
    ensures
        r@ == s@.filter(kept()),
{
    let v = chars_of(s);
    let mut r = String::new();
    let mut i: usize = 0;
    proof {
        reveal(Seq::filter);
        assert(s@.subrange(0, 0) =~= Seq::empty());
    }
    while i < v.len()
        invariant
            0 <= i <= v@.len(),
            v@ == s@,
            r@ == s@.subrange(0, i as int).filter(kept()),
        decreases v@.len() - i,
    {
        proof {
            reveal(Seq::filter);
            assert(s@.subrange(0, i + 1).drop_last() =~= s@.subrange(0, i as int));
        }
        if is_alphanumeric(v[i]) || is_whitespace(v[i]) {
            r.push(v[i]);
        }
        i = i + 1;
    }
    assert(s@.subrange(0, i as int) =~= s@);
    r
}

/// Whether a text has characters of Chinese, Japanese or Korean.
pub fn has_cjk(s: &str) -> (r: bool)
    ensures
        r == is_cjk(s@),
{
    let v = chars_of(s);
    let mut i: usize = 0;
    while i < v.len()
        invariant
            0 <= i <= v@.len(),
            v@ == s@,
            forall|j: int| 0 <= j < i ==> !cjk_char(#[trigger] s@[j]),
        decreases v@.len() - i,
    {
        let c = v[i];
        if ('\u{4E00}' <= c && c <= '\u{9FFF}') || ('\u{3400}' <= c && c <= '\u{4DBF}') || ('\u{3040}'
            <= c && c <= '\u{309F}') || ('\u{30A0}' <= c && c <= '\u{30FF}') || ('\u{AC00}' <= c && c
            <= '\u{D7AF}') {
            assert(cjk_char(s@[i as int]));
            return true;
        }
        i = i + 1;
    }
    false
}

/// Whether a character is in the list.
fn has_char(v: &Vec<char>, c: char) -> (r: bool)
    ensures
        r == v@.contains(c),
{
    let mut i: usize = 0;
    while i < v.len()
        invariant
            0 <= i <= v@.len(),
            forall|j: int| 0 <= j < i ==> v@[j] != c,
        decreases v@.len() - i,
    {
        if v[i] == c {
            return true;
        }
        i = i + 1;
    }
    false
}

/// The characters of a text that are not whitespace, each once.
fn distinct_chars(s: &str) -> (r: Vec<char>)
    ensures
        r@.no_duplicates(),
        r@.to_set() == s@.filter(solid()).to_set(),
{
    let v = chars_of(s);
    let mut r: Vec<char> = Vec::new();
    let mut i: usize = 0;
    proof {
        reveal(Seq::filter);
        assert(s@.subrange(0, 0) =~= Seq::empty());
        assert(r@.to_set() =~= s@.subrange(0, 0).filter(solid()).to_set());
    }
    while i < v.len()
        invariant
            0 <= i <= v@.len(),
            v@ == s@,
            r@.no_duplicates(),
            r@.to_set() == s@.subrange(0, i as int).filter(solid()).to_set(),
        decreases v@.len() - i,
    {
        let ghost before = r@;
        let ghost so_far = s@.subrange(0, i as int).filter(solid());
        proof {
            reveal(Seq::filter);
            assert(s@.subrange(0, i + 1).drop_last() =~= s@.subrange(0, i as int));
        }
        if !is_whitespace(v[i]) {
            let c = v[i];
            if !has_char(&r, c) {
                r.push(c);
                assert(r@.to_set() =~= before.to_set().insert(c)) by {
                    lemma_push_set(before, c);
                }
            }
            proof {
                lemma_push_set(so_far, c);
                assert(before.contains(c) ==> before.to_set().contains(c));
                assert(r@.to_set() =~= so_far.push(c).to_set());
            }
        }
        i = i + 1;
    }
    assert(s@.subrange(0, i as int) =~= s@);
    r
}

/// Adding an element to a list adds it to the set of its elements.
proof fn lemma_push_set<T>(s: Seq<T>, x: T)
    ensures
        s.push(x).to_set() == s.to_set().insert(x),
{
    let t = s.push(x);
    assert forall|y: T| t.to_set().contains(y) == s.to_set().insert(x).contains(y) by {
        if s.contains(y) {
            let i = choose|i: int| 0 <= i < s.len() && s[i] == y;
            assert(t[i] == y);
        }
        if t.contains(y) {
            let i = choose|i: int| 0 <= i < t.len() && t[i] == y;
            if i < s.len() {
                assert(s[i] == y);
            }
        }
        assert(t[s.len() as int] == x);
    }
    assert(t.to_set() =~= s.to_set().insert(x));
}

/// Whether a word is in the list.
fn has_word(v: &Vec<String>, w: &str) -> (r: bool)
    ensures
        r == views(v@).contains(w@),
{
    let mut i: usize = 0;
    while i < v.len()
        invariant
            0 <= i <= v@.len(),
            forall|j: int| 0 <= j < i ==> views(v@)[j] != w@,
        decreases v@.len() - i,
    {
        assert(views(v@)[i as int] == v@[i as int]@);
        if same(v[i].as_str(), w) {
            return true;
        }
        i = i + 1;
    }
    false
}

/// The words of a text, each once.
fn distinct_words(s: &str) -> (r: Vec<String>)
    ensures
        views(r@).no_duplicates(),
        views(r@).to_set() == words(s@).to_set(),
{
    let all = split_whitespace(s);
    let ghost ws = views(all@);
    let mut r: Vec<String> = Vec::new();
    let mut i: usize = 0;
    assert(ws.subrange(0, 0) =~= Seq::empty());
    assert(views(r@).to_set() =~= ws.subrange(0, 0).to_set());
    while i < all.len()
        invariant
            0 <= i <= all@.len(),
            ws == views(all@),
            views(r@).no_duplicates(),
            views(r@).to_set() == ws.subrange(0, i as int).to_set(),
        decreases all@.len() - i,
    {
        let ghost before = views(r@);
        let ghost w = all@[i as int]@;
        proof {
            assert(ws.subrange(0, i + 1) =~= ws.subrange(0, i as int).push(w));
            lemma_push_set(ws.subrange(0, i as int), w);
            lemma_push_set(before, w);
        }
        if !has_word(&r, all[i].as_str()) {
            r.push(all[i].clone());
            assert(views(r@) =~= before.push(w));
        } else {
            assert(before.to_set().contains(w));
        }
        assert(views(r@).to_set() =~= ws.subrange(0, i + 1).to_set());
        i = i + 1;
    }
    assert(ws.subrange(0, i as int) =~= ws);
    r
}

/// A list without repetitions has as many elements as its set; so do the elements that are also in
/// another set.
proof fn lemma_common<T>(a: Seq<T>, common: Seq<T>, b: Set<T>)
    requires
        a.no_duplicates(),
        common.no_duplicates(),
        forall|x: T| common.contains(x) <==> a.contains(x) && b.contains(x),
    ensures
        a.to_set().len() == a.len(),
        a.to_set().intersect(b).len() == common.len(),
{
    a.unique_seq_to_set();
    common.unique_seq_to_set();
    assert(common.to_set() =~= a.to_set().intersect(b));
}

/// How alike two texts are by their characters.
fn char_overlap(q: &str, r: &str) -> (s: Score)
    ensures
        s == overlap(q@.filter(solid()).to_set(), r@.filter(solid()).to_set()),
{
    let a = distinct_chars(q);
    let b = distinct_chars(r);
    let mut common: Vec<char> = Vec::new();
    let mut i: usize = 0;
    while i < a.len()
        invariant
            0 <= i <= a@.len(),
            a@.no_duplicates(),
            common@.len() <= i,
            common@.no_duplicates(),
            forall|x: char|
                common@.contains(x) <==> a@.subrange(0, i as int).contains(x) && b@.contains(x),
        decreases a@.len() - i,
    {
        let ghost before = common@;
        let ghost so_far = a@.subrange(0, i as int);
        let c = a[i];
        proof {
            assert(a@.subrange(0, i + 1) =~= so_far.push(c));
            assert(!so_far.contains(c)) by {
                if so_far.contains(c) {
                    let j = choose|j: int| 0 <= j < so_far.len() && so_far[j] == c;
                    assert(a@[j] == a@[i as int]);
                }
            }
            lemma_push_contains(so_far, c);
            lemma_push_contains(before, c);
        }
        if has_char(&b, c) {
            common.push(c);
        }
        i = i + 1;
    }
    proof {
        assert(a@.subrange(0, i as int) =~= a@);
        assert forall|x: char| common@.contains(x) <==> a@.contains(x) && b@.to_set().contains(
            x,
        ) by {}
        lemma_common(a@, common@, b@.to_set());
        b@.unique_seq_to_set();
    }
    let total: usize = if a.len() >= b.len() {
        a.len()
    } else {
        b.len()
    };
    if total == 0 {
        Score { num: 0, den: 1 }
    } else {
        Score { num: common.len() as u64, den: total as u64 }
    }
}

/// What a list with one more element has.
proof fn lemma_push_contains<T>(s: Seq<T>, x: T)
    ensures
        forall|y: T| #[trigger] s.push(x).contains(y) <==> s.contains(y) || y == x,
{
    lemma_push_set(s, x);
    assert forall|y: T| #[trigger] s.push(x).contains(y) <==> s.contains(y) || y == x by {
        assert(s.push(x).to_set().contains(y) == s.to_set().insert(x).contains(y));
    }
}

/// How alike two texts are by their words.
fn word_overlap(q: &str, r: &str) -> (s: Score)
    ensures
        s == overlap(words(q@).to_set(), words(r@).to_set()),
{
    let a = distinct_words(q);
    let b = distinct_words(r);
    let ghost av = views(a@);
    let ghost bv = views(b@);
    let mut count: usize = 0;
    let ghost mut common = Seq::<Seq<char>>::empty();
    let mut i: usize = 0;
    while i < a.len()
        invariant
            0 <= i <= a@.len(),
            av == views(a@),
            bv == views(b@),
            av.no_duplicates(),
            count == common.len(),
            count <= i,
            common.no_duplicates(),
            forall|x: Seq<char>|
                common.contains(x) <==> av.subrange(0, i as int).contains(x) && bv.contains(x),
        decreases a@.len() - i,
    {
        let ghost before = common;
        let ghost so_far = av.subrange(0, i as int);
        let ghost w = a@[i as int]@;
        proof {
            assert(av[i as int] == w);
            assert(av.subrange(0, i + 1) =~= so_far.push(w));
            assert(!so_far.contains(w)) by {
                if so_far.contains(w) {
                    let j = choose|j: int| 0 <= j < so_far.len() && so_far[j] == w;
                    assert(av[j] == av[i as int]);
                }
            }
            lemma_push_contains(so_far, w);
            lemma_push_contains(before, w);
        }
        if has_word(&b, a[i].as_str()) {
            count = count + 1;
            proof {
                common = before.push(w);
            }
        }
        i = i + 1;
    }
    proof {
        assert(av.subrange(0, i as int) =~= av);
        assert forall|x: Seq<char>| common.contains(x) <==> av.contains(x) && bv.to_set().contains(
            x,
        ) by {}
        lemma_common(av, common, bv.to_set());
        bv.unique_seq_to_set();
        assert(av.len() == a@.len());
        assert(bv.len() == b@.len());
    }
    let total: usize = if a.len() >= b.len() {
        a.len()
    } else {
        b.len()
    };
    if total == 0 {
        Score { num: 0, den: 1 }
    } else {
        Score { num: count as u64, den: total as u64 }
    }
}

/// Compares two prepared titles.
pub fn compare_titles(q: &str, r: &str) -> (s: Score)
    ensures
        s == likeness(q@, r@),
{
    if same(q, r) {
        return Score { num: 1, den: 1 };
    }
    if contains(r, q) || contains(q, r) {
        return Score { num: 4, den: 5 };
    }
    if has_cjk(q) || has_cjk(r) {
        char_overlap(q, r)
    } else {
        word_overlap(q, r)
    }
}

/// Scores how alike a title that is searched for and one that was found are.
pub fn title_similarity(query: &str, result: &str) -> (s: Score)
    ensures
        s == similarity(query@, result@),
{
    let q = strip_punctuation(to_lowercase(query).as_str());
    let r = strip_punctuation(to_lowercase(result).as_str());
    compare_titles(q.as_str(), r.as_str())
}

/// Scores how alike a title is to that of a result, or to the result's original title.
pub fn best_title_similarity(query: &str, media: &ExternalMedia) -> (s: Score)
    ensures
        s == best_similarity(query@, *media),
{
    let score = title_similarity(query, media.title.as_str());
    match &media.original_title {
        Some(orig) => if !orig.as_str().is_empty() {
            max_score(score, title_similarity(query, orig.as_str()))
        } else {
            score
        },
        None => score,
    }
}

/// Every score is a ratio between nothing in common and all.
pub proof fn law_scores_are_ratios(q: Seq<char>, r: Seq<char>)
    requires
        q.len() <= u64::MAX,
        r.len() <= u64::MAX,
        words(q).len() <= u64::MAX,
        words(r).len() <= u64::MAX,
    ensures
        is_score(likeness(q, r)),
{
    let (a, b) = (q.filter(solid()), r.filter(solid()));
    q.lemma_filter_len(solid());
    r.lemma_filter_len(solid());
    lemma_overlap_ratio(a, b);
    lemma_overlap_ratio(words(q), words(r));
}

/// The overlap of two lists is a ratio.
proof fn lemma_overlap_ratio<T>(a: Seq<T>, b: Seq<T>)
    requires
        a.len() <= u64::MAX,
        b.len() <= u64::MAX,
    ensures
        is_score(overlap(a.to_set(), b.to_set())),
{
    a.lemma_cardinality_of_set();
    b.lemma_cardinality_of_set();
    seq_to_set_is_finite(a);
    seq_to_set_is_finite(b);
    vstd::set_lib::lemma_len_intersect(a.to_set(), b.to_set());
}

/// A title is exactly like itself.
pub proof fn law_same_title_scores_one(q: Seq<char>)
    ensures
        similarity(q, q) == (Score { num: 1, den: 1 }),
{
}

/// Comparing two titles the other way round gives the same value.
pub proof fn law_similarity_is_symmetric(q: Seq<char>, r: Seq<char>)
    ensures
        likeness(q, r) == likeness(r, q),
{
    let (a, b) = (q.filter(solid()).to_set(), r.filter(solid()).to_set());
    assert(a.intersect(b) =~= b.intersect(a));
    let (c, d) = (words(q).to_set(), words(r).to_set());
    assert(c.intersect(d) =~= d.intersect(c));
}

/// The letters, digits and whitespace of a title, whatever the case of its letters.
pub open spec fn bare(s: Seq<char>) -> Seq<char> {
    ascii_lowered(s.filter(kept()))
}

/// Neither the case of letters nor punctuation matters in ASCII titles: one that has the same letters,
/// digits and whitespace, in whatever case and with whatever punctuation, is as like any other title.
pub proof fn law_case_and_punctuation_do_not_matter(a: Seq<char>, b: Seq<char>, other: Seq<char>)
    requires
        is_ascii_chars(a),
        is_ascii_chars(b),
        bare(a) == bare(b),
    ensures
        similarity(a, other) == similarity(b, other),
        similarity(other, a) == similarity(other, b),
{
    lemma_prepared(a);
    lemma_prepared(b);
}

/// Lowercase and leaving out punctuation can be taken in either order.
proof fn lemma_prepared(s: Seq<char>)
    requires
        is_ascii_chars(s),
    ensures
        prepared(s) == bare(s),
    decreases s.len(),
{
    reveal(Seq::filter);
    if s.len() > 0 {
        let rest = s.drop_last();
        let c = s.last();
        assert(s[s.len() - 1] <= '\u{7f}');
        assert(is_ascii_chars(rest)) by {
            assert forall|i: int| 0 <= i < rest.len() implies '\0' <= #[trigger] rest[i] <= '\u{7f}' by {
                assert(rest[i] == s[i]);
            }
        }
        lemma_prepared(rest);
        assert(ascii_lowered(s).drop_last() =~= ascii_lowered(rest));
        assert(ascii_lowered(s).last() == ascii_lower(c));
        assert(kept()(ascii_lower(c)) == kept()(c));
        if kept()(c) {
            assert(ascii_lowered(rest.filter(kept()).push(c)) =~= ascii_lowered(
                rest.filter(kept()),
            ).push(ascii_lower(c)));
        }
    } else {
        assert(prepared(s) =~= bare(s));
    }
}

/// Titles that share no word, and of which neither is part of the other, have nothing in common; the same of
/// characters where words are not marked.
pub proof fn law_titles_apart_score_nothing(query: Seq<char>, result: Seq<char>)
    requires
        prepared(query) != prepared(result),
        !contains_str(prepared(result), prepared(query)),
        !contains_str(prepared(query), prepared(result)),
        if is_cjk(prepared(query)) || is_cjk(prepared(result)) {
            forall|c: char|
                !whitespace(c) && #[trigger] prepared(query).contains(c) ==> !prepared(result).contains(c)
        } else {
            forall|w: Seq<char>| #[trigger] words(prepared(query)).contains(w) ==> !words(
                prepared(result),
            ).contains(w)
        },
    ensures
        similarity(query, result).num == 0,
{
    broadcast use vstd::seq_lib::group_filter_ensures;

    let (q, r) = (prepared(query), prepared(result));
    if is_cjk(q) || is_cjk(r) {
        let (a, b) = (q.filter(solid()), r.filter(solid()));
        assert(a.to_set().intersect(b.to_set()) =~= Set::<char>::empty()) by {
            assert forall|c: char| !(a.to_set().contains(c) && #[trigger] b.to_set().contains(c)) by {
                if a.to_set().contains(c) && b.to_set().contains(c) {
                    let i = choose|i: int| 0 <= i < a.len() && a[i] == c;
                    let j = choose|j: int| 0 <= j < b.len() && b[j] == c;
                    assert(solid()(a[i]) && solid()(b[j]));
                    assert(a.contains(c) && b.contains(c));
                    q.lemma_filter_contains_rev(solid(), c);
                    r.lemma_filter_contains_rev(solid(), c);
                }
            }
        }
    } else {
        let (a, b) = (words(q), words(r));
        assert(a.to_set().intersect(b.to_set()) =~= Set::<Seq<char>>::empty()) by {
            assert forall|w: Seq<char>| !(a.to_set().contains(w) && #[trigger] b.to_set().contains(
                w,
            )) by {
                if a.to_set().contains(w) && b.to_set().contains(w) {
                    assert(a.contains(w) && b.contains(w));
                }
            }
        }
    }
}

/// A title that is part of the other scores four fifths. Otherwise, of titles in words, the score is the share
/// of the words that both have in the words of the one that has more of them.
pub proof fn law_scores_are_shares_of_words(query: Seq<char>, result: Seq<char>)
    requires
        prepared(query) != prepared(result),
        words(prepared(query)).len() <= u64::MAX,
        words(prepared(result)).len() <= u64::MAX,
    ensures
        contains_str(prepared(result), prepared(query)) || contains_str(
            prepared(query),
            prepared(result),
        ) ==> similarity(query, result).num * 5 == similarity(query, result).den * 4,
        !contains_str(prepared(result), prepared(query)) && !contains_str(
            prepared(query),
            prepared(result),
        ) && !is_cjk(prepared(query)) && !is_cjk(prepared(result)) ==> {
            let a = words(prepared(query)).to_set();
            let b = words(prepared(result)).to_set();
            let s = similarity(query, result);
            &&& a.len() >= b.len() && a.len() > 0 ==> s.num * a.len() == a.intersect(b).len() * s.den
            &&& b.len() >= a.len() && b.len() > 0 ==> s.num * b.len() == a.intersect(b).len() * s.den
        },
{
    let (x, y) = (words(prepared(query)), words(prepared(result)));
    lemma_overlap_ratio(x, y);
    x.lemma_cardinality_of_set();
    y.lemma_cardinality_of_set();
    seq_to_set_is_finite(x);
    seq_to_set_is_finite(y);
    vstd::set_lib::lemma_len_intersect(x.to_set(), y.to_set());
    vstd::arithmetic::mul::lemma_mul_is_commutative(
        x.to_set().intersect(y.to_set()).len() as int,
        x.to_set().len() as int,
    );
    vstd::arithmetic::mul::lemma_mul_is_commutative(
        x.to_set().intersect(y.to_set()).len() as int,
        y.to_set().len() as int,
    );
}

/// A result is as alike as the more alike of its two titles.
pub proof fn law_either_title_counts(query: Seq<char>, media: ExternalMedia)
    requires
        similarity(query, media.title@).den > 0,
        media.original_title matches Some(t) ==> similarity(query, t@).den > 0,
    ensures
        at_least(best_similarity(query, media), similarity(query, media.title@)),
        media.original_title matches Some(t) && t@.len() > 0 ==> at_least(
            best_similarity(query, media),
            similarity(query, media.original_title->0@),
        ),
        best_similarity(query, media) == similarity(query, media.title@) || (
        media.original_title matches Some(t) && best_similarity(query, media) == similarity(query, t@)),
{
    let a = similarity(query, media.title@);
    assert(a.num * a.den >= a.num * a.den);
    if let Some(t) = media.original_title {
        let b = similarity(query, t@);
        assert(b.num * b.den >= b.num * b.den);
    }
}

}
