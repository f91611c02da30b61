//! Facts about words: how texts fall into them, and how they are joined.

use vstd::prelude::*;

use crate::text::{
    ascii_lower, find_char, joined, pieces, trimmed, trimmed_by, trimmed_end, trimmed_start,
    whitespace, words,
};

verus! {

/// A word: not empty, and without whitespace.
pub open spec fn is_word(w: Seq<char>) -> bool {
    w.len() > 0 && forall|i: int| 0 <= i < w.len() ==> !whitespace(#[trigger] w[i])
}

/// `w` stands somewhere in `s`, and none of its characters is one with `f`.
pub open spec fn is_piece(s: Seq<char>, f: spec_fn(char) -> bool, w: Seq<char>) -> bool {
    exists|a: int, b: int| #[trigger] piece_at(s, f, w, a, b)
}

/// `w` stands in `s` from `a` up to `b`, and none of its characters is one with `f`.
pub open spec fn piece_at(s: Seq<char>, f: spec_fn(char) -> bool, w: Seq<char>, a: int, b: int) -> bool {
    &&& 0 <= a <= b <= s.len()
    &&& w == s.subrange(a, b)
    &&& forall|i: int| a <= i < b ==> !f(#[trigger] s[i])
}

/// Whitespace stands only between other characters, and no two of it in a row.
pub open spec fn single_spaced(s: Seq<char>) -> bool {
    forall|i: int|
        0 <= i < s.len() && whitespace(#[trigger] s[i]) ==> 0 < i < s.len() - 1 && !whitespace(s[i + 1])
}

/// `p` stands in `s` at `i`, whatever the case of the letters A to Z in `s`.
pub open spec fn named_at(s: Seq<char>, p: Seq<char>, i: int) -> bool {
    &&& 0 <= i
    &&& i + p.len() <= s.len()
    &&& forall|k: int| 0 <= k < p.len() ==> ascii_lower(#[trigger] s[i + k]) == p[k]
}

/// `p` stands somewhere in `s`, whatever the case of the letters A to Z in `s`.
pub open spec fn names(s: Seq<char>, p: Seq<char>) -> bool {
    exists|i: int| #[trigger] named_at(s, p, i)
}

/// What `find_char` finds.
pub proof fn lemma_find_char(s: Seq<char>, f: spec_fn(char) -> bool, from: int)
    requires
        0 <= from,
    ensures
        find_char(s, f, from) matches Some(i) ==> from <= i < s.len() && f(s[i]) && forall|j: int|
            from <= j < i ==> !f(#[trigger] s[j]),
        find_char(s, f, from) is None ==> forall|j: int| from <= j < s.len() ==> !f(#[trigger] s[j]),
    decreases s.len() - from,
{
    if from < s.len() && !f(s[from]) {
        lemma_find_char(s, f, from + 1);
    }
}

/// The first character with `f` is found.
proof fn lemma_found(s: Seq<char>, f: spec_fn(char) -> bool, i: int)
    requires
        0 <= i < s.len(),
        f(s[i]),
        forall|j: int| 0 <= j < i ==> !f(#[trigger] s[j]),
    ensures
        find_char(s, f, 0) == Some(i),
{
    lemma_find_char(s, f, 0);
}

/// The pieces of a text stand in it.
pub proof fn lemma_pieces(s: Seq<char>, f: spec_fn(char) -> bool)
    ensures
        forall|k: int| 0 <= k < pieces(s, f).len() ==> is_piece(s, f, #[trigger] pieces(s, f)[k]),
    decreases s.len(),
{
    lemma_find_char(s, f, 0);
    match find_char(s, f, 0) {
        Some(i) => {
            let rest = s.subrange(i + 1, s.len() as int);
            lemma_pieces(rest, f);
            let out = pieces(s, f);
            assert forall|k: int| 0 <= k < out.len() implies is_piece(s, f, #[trigger] out[k]) by {
                if k == 0 {
                    assert(piece_at(s, f, out[0], 0, i));
                } else {
                    let w = pieces(rest, f)[k - 1];
                    assert(out[k] == w);
                    let (a, b) = choose|a: int, b: int| #[trigger] piece_at(rest, f, w, a, b);
                    assert(s.subrange(a + i + 1, b + i + 1) =~= w);
                    assert forall|j: int| a + i + 1 <= j < b + i + 1 implies !f(#[trigger] s[j]) by {
                        assert(rest[j - i - 1] == s[j]);
                    }
                    assert(piece_at(s, f, w, a + i + 1, b + i + 1));
                }
            }
        },
        None => {
            assert(s.subrange(0, s.len() as int) =~= s);
            assert(piece_at(s, f, s, 0, s.len() as int));
        },
    }
}

/// The words of a text are words, and stand in it.
pub proof fn lemma_words(s: Seq<char>)
    ensures
        forall|k: int|
            0 <= k < words(s).len() ==> is_word(#[trigger] words(s)[k]) && is_piece(
                s,
                |c: char| whitespace(c),
                words(s)[k],
            ),
{
    let f = |c: char| whitespace(c);
    let g = |w: Seq<char>| w.len() > 0;
    let all = pieces(s, f);
    lemma_pieces(s, f);
    assert forall|k: int| 0 <= k < words(s).len() implies is_word(#[trigger] words(s)[k]) && is_piece(
        s,
        f,
        words(s)[k],
    ) by {
        let w = words(s)[k];
        assert(all.filter(g).contains(w));
        assert(all.contains(w) && g(w)) by {
            lemma_filter(all, g, k);
        }
        let n = choose|n: int| 0 <= n < all.len() && all[n] == w;
        assert(is_piece(s, f, all[n]));
        let (a, b) = choose|a: int, b: int| #[trigger] piece_at(s, f, w, a, b);
        assert forall|i: int| 0 <= i < w.len() implies !whitespace(#[trigger] w[i]) by {
            assert(w[i] == s[a + i]);
            assert(!f(s[a + i]));
        }
    }
}

/// What is left of a list is in it, and has the property.
proof fn lemma_filter(all: Seq<Seq<char>>, g: spec_fn(Seq<char>) -> bool, k: int)
    requires
        0 <= k < all.filter(g).len(),
    ensures
        all.contains(all.filter(g)[k]),
        g(all.filter(g)[k]),
    decreases all.len(),
{
    reveal(Seq::filter);
    if all.len() > 0 {
        let before = all.drop_last();
        if k < before.filter(g).len() {
            lemma_filter(before, g, k);
            let w = before.filter(g)[k];
            let n = choose|n: int| 0 <= n < before.len() && before[n] == w;
            assert(all[n] == w);
            assert(all.filter(g)[k] == w);
        } else {
            assert(all[all.len() - 1] == all.filter(g)[k]);
        }
    }
}

/// A list of which all has the property is left as it is.
proof fn lemma_filter_all(all: Seq<Seq<char>>, g: spec_fn(Seq<char>) -> bool)
    requires
        forall|k: int| 0 <= k < all.len() ==> g(#[trigger] all[k]),
    ensures
        all.filter(g) == all,
    decreases all.len(),
{
    reveal(Seq::filter);
    if all.len() > 0 {
        let before = all.drop_last();
        assert forall|k: int| 0 <= k < before.len() implies g(#[trigger] before[k]) by {
            assert(before[k] == all[k]);
        }
        lemma_filter_all(before, g);
        assert(g(all[all.len() - 1]));
        assert(before.push(all.last()) =~= all);
    } else {
        assert(all.filter(g) =~= all);
    }
}

/// A word behind a space is one more piece.
proof fn lemma_pieces_append(a: Seq<char>, w: Seq<char>, f: spec_fn(char) -> bool)
    requires
        f(' '),
        forall|i: int| 0 <= i < w.len() ==> !f(#[trigger] w[i]),
    ensures
        pieces(a + " "@ + w, f) == pieces(a, f).push(w),
    decreases a.len(),
{
    reveal_strlit(" ");
    let s = a + " "@ + w;
    lemma_find_char(a, f, 0);
    match find_char(a, f, 0) {
        Some(i) => {
            assert(s[i] == a[i]);
            assert forall|j: int| 0 <= j < i implies !f(#[trigger] s[j]) by {
                assert(s[j] == a[j]);
            }
            lemma_found(s, f, i);
            let rest = a.subrange(i + 1, a.len() as int);
            lemma_pieces_append(rest, w, f);
            assert(s.subrange(i + 1, s.len() as int) =~= rest + " "@ + w);
            assert(s.subrange(0, i) =~= a.subrange(0, i));
            assert(pieces(s, f) =~= pieces(a, f).push(w));
        },
        None => {
            let i = a.len() as int;
            assert(s[i] == ' ');
            assert forall|j: int| 0 <= j < i implies !f(#[trigger] s[j]) by {
                assert(s[j] == a[j]);
            }
            lemma_found(s, f, i);
            assert(s.subrange(i + 1, s.len() as int) =~= w);
            assert(s.subrange(0, i) =~= a);
            lemma_find_char(w, f, 0);
            assert(pieces(w, f) =~= seq![w]);
            assert(pieces(s, f) =~= seq![a].push(w));
        },
    }
}

/// Words that are joined by single spaces fall apart into the same words.
pub proof fn lemma_words_of_joined(ws: Seq<Seq<char>>)
    requires
        forall|k: int| 0 <= k < ws.len() ==> is_word(#[trigger] ws[k]),
    ensures
        words(joined(ws, " "@)) == ws,
{
    let f = |c: char| whitespace(c);
    let g = |w: Seq<char>| w.len() > 0;
    let s = joined(ws, " "@);
    if ws.len() == 0 {
        assert(find_char(s, f, 0) is None);
        assert(pieces(s, f) =~= seq![s]);
        reveal(Seq::filter);
        assert(pieces(s, f).drop_last() =~= Seq::empty());
        assert(Seq::<Seq<char>>::empty().filter(g) =~= Seq::empty());
        assert(words(s) =~= ws);
    } else {
        lemma_pieces_of_joined(ws);
        lemma_filter_all(ws, g);
    }
}

proof fn lemma_pieces_of_joined(ws: Seq<Seq<char>>)
    requires
        ws.len() > 0,
        forall|k: int| 0 <= k < ws.len() ==> is_word(#[trigger] ws[k]),
    ensures
        pieces(joined(ws, " "@), |c: char| whitespace(c)) == ws,
    decreases ws.len(),
{
    let f = |c: char| whitespace(c);
    assert(is_word(ws[ws.len() - 1]));
    if ws.len() == 1 {
        lemma_find_char(ws[0], f, 0);
        assert(pieces(ws[0], f) =~= seq![ws[0]]);
        assert(ws =~= seq![ws[0]]);
    } else {
        let before = ws.drop_last();
        assert forall|k: int| 0 <= k < before.len() implies is_word(#[trigger] before[k]) by {
            assert(before[k] == ws[k]);
        }
        lemma_pieces_of_joined(before);
        lemma_pieces_append(joined(before, " "@), ws.last(), f);
        assert(before.push(ws.last()) =~= ws);
    }
}

/// Words that are joined by single spaces are single-spaced, and every character is of a word or a space.
pub proof fn lemma_joined(ws: Seq<Seq<char>>)
    requires
        forall|k: int| 0 <= k < ws.len() ==> is_word(#[trigger] ws[k]),
    ensures
        single_spaced(joined(ws, " "@)),
        ws.len() > 0 ==> joined(ws, " "@).len() > 0,
        forall|i: int|
            0 <= i < joined(ws, " "@).len() ==> #[trigger] joined(ws, " "@)[i] == ' ' || exists|k: int|
                0 <= k < ws.len() && (#[trigger] ws[k]).contains(joined(ws, " "@)[i]),
    decreases ws.len(),
{
    reveal_strlit(" ");
    let s = joined(ws, " "@);
    if ws.len() == 1 {
        assert(is_word(ws[0]));
        assert forall|i: int| 0 <= i < s.len() implies #[trigger] s[i] == ' ' || exists|k: int|
            0 <= k < ws.len() && (#[trigger] ws[k]).contains(s[i]) by {
            assert(ws[0].contains(s[i]));
        }
    } else if ws.len() > 1 {
        let before = ws.drop_last();
        let a = joined(before, " "@);
        let w = ws.last();
        assert(is_word(ws[ws.len() - 1]));
        assert forall|k: int| 0 <= k < before.len() implies is_word(#[trigger] before[k]) by {
            assert(before[k] == ws[k]);
        }
        lemma_joined(before);
        let n = a.len() as int;
        assert forall|i: int| 0 <= i < s.len() && whitespace(#[trigger] s[i]) implies 0 < i < s.len() - 1
            && !whitespace(s[i + 1]) by {
            if i < n {
                assert(s[i] == a[i]);
                assert(s[i + 1] == a[i + 1]);
            } else if i == n {
                assert(s[i + 1] == w[0]);
            } else {
                assert(s[i] == w[i - n - 1]);
            }
        }
        assert forall|i: int| 0 <= i < s.len() implies #[trigger] s[i] == ' ' || exists|k: int|
            0 <= k < ws.len() && (#[trigger] ws[k]).contains(s[i]) by {
            if i < n {
                assert(s[i] == a[i]);
                if a[i] != ' ' {
                    let k = choose|k: int| 0 <= k < before.len() && (#[trigger] before[k]).contains(a[i]);
                    assert(ws[k].contains(s[i]));
                }
            } else if i > n {
                assert(s[i] == w[i - n - 1]);
                assert(ws[ws.len() - 1].contains(s[i]));
            }
        }
    }
}

/// What a text without spaces names in joined words, it names in one of them.
pub proof fn lemma_named_in_word(ws: Seq<Seq<char>>, p: Seq<char>)
    requires
        p.len() > 0,
        forall|k: int| 0 <= k < p.len() ==> #[trigger] p[k] != ' ',
        names(joined(ws, " "@), p),
    ensures
        exists|k: int| 0 <= k < ws.len() && names(#[trigger] ws[k], p),
    decreases ws.len(),
{
    reveal_strlit(" ");
    let s = joined(ws, " "@);
    let i = choose|i: int| #[trigger] named_at(s, p, i);
    if ws.len() == 1 {
        assert(names(ws[0], p));
    } else if ws.len() > 1 {
        let before = ws.drop_last();
        let a = joined(before, " "@);
        let w = ws.last();
        let n = a.len() as int;
        if i + p.len() <= n {
            assert forall|k: int| 0 <= k < p.len() implies ascii_lower(#[trigger] a[i + k]) == p[k] by {
                assert(s[i + k] == a[i + k]);
            }
            assert(named_at(a, p, i));
            lemma_named_in_word(before, p);
            let k = choose|k: int| 0 <= k < before.len() && names(#[trigger] before[k], p);
            assert(ws[k] == before[k]);
        } else if i > n {
            assert forall|k: int| 0 <= k < p.len() implies ascii_lower(#[trigger] w[i - n - 1 + k])
                == p[k] by {
                assert(s[i + k] == w[i - n - 1 + k]);
            }
            assert(named_at(w, p, i - n - 1));
            assert(names(ws[ws.len() - 1], p));
        } else {
            assert(s[n] == ' ');
            assert(ascii_lower(s[i + (n - i)]) == p[n - i]);
            assert(false);
        }
    }
}

/// What a piece of a text names, the text names.
pub proof fn lemma_piece_names(s: Seq<char>, f: spec_fn(char) -> bool, w: Seq<char>, p: Seq<char>)
    requires
        is_piece(s, f, w),
        names(w, p),
    ensures
        names(s, p),
{
    let (a, b) = choose|a: int, b: int| #[trigger] piece_at(s, f, w, a, b);
    let i = choose|i: int| #[trigger] named_at(w, p, i);
    assert forall|k: int| 0 <= k < p.len() implies ascii_lower(#[trigger] s[a + i + k]) == p[k] by {
        assert(w[i + k] == s[a + (i + k)]);
    }
    assert(named_at(s, p, a + i));
}

/// Trimming leaves a part of a text that does not begin or end with whitespace.
pub proof fn lemma_trimmed(s: Seq<char>)
    ensures
        exists|a: int, b: int|
            0 <= a <= b <= s.len() && trimmed(s) == #[trigger] s.subrange(a, b),
        trimmed(s).len() > 0 ==> !whitespace(trimmed(s)[0]) && !whitespace(trimmed(s).last()),
{
    let f = |c: char| whitespace(c);
    let t = trimmed_start(s, f);
    lemma_trimmed_start(s, f);
    lemma_trimmed_end(t, f);
    let a = s.len() - t.len();
    let b = a + trimmed_end(t, f).len();
    assert(trimmed(s) == trimmed_by(s, f));
    assert(s.subrange(a, b) =~= trimmed(s));
}

proof fn lemma_trimmed_start(s: Seq<char>, f: spec_fn(char) -> bool)
    ensures
        trimmed_start(s, f).len() <= s.len(),
        trimmed_start(s, f) == s.subrange(s.len() - trimmed_start(s, f).len(), s.len() as int),
        trimmed_start(s, f).len() > 0 ==> !f(trimmed_start(s, f)[0]),
    decreases s.len(),
{
    if s.len() > 0 && f(s[0]) {
        lemma_trimmed_start(s.drop_first(), f);
        let t = trimmed_start(s, f);
        assert(t =~= s.subrange(s.len() - t.len(), s.len() as int));
    } else {
        assert(s =~= s.subrange(0, s.len() as int));
    }
}

proof fn lemma_trimmed_end(s: Seq<char>, f: spec_fn(char) -> bool)
    ensures
        trimmed_end(s, f).len() <= s.len(),
        trimmed_end(s, f) == s.subrange(0, trimmed_end(s, f).len() as int),
        trimmed_end(s, f).len() > 0 ==> !f(trimmed_end(s, f).last()),
    decreases s.len(),
{
    if s.len() > 0 && f(s.last()) {
        lemma_trimmed_end(s.drop_last(), f);
        let t = trimmed_end(s, f);
        assert(t =~= s.subrange(0, t.len() as int));
    } else {
        assert(s =~= s.subrange(0, s.len() as int));
    }
}

}
