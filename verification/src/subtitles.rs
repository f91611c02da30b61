//! Subtitle files that lie next to a video.

use vstd::prelude::*;

use crate::paths::{extension, extension_of, file_stem, file_stem_of, parent, parent_of};
use crate::profiles::args::arg;
use crate::text::{
    ascii_lowered, cat3, chars_of, comes_first, join, joined, lex_le, lemma_lex_total, lowercase,
    nonempty, same, split_by, string_of, to_ascii_lower, to_lowercase, views, words_by,
};

verus! {

/// A subtitle file next to a video.
#[derive(Debug)]
pub struct ExternalSubtitle {
    pub path: String,
    /// The name of its codec: "subrip", "ass" or "webvtt".
    pub codec: &'static str,
    /// The code of its language, if its name has one.
    pub lang: Option<String>,
    /// What the track is called, such as "English (Forced) (External)".
    pub label: String,
}

/// The language that a tag stands for.
#[derive(Debug)]
pub struct TagLanguage {
    pub tag: String,
    pub code: String,
    pub name: String,
}

/// An entry of the video's directory.
#[derive(Debug)]
pub struct SidecarEntry {
    pub path: String,
    pub is_file: bool,
}

/// The codec that goes with an extension in lowercase.
pub open spec fn codec_for(ext: Seq<char>) -> Option<Seq<char>> {
    if ext == "srt"@ {
        Some("subrip"@)
    } else if ext == "ass"@ || ext == "ssa"@ {
        Some("ass"@)
    } else if ext == "vtt"@ || ext == "webvtt"@ {
        Some("webvtt"@)
    } else {
        None
    }
}

/// Looks up the codec that goes with an extension in lowercase.
pub fn subtitle_codec(ext: &str) -> (r: Option<&'static str>)
    ensures
        r is Some <==> codec_for(ext@) is Some,
        r matches Some(c) ==> Some(c@) == codec_for(ext@),
{
    if same(ext, "srt") {
        Some("subrip")
    } else if same(ext, "ass") || same(ext, "ssa") {
        Some("ass")
    } else if same(ext, "vtt") || same(ext, "webvtt") {
        Some("webvtt")
    } else {
        None
    }
}

/// What follows the video's name in the name of a sidecar: nothing, or tags that begin with a dot.
/// The case of letters does not count.
pub open spec fn sidecar_rest(video_stem: Seq<char>, sub_stem: Seq<char>) -> Option<Seq<char>> {
    let n = video_stem.len() as int;
    if sub_stem.len() < n || ascii_lowered(sub_stem.subrange(0, n)) != ascii_lowered(video_stem) {
        None
    } else {
        let rest = sub_stem.subrange(n, sub_stem.len() as int);
        if rest.len() > 0 && rest[0] != '.' {
            None
        } else {
            Some(rest)
        }
    }
}

/// Cuts off what follows the video's name.
pub fn cut_sidecar_rest(video_stem: &str, sub_stem: &str) -> (r: Option<String>)
    ensures
        r is Some <==> sidecar_rest(video_stem@, sub_stem@) is Some,
        r matches Some(rest) ==> Some(rest@) == sidecar_rest(video_stem@, sub_stem@),
{
    let v = chars_of(video_stem);
    let s = chars_of(sub_stem);
    if s.len() < v.len() {
        return None;
    }
    let head = string_of(&s, 0, v.len());
    if !same(to_ascii_lower(head.as_str()).as_str(), to_ascii_lower(video_stem).as_str()) {
        return None;
    }
    if s.len() > v.len() && s[v.len()] != '.' {
        return None;
    }
    Some(string_of(&s, v.len(), s.len()))
}

/// Holds of a dot.
pub open spec fn dot() -> spec_fn(char) -> bool {
    |c: char| c == '.'
}

/// The tags of a sidecar.
pub fn sidecar_tags(rest: &str) -> (r: Vec<String>)
    ensures
        views(r@) == words_by(rest@, dot()),
{
    let is_dot = |c: char| -> (b: bool)
        ensures
            b == (c == '.'),
        {
            c == '.'
        };
    nonempty(split_by(rest, is_dot, Ghost(dot())))
}

/// The language that a tag stands for, the first that is listed.
pub open spec fn language_from(dict: Seq<TagLanguage>, tag: Seq<char>, from: int) -> Option<TagLanguage>
    decreases dict.len() - from,
{
    if from < 0 || from >= dict.len() {
        None
    } else if dict[from].tag@ == tag {
        Some(dict[from])
    } else {
        language_from(dict, tag, from + 1)
    }
}

/// Looks up the language that a tag stands for.
fn find_language<'a>(dict: &'a Vec<TagLanguage>, tag: &str) -> (r: Option<&'a TagLanguage>)
    ensures
        r is Some <==> language_from(dict@, tag@, 0) is Some,
        r matches Some(l) ==> Some(*l) == language_from(dict@, tag@, 0),
{
    let mut i: usize = 0;
    while i < dict.len()
        invariant
            0 <= i <= dict@.len(),
            language_from(dict@, tag@, 0) == language_from(dict@, tag@, i as int),
        decreases dict@.len() - i,
    {
        if same(dict[i].tag.as_str(), tag) {
            return Some(&dict[i]);
        }
        i = i + 1;
    }
    None
}

/// What a tag in lowercase is.
#[derive(Clone, Copy, Debug, PartialEq, Eq, Structural)]
pub enum TagKind {
    Forced,
    Sdh,
    Default,
    Other,
}

/// What a tag in lowercase is.
pub open spec fn tag_kind_of(lower: Seq<char>) -> TagKind {
    if lower == "forced"@ {
        TagKind::Forced
    } else if lower == "sdh"@ || lower == "cc"@ || lower == "hi"@ {
        TagKind::Sdh
    } else if lower == "default"@ {
        TagKind::Default
    } else {
        TagKind::Other
    }
}

/// Says what a tag in lowercase is.
pub fn tag_kind(lower: &str) -> (r: TagKind)
    ensures
        r == tag_kind_of(lower@),
{
    if same(lower, "forced") {
        TagKind::Forced
    } else if same(lower, "sdh") || same(lower, "cc") || same(lower, "hi") {
        TagKind::Sdh
    } else if same(lower, "default") {
        TagKind::Default
    } else {
        TagKind::Other
    }
}

/// The flags among the first `k` tags, where `kinds` says what they are.
pub open spec fn flags_to(kinds: Seq<TagKind>, k: int) -> Seq<Seq<char>>
    decreases k,
{
    if k <= 0 {
        Seq::empty()
    } else {
        let before = flags_to(kinds, k - 1);
        match kinds[k - 1] {
            TagKind::Forced => before.push("Forced"@),
            TagKind::Sdh => before.push("SDH"@),
            _ => before,
        }
    }
}

/// The first of the first `k` tags that stands for a language and is no flag.
pub open spec fn language_to(
    tags: Seq<Seq<char>>,
    kinds: Seq<TagKind>,
    dict: Seq<TagLanguage>,
    k: int,
) -> Option<TagLanguage>
    decreases k,
{
    if k <= 0 {
        None
    } else {
        match language_to(tags, kinds, dict, k - 1) {
            Some(l) => Some(l),
            None => if kinds[k - 1] == TagKind::Other {
                language_from(dict, tags[k - 1], 0)
            } else {
                None
            },
        }
    }
}

/// The other tags among the first `k`, which are kept as they are.
pub open spec fn extra_to(
    tags: Seq<Seq<char>>,
    kinds: Seq<TagKind>,
    dict: Seq<TagLanguage>,
    k: int,
) -> Seq<Seq<char>>
    decreases k,
{
    if k <= 0 {
        Seq::empty()
    } else {
        let before = extra_to(tags, kinds, dict, k - 1);
        if kinds[k - 1] == TagKind::Other && (language_to(tags, kinds, dict, k - 1) is Some
            || language_from(dict, tags[k - 1], 0) is None) {
            before.push(tags[k - 1])
        } else {
            before
        }
    }
}

/// Each flag in brackets, with a space before it.
pub open spec fn flags_text(flags: Seq<Seq<char>>) -> Seq<char>
    decreases flags.len(),
{
    if flags.len() == 0 {
        Seq::empty()
    } else {
        flags_text(flags.drop_last()) + " ("@ + flags.last() + ")"@
    }
}

/// What a track is called.
pub open spec fn label_of(
    language: Option<TagLanguage>,
    extra: Seq<Seq<char>>,
    flags: Seq<Seq<char>>,
) -> Seq<char> {
    let name = match language {
        Some(l) => l.name@,
        None => "Unknown"@,
    };
    let noted = if extra.len() > 0 {
        name + (" ["@ + joined(extra, " "@) + "]"@)
    } else {
        name
    };
    noted + flags_text(flags) + " (External)"@
}

/// The language and the label of a track with these tags, where `kinds` says what they are.
pub fn describe_track(tags: &Vec<String>, kinds: &Vec<TagKind>, dict: &Vec<TagLanguage>) -> (r: (
    Option<String>,
    String,
))
    requires
        tags@.len() == kinds@.len(),
    ensures
        ({
            let n = tags@.len() as int;
            let language = language_to(views(tags@), kinds@, dict@, n);
            &&& r.0 is Some <==> language is Some
            &&& r.0 is Some ==> r.0->0@ == language->0.code@
            &&& r.1@ == label_of(
                language,
                extra_to(views(tags@), kinds@, dict@, n),
                flags_to(kinds@, n),
            )
        }),
{
    let mut language: Option<&TagLanguage> = None;
    let mut flags: Vec<String> = Vec::new();
    let mut extra: Vec<String> = Vec::new();
    let mut i: usize = 0;
    let ghost texts = views(tags@);
    proof {
        assert(views(flags@) =~= flags_to(kinds@, 0));
        assert(views(extra@) =~= extra_to(texts, kinds@, dict@, 0));
    }
    while i < tags.len()
        invariant
            0 <= i <= tags@.len(),
            tags@.len() == kinds@.len(),
            texts == views(tags@),
            language is Some <==> language_to(texts, kinds@, dict@, i as int) is Some,
            language matches Some(l) ==> Some(*l) == language_to(texts, kinds@, dict@, i as int),
            views(flags@) == flags_to(kinds@, i as int),
            views(extra@) == extra_to(texts, kinds@, dict@, i as int),
        decreases tags@.len() - i,
    {
        assert(texts[i as int] == tags@[i as int]@);
        match kinds[i] {
            TagKind::Forced => {
                arg(&mut flags, "Forced");
            },
            TagKind::Sdh => {
                arg(&mut flags, "SDH");
            },
            TagKind::Default => {},
            TagKind::Other => {
                let mut taken = false;
                if language.is_none() {
                    language = find_language(dict, tags[i].as_str());
                    taken = language.is_some();
                }
                if !taken {
                    arg(&mut extra, tags[i].as_str());
                }
            },
        }
        i = i + 1;
    }
    let mut label = match language {
        Some(l) => l.name.clone(),
        None => "Unknown".to_owned(),
    };
    if extra.len() > 0 {
        label.append(cat3(" [", join(&extra, " ").as_str(), "]").as_str());
    }
    let ghost noted = label@;
    let mut k: usize = 0;
    assert(views(flags@).subrange(0, 0) =~= Seq::empty());
    assert(noted + flags_text(views(flags@).subrange(0, 0)) =~= noted);
    while k < flags.len()
        invariant
            0 <= k <= flags@.len(),
            label@ == noted + flags_text(views(flags@).subrange(0, k as int)),
        decreases flags@.len() - k,
    {
        proof {
            let next = views(flags@).subrange(0, k + 1);
            assert(next.drop_last() =~= views(flags@).subrange(0, k as int));
            assert(next.last() == flags@[k as int]@);
        }
        label.append(" (");
        label.append(flags[k].as_str());
        label.append(")");
        k = k + 1;
        assert(label@ =~= noted + flags_text(views(flags@).subrange(0, k as int)));
    }
    assert(views(flags@).subrange(0, k as int) =~= views(flags@));
    label.append(" (External)");
    let code = match language {
        Some(l) => Some(l.code.clone()),
        None => None,
    };
    (code, label)
}

/// What the tags are, by their lowercase.
pub open spec fn kinds_of(tags: Seq<Seq<char>>) -> Seq<TagKind> {
    tags.map_values(|t: Seq<char>| tag_kind_of(lowercase(t)))
}

/// `sub` is the track for the file at `path` next to a video with this name.
pub open spec fn is_subtitle_of(
    sub: ExternalSubtitle,
    path: Seq<char>,
    video_stem: Seq<char>,
    dict: Seq<TagLanguage>,
) -> bool {
    let rest = sidecar_rest(video_stem, file_stem_of(path)->0)->0;
    let tags = words_by(rest, dot());
    let kinds = kinds_of(tags);
    let n = tags.len() as int;
    let language = language_to(tags, kinds, dict, n);
    &&& sub.path@ == path
    &&& Some(sub.codec@) == codec_for(lowercase(extension_of(path)->0))
    &&& sub.lang is Some <==> language is Some
    &&& sub.lang is Some ==> sub.lang->0@ == language->0.code@
    &&& sub.label@ == label_of(language, extra_to(tags, kinds, dict, n), flags_to(kinds, n))
}

/// The entry is a subtitle file for a video with this name.
pub open spec fn is_sidecar(entry: SidecarEntry, video_stem: Seq<char>) -> bool {
    &&& entry.is_file
    &&& extension_of(entry.path@) is Some
    &&& codec_for(lowercase(extension_of(entry.path@)->0)) is Some
    &&& file_stem_of(entry.path@) is Some
    &&& sidecar_rest(video_stem, file_stem_of(entry.path@)->0) is Some
}

/// `found` are the tracks for the entries that are sidecars, in their order.
pub open spec fn tracks_for(
    found: Seq<ExternalSubtitle>,
    entries: Seq<SidecarEntry>,
    video_stem: Seq<char>,
    dict: Seq<TagLanguage>,
) -> bool
    decreases entries.len(),
{
    if entries.len() == 0 {
        found.len() == 0
    } else if is_sidecar(entries.last(), video_stem) {
        &&& found.len() > 0
        &&& is_subtitle_of(found.last(), entries.last().path@, video_stem, dict)
        &&& tracks_for(found.drop_last(), entries.drop_last(), video_stem, dict)
    } else {
        tracks_for(found, entries.drop_last(), video_stem, dict)
    }
}

/// Describes one entry, if it is a sidecar.
pub fn sidecar_track(entry: &SidecarEntry, video_stem: &str, dict: &Vec<TagLanguage>) -> (r: Option<
    ExternalSubtitle,
>)
    ensures
        r is Some <==> is_sidecar(*entry, video_stem@),
        r matches Some(sub) ==> is_subtitle_of(sub, entry.path@, video_stem@, dict@),
{
    if !entry.is_file {
        return None;
    }
    let path = entry.path.as_str();
    let ext = match extension(path) {
        Some(ext) => ext,
        None => {
            return None;
        },
    };
    let codec = match subtitle_codec(to_lowercase(ext.as_str()).as_str()) {
        Some(codec) => codec,
        None => {
            return None;
        },
    };
    let sub_stem = match file_stem(path) {
        Some(stem) => stem,
        None => {
            return None;
        },
    };
    let rest = match cut_sidecar_rest(video_stem, sub_stem.as_str()) {
        Some(rest) => rest,
        None => {
            return None;
        },
    };
    let tags = sidecar_tags(rest.as_str());
    let mut kinds: Vec<TagKind> = Vec::new();
    let mut i: usize = 0;
    while i < tags.len()
        invariant
            0 <= i <= tags@.len(),
            kinds@.len() == i,
            forall|j: int| 0 <= j < i ==> #[trigger] kinds@[j] == kinds_of(views(tags@))[j],
        decreases tags@.len() - i,
    {
        kinds.push(tag_kind(to_lowercase(tags[i].as_str()).as_str()));
        i = i + 1;
    }
    assert(kinds@ =~= kinds_of(views(tags@)));
    let (lang, label) = describe_track(&tags, &kinds, dict);
    Some(ExternalSubtitle { path: entry.path.clone(), codec, lang, label })
}

/// Each path comes before the next, or is the same.
pub open spec fn by_path(subs: Seq<ExternalSubtitle>) -> bool {
    forall|i: int|
        0 <= i < subs.len() - 1 ==> lex_le((#[trigger] subs[i]).path@, subs[i + 1].path@)
}

/// Puts a track into its place among tracks in the order of their paths.
fn insert_by_path(subs: &mut Vec<ExternalSubtitle>, sub: ExternalSubtitle)
    requires
        by_path(old(subs)@),
    ensures
        by_path(final(subs)@),
        final(subs)@.to_multiset() == old(subs)@.to_multiset().insert(sub),
{
    let ghost before = subs@;
    let mut k: usize = subs.len();
    while k > 0 && !comes_first(subs[k - 1].path.as_str(), sub.path.as_str())
        invariant
            0 <= k <= subs@.len(),
            subs@ == before,
            forall|j: int| k <= j < before.len() ==> !lex_le((#[trigger] before[j]).path@, sub.path@),
        decreases k,
    {
        k = k - 1;
    }
    proof {
        if k < before.len() {
            lemma_lex_total(before[k as int].path@, sub.path@);
        }
    }
    subs.insert(k, sub);
    proof {
        let after = subs@;
        assert(after =~= before.insert(k as int, sub));
        assert forall|j: int| 0 <= j < after.len() - 1 implies lex_le(
            (#[trigger] after[j]).path@,
            after[j + 1].path@,
        ) by {
            if j < k - 1 {
                assert(lex_le(before[j].path@, before[j + 1].path@));
            } else if j > k {
                assert(lex_le(before[j - 1].path@, before[j].path@));
            }
        }
        let a = before.subrange(0, k as int);
        let b = before.subrange(k as int, before.len() as int);
        assert(before =~= a + b);
        assert(after =~= a.push(sub) + b);
        vstd::seq_lib::lemma_multiset_commutative(a, b);
        vstd::seq_lib::lemma_multiset_commutative(a.push(sub), b);
        a.to_multiset_ensures();
        assert(a.to_multiset().insert(sub).add(b.to_multiset()) =~= a.to_multiset().add(
            b.to_multiset(),
        ).insert(sub));
    }
}

/// Finds the subtitle files for a video: `<video>.<ext>`, or `<video>.<tags>.<ext>` where the tags are
/// languages and flags. A tag that is neither is kept in the label. The tracks come in the order of
/// their paths, so that it does not depend on the order of the directory.
///
/// `entries` are the entries of the video's directory, and `dict` lists the tags that stand for a
/// language.
pub fn find_external_subtitles(
    video_path: &str,
    entries: &Vec<SidecarEntry>,
    dict: &Vec<TagLanguage>,
) -> (r: Vec<ExternalSubtitle>)
    ensures
        by_path(r@),
        match (parent_of(video_path@), file_stem_of(video_path@)) {
            (Some(_), Some(stem)) => exists|found: Seq<ExternalSubtitle>|
                #[trigger] tracks_for(found, entries@, stem, dict@) && r@.to_multiset()
                    == found.to_multiset(),
            _ => r@.len() == 0,
        },
{
    let mut r: Vec<ExternalSubtitle> = Vec::new();
    let stem = match (parent(video_path), file_stem(video_path)) {
        (Some(_), Some(stem)) => stem,
        _ => {
            return r;
        },
    };
    let ghost mut found = Seq::<ExternalSubtitle>::empty();
    let mut i: usize = 0;
    proof {
        assert(entries@.subrange(0, 0) =~= Seq::empty());
        assert(r@ =~= found);
    }
    while i < entries.len()
        invariant
            0 <= i <= entries@.len(),
            by_path(r@),
            tracks_for(found, entries@.subrange(0, i as int), stem@, dict@),
            r@.to_multiset() == found.to_multiset(),
        decreases entries@.len() - i,
    {
        proof {
            let next = entries@.subrange(0, i + 1);
            assert(next.drop_last() =~= entries@.subrange(0, i as int));
            assert(next.last() == entries@[i as int]);
        }
        if let Some(sub) = sidecar_track(&entries[i], stem.as_str(), dict) {
            let ghost before = found;
            proof {
                found = before.push(sub);
                assert(found.drop_last() =~= before);
                before.to_multiset_ensures();
            }
            insert_by_path(&mut r, sub);
        }
        i = i + 1;
    }
    assert(entries@.subrange(0, i as int) =~= entries@);
    r
}

/// The extensions of subtitle files, and what is in them.
pub proof fn law_subtitle_files_by_extension(ext: Seq<char>)
    ensures
        codec_for(ext) == Some("subrip"@) <==> ext == "srt"@,
        codec_for(ext) == Some("ass"@) <==> seq!["ass"@, "ssa"@].contains(ext),
        codec_for(ext) == Some("webvtt"@) <==> seq!["vtt"@, "webvtt"@].contains(ext),
        codec_for(ext) is Some <==> seq!["srt"@, "ass"@, "ssa"@, "vtt"@, "webvtt"@].contains(ext),
{
    reveal_strlit("subrip");
    reveal_strlit("ass");
    reveal_strlit("webvtt");
    reveal_strlit("srt");
    reveal_strlit("ssa");
    reveal_strlit("vtt");
    assert("subrip"@.len() == 6 && "ass"@.len() == 3 && "webvtt"@.len() == 6 && "subrip"@[0] == 's'
        && "webvtt"@[0] == 'w');
    assert("srt"@.len() == 3 && "srt"@[0] == 's' && "srt"@[1] == 'r' && "ssa"@[0] == 's' && "ssa"@[1]
        == 's' && "ass"@[0] == 'a' && "vtt"@[0] == 'v' && "ssa"@.len() == 3 && "vtt"@.len() == 3);
    let a = seq!["ass"@, "ssa"@];
    assert(a[0] == "ass"@ && a[1] == "ssa"@);
    let w = seq!["vtt"@, "webvtt"@];
    assert(w[0] == "vtt"@ && w[1] == "webvtt"@);
    let all = seq!["srt"@, "ass"@, "ssa"@, "vtt"@, "webvtt"@];
    assert(all[0] == "srt"@ && all[1] == "ass"@ && all[2] == "ssa"@ && all[3] == "vtt"@ && all[4]
        == "webvtt"@);
}

/// The name of a sidecar is the video's, in letters of any case, followed by nothing or by tags that begin
/// with a dot.
pub proof fn law_sidecars_bear_the_name_of_the_video(stem: Seq<char>, head: Seq<char>, rest: Seq<char>)
    ensures
        rest.len() == 0 || rest[0] == '.' ==> sidecar_rest(stem, stem + rest) == Some(rest),
        rest.len() > 0 && rest[0] != '.' ==> sidecar_rest(stem, stem + rest) is None,
        head.len() == stem.len() && ascii_lowered(head) == ascii_lowered(stem) ==> sidecar_rest(
            stem,
            head + rest,
        ) == sidecar_rest(stem, stem + rest),
        head.len() == stem.len() && ascii_lowered(head) != ascii_lowered(stem) ==> sidecar_rest(
            stem,
            head + rest,
        ) is None,
        head.len() < stem.len() ==> sidecar_rest(stem, head) is None,
{
    let n = stem.len() as int;
    assert((stem + rest).subrange(0, n) =~= stem);
    assert((stem + rest).subrange(n, (stem + rest).len() as int) =~= rest);
    if head.len() == stem.len() {
        assert((head + rest).subrange(0, n) =~= head);
        assert((head + rest).subrange(n, (head + rest).len() as int) =~= rest);
    }
}

/// The flags of a track are those of its tags: it is called forced, or for the hard of hearing, exactly
/// where a tag says so.
pub proof fn law_flags_are_those_of_the_tags(kinds: Seq<TagKind>, k: int)
    requires
        0 <= k <= kinds.len(),
    ensures
        flags_to(kinds, k).contains("Forced"@) <==> kinds.subrange(0, k).contains(TagKind::Forced),
        flags_to(kinds, k).contains("SDH"@) <==> kinds.subrange(0, k).contains(TagKind::Sdh),
        forall|i: int|
            0 <= i < flags_to(kinds, k).len() ==> (#[trigger] flags_to(kinds, k)[i]) == "Forced"@
                || flags_to(kinds, k)[i] == "SDH"@,
    decreases k,
{
    reveal_strlit("Forced");
    reveal_strlit("SDH");
    assert("Forced"@.len() == 6 && "SDH"@.len() == 3);
    if k > 0 {
        law_flags_are_those_of_the_tags(kinds, k - 1);
        let before = flags_to(kinds, k - 1);
        let shorter = kinds.subrange(0, k - 1);
        assert(kinds.subrange(0, k) =~= shorter.push(kinds[k - 1]));
        lemma_pushed(shorter, kinds[k - 1], TagKind::Forced);
        lemma_pushed(shorter, kinds[k - 1], TagKind::Sdh);
        lemma_pushed(before, "Forced"@, "Forced"@);
        lemma_pushed(before, "Forced"@, "SDH"@);
        lemma_pushed(before, "SDH"@, "Forced"@);
        lemma_pushed(before, "SDH"@, "SDH"@);
    }
}

/// What a list holds after an item was added.
proof fn lemma_pushed<T>(s: Seq<T>, x: T, y: T)
    ensures
        s.push(x).contains(y) <==> s.contains(y) || x == y,
{
    let t = s.push(x);
    if s.contains(y) {
        let i = choose|i: int| 0 <= i < s.len() && s[i] == y;
        assert(t[i] == y);
    }
    if x == y {
        assert(t[s.len() as int] == y);
    }
    if t.contains(y) {
        let i = choose|i: int| 0 <= i < t.len() && t[i] == y;
        if i < s.len() {
            assert(s[i] == y);
        }
    }
}

/// Tags that say more than a language: forced subtitles, and three ways to name those for the hard of
/// hearing.
pub proof fn law_tags_that_are_flags(lower: Seq<char>)
    ensures
        tag_kind_of(lower) == TagKind::Forced <==> lower == "forced"@,
        tag_kind_of(lower) == TagKind::Sdh <==> seq!["sdh"@, "cc"@, "hi"@].contains(lower),
        tag_kind_of(lower) == TagKind::Default <==> lower == "default"@,
{
    reveal_strlit("forced");
    reveal_strlit("sdh");
    reveal_strlit("cc");
    reveal_strlit("hi");
    reveal_strlit("default");
    assert("forced"@.len() == 6 && "default"@.len() == 7 && "sdh"@.len() == 3 && "cc"@.len() == 2
        && "hi"@.len() == 2);
    let a = seq!["sdh"@, "cc"@, "hi"@];
    assert(a[0] == "sdh"@ && a[1] == "cc"@ && a[2] == "hi"@);
}

/// A tag that stands for a language is found in the list.
proof fn lemma_language_from(dict: Seq<TagLanguage>, tag: Seq<char>, from: int)
    requires
        0 <= from <= dict.len(),
    ensures
        match language_from(dict, tag, from) {
            Some(l) => l.tag@ == tag && dict.contains(l),
            None => forall|j: int| from <= j < dict.len() ==> (#[trigger] dict[j]).tag@ != tag,
        },
    decreases dict.len() - from,
{
    if from < dict.len() && dict[from].tag@ != tag {
        lemma_language_from(dict, tag, from + 1);
    }
}

/// The language of a track is that of the first tag, apart from flags, that stands for one; it has none only
/// where no tag does.
pub proof fn law_the_first_language_counts(
    tags: Seq<Seq<char>>,
    kinds: Seq<TagKind>,
    dict: Seq<TagLanguage>,
    k: int,
)
    requires
        0 <= k <= tags.len(),
        tags.len() == kinds.len(),
    ensures
        match language_to(tags, kinds, dict, k) {
            Some(l) => dict.contains(l) && exists|i: int|
                0 <= i < k && kinds[i] == TagKind::Other && l.tag@ == #[trigger] tags[i] && forall|j: int, d: int|
                    0 <= j < i && kinds[j] == TagKind::Other && 0 <= d < dict.len() ==> (#[trigger] dict[d]).tag@
                        != #[trigger] tags[j],
            None => forall|j: int, d: int|
                0 <= j < k && kinds[j] == TagKind::Other && 0 <= d < dict.len() ==> (#[trigger] dict[d]).tag@
                    != #[trigger] tags[j],
        },
    decreases k,
{
    if k > 0 {
        law_the_first_language_counts(tags, kinds, dict, k - 1);
        lemma_language_from(dict, tags[k - 1], 0);
        if language_to(tags, kinds, dict, k - 1) is None && language_to(tags, kinds, dict, k) is Some {
            let l = language_to(tags, kinds, dict, k)->0;
            assert(0 <= k - 1 < k && kinds[k - 1] == TagKind::Other && l.tag@ == tags[k - 1]);
        }
    }
}

/// A tag that is no flag and stands for no language is kept in the label.
pub proof fn law_other_tags_are_kept(
    tags: Seq<Seq<char>>,
    kinds: Seq<TagKind>,
    dict: Seq<TagLanguage>,
    k: int,
    i: int,
)
    requires
        0 <= i < k <= tags.len(),
        tags.len() == kinds.len(),
        kinds[i] == TagKind::Other,
        forall|d: int| 0 <= d < dict.len() ==> (#[trigger] dict[d]).tag@ != tags[i],
    ensures
        extra_to(tags, kinds, dict, k).contains(tags[i]),
    decreases k,
{
    let before = extra_to(tags, kinds, dict, k - 1);
    if i < k - 1 {
        law_other_tags_are_kept(tags, kinds, dict, k - 1, i);
        lemma_pushed(before, tags[k - 1], tags[i]);
    } else {
        lemma_language_from(dict, tags[i], 0);
        lemma_pushed(before, tags[i], tags[i]);
    }
}

/// A label begins with the name of the language, or says that it is unknown, and ends by saying that the
/// track is external.
pub proof fn law_labels_name_the_language(
    language: Option<TagLanguage>,
    extra: Seq<Seq<char>>,
    flags: Seq<Seq<char>>,
)
    ensures
        ({
            let label = label_of(language, extra, flags);
            &&& language matches Some(l) ==> l.name@.is_prefix_of(label)
            &&& language is None ==> "Unknown"@.is_prefix_of(label)
            &&& " (External)"@.is_suffix_of(label)
        }),
        extra.len() == 0 && flags.len() == 0 && language is Some ==> label_of(language, extra, flags)
            == language->0.name@ + " (External)"@,
{
    let label = label_of(language, extra, flags);
    let name = if language is Some {
        language->0.name@
    } else {
        "Unknown"@
    };
    assert(label.subrange(0, name.len() as int) =~= name);
    let end = " (External)"@;
    assert(label.subrange(label.len() - end.len(), label.len() as int) =~= end);
    if extra.len() == 0 && flags.len() == 0 {
        assert(label =~= name + end);
    }
}

/// Every sidecar becomes one track, with its path and its codec, and nothing else becomes a track.
pub proof fn law_every_sidecar_becomes_a_track(
    found: Seq<ExternalSubtitle>,
    entries: Seq<SidecarEntry>,
    stem: Seq<char>,
    dict: Seq<TagLanguage>,
)
    requires
        tracks_for(found, entries, stem, dict),
    ensures
        found.len() <= entries.len(),
        forall|i: int|
            0 <= i < entries.len() && is_sidecar(#[trigger] entries[i], stem) ==> exists|k: int|
                0 <= k < found.len() && (#[trigger] found[k]).path@ == entries[i].path@,
        forall|k: int|
            0 <= k < found.len() ==> exists|i: int|
                0 <= i < entries.len() && is_sidecar(#[trigger] entries[i], stem) && entries[i].path@
                    == (#[trigger] found[k]).path@,
    decreases entries.len(),
{
    if entries.len() > 0 {
        let fewer = entries.drop_last();
        let n = entries.len() - 1;
        let last = is_sidecar(entries[n], stem);
        let rest = if last {
            found.drop_last()
        } else {
            found
        };
        law_every_sidecar_becomes_a_track(rest, fewer, stem, dict);
        assert forall|i: int|
            0 <= i < entries.len() && is_sidecar(#[trigger] entries[i], stem) implies exists|k: int|
            0 <= k < found.len() && (#[trigger] found[k]).path@ == entries[i].path@ by {
            if i < n {
                assert(fewer[i] == entries[i]);
                let k = choose|k: int|
                    0 <= k < rest.len() && (#[trigger] rest[k]).path@ == fewer[i].path@;
                assert(found[k] == rest[k]);
            } else {
                assert(found[found.len() - 1].path@ == entries[i].path@);
            }
        }
        assert forall|k: int| 0 <= k < found.len() implies exists|i: int|
            0 <= i < entries.len() && is_sidecar(#[trigger] entries[i], stem) && entries[i].path@
                == (#[trigger] found[k]).path@ by {
            if k < rest.len() {
                assert(found[k] == rest[k]);
                let i = choose|i: int|
                    0 <= i < fewer.len() && is_sidecar(#[trigger] fewer[i], stem) && fewer[i].path@
                        == rest[k].path@;
                assert(entries[i] == fewer[i]);
            } else {
                assert(is_sidecar(entries[n], stem));
            }
        }
    }
}

/// A sidecar is a file with the extension of a subtitle format, in letters of any case, and with the name of
/// the video.
pub proof fn law_sidecars_are_subtitle_files(entry: SidecarEntry, stem: Seq<char>)
    ensures
        is_sidecar(entry, stem) <==> entry.is_file && extension_of(entry.path@) is Some && file_stem_of(
            entry.path@,
        ) is Some && seq!["srt"@, "ass"@, "ssa"@, "vtt"@, "webvtt"@].contains(
            lowercase(extension_of(entry.path@)->0),
        ) && sidecar_rest(stem, file_stem_of(entry.path@)->0) is Some,
{
    if extension_of(entry.path@) is Some {
        law_subtitle_files_by_extension(lowercase(extension_of(entry.path@)->0));
    }
}

}
