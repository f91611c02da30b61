//! Following deletions and renames that webhooks report.

use vstd::prelude::*;

use crate::paths::file_name_of;
use crate::text::byte_len;
use crate::webhook::files::{
    delete_pattern, is_in_libraries, media_delete_pattern, new_target, renamed_target,
};
use crate::webhook::payload::ArrRenamedFile;

verus! {

/// What the handling of a deleted file has come to.
#[derive(Clone, Copy, Debug, PartialEq, Eq, Structural)]
pub enum FileDeleteStep {
    /// Open a transaction.
    Open,
    /// Find the file in the index.
    Find,
    /// Remove the file that was found.
    Remove,
    Commit,
    End,
}

/// The handling of a deleted file, by whether each of the steps so far was done; a file that is not in the
/// index needs nothing.
pub open spec fn deleting_file(done: Seq<bool>) -> FileDeleteStep {
    if done.len() == 0 {
        FileDeleteStep::Open
    } else if !done[0] {
        FileDeleteStep::End
    } else if done.len() == 1 {
        FileDeleteStep::Find
    } else if !done[1] {
        FileDeleteStep::End
    } else if done.len() == 2 {
        FileDeleteStep::Remove
    } else if done.len() == 3 {
        FileDeleteStep::Commit
    } else {
        FileDeleteStep::End
    }
}

/// Goes on with the handling of a deleted file.
pub fn process_file_delete(done: &Vec<bool>) -> (r: FileDeleteStep)
    ensures
        r == deleting_file(done@),
{
    let n: usize = done.len();
    if n == 0 {
        return FileDeleteStep::Open;
    }
    if !done[0] {
        return FileDeleteStep::End;
    }
    if n == 1 {
        return FileDeleteStep::Find;
    }
    if !done[1] {
        return FileDeleteStep::End;
    }
    if n == 2 {
        FileDeleteStep::Remove
    } else if n == 3 {
        FileDeleteStep::Commit
    } else {
        FileDeleteStep::End
    }
}

/// What came of a step.
#[derive(Debug)]
pub enum ChangeReply {
    Failed,
    Done,
    /// The path of the file that was found in the index.
    Target(String),
    /// The files that fit a pattern.
    Ids(Vec<i64>),
    /// The library of a file.
    Library(i64),
}

/// What the handling of renamed files has come to.
#[derive(Debug)]
pub enum RenameStep {
    /// Open a transaction.
    Open,
    /// Find the file that is reported at this place in the index.
    Find(usize),
    /// Give the file that is reported at this place a path.
    Update(usize, String),
    Commit,
    End,
}

/// What the handling of renamed files has come to.
pub enum Renaming {
    Open,
    Find(int),
    Update(int, Seq<char>),
    Commit,
    End,
}

/// The handling of renamed files from the `i`th on. A file that is not in the index, or whose path does not
/// agree with the old one, is left as it is.
pub open spec fn renaming_from(
    files: Seq<ArrRenamedFile>,
    i: int,
    replies: Seq<ChangeReply>,
    c: int,
) -> Renaming
    decreases files.len() - i,
{
    if i >= files.len() {
        if c >= replies.len() {
            Renaming::Commit
        } else {
            Renaming::End
        }
    } else if c >= replies.len() {
        Renaming::Find(i)
    } else {
        let target = match replies[c] {
            ChangeReply::Target(t) => new_target(
                t@,
                files[i].previous_relative_path,
                files[i].relative_path,
            ),
            _ => None,
        };
        match target {
            Some(t) => if c + 1 >= replies.len() {
                Renaming::Update(i, t)
            } else {
                renaming_from(files, i + 1, replies, c + 2)
            },
            None => renaming_from(files, i + 1, replies, c + 1),
        }
    }
}

/// The handling of renamed files, all in one transaction.
pub open spec fn renaming(files: Seq<ArrRenamedFile>, replies: Seq<ChangeReply>) -> Renaming {
    if replies.len() == 0 {
        Renaming::Open
    } else if replies[0] is Failed {
        Renaming::End
    } else {
        renaming_from(files, 0, replies, 1)
    }
}

/// `step` is the state `m`.
pub open spec fn is_rename_step(step: RenameStep, m: Renaming) -> bool {
    match (step, m) {
        (RenameStep::Open, Renaming::Open) => true,
        (RenameStep::Find(i), Renaming::Find(j)) => i == j,
        (RenameStep::Update(i, s), Renaming::Update(j, t)) => i == j && s@ == t,
        (RenameStep::Commit, Renaming::Commit) => true,
        (RenameStep::End, Renaming::End) => true,
        _ => false,
    }
}

/// Goes on with the handling of renamed files.
pub fn process_rename(files: &Vec<ArrRenamedFile>, replies: &Vec<ChangeReply>) -> (r: RenameStep)
    ensures
        is_rename_step(r, renaming(files@, replies@)),
{
    let len: usize = replies.len();
    if len == 0 {
        return RenameStep::Open;
    }
    if let ChangeReply::Failed = &replies[0] {
        return RenameStep::End;
    }
    let mut i: usize = 0;
    let mut c: usize = 1;
    while i < files.len()
        invariant
            0 <= i <= files@.len(),
            1 <= c <= len == replies@.len(),
            renaming(files@, replies@) == renaming_from(files@, i as int, replies@, c as int),
        decreases files@.len() - i,
    {
        if c >= len {
            return RenameStep::Find(i);
        }
        let target = match &replies[c] {
            ChangeReply::Target(t) => renamed_target(
                t.as_str(),
                &files[i].previous_relative_path,
                &files[i].relative_path,
            ),
            _ => None,
        };
        c = c + 1;
        if let Some(t) = target {
            if c >= len {
                return RenameStep::Update(i, t);
            }
            c = c + 1;
        }
        i = i + 1;
    }
    if c >= len {
        RenameStep::Commit
    } else {
        RenameStep::End
    }
}

/// What the handling of a deleted series or movie has come to.
#[derive(Debug)]
pub enum MediaDeleteStep {
    /// Open a transaction.
    Open,
    /// Find the files that fit a pattern.
    ByPattern(String),
    /// Find the library of a file.
    LibraryOf(i64),
    /// Remove a file.
    Remove(i64),
    Commit,
    End,
}

/// What the handling of a deleted series or movie has come to.
pub enum MediaDeleting {
    Open,
    ByPattern(Seq<char>),
    LibraryOf(i64),
    Remove(i64),
    Commit,
    End,
}

/// The removal of the files from the `i`th on, of those that are in one of the libraries.
pub open spec fn removing_from(
    ids: Seq<i64>,
    library_ids: Seq<i64>,
    i: int,
    replies: Seq<ChangeReply>,
    c: int,
) -> MediaDeleting
    decreases ids.len() - i,
{
    if i >= ids.len() {
        if c >= replies.len() {
            MediaDeleting::Commit
        } else {
            MediaDeleting::End
        }
    } else if c >= replies.len() {
        MediaDeleting::LibraryOf(ids[i])
    } else if replies[c] is Library && library_ids.contains(replies[c]->Library_0) {
        if c + 1 >= replies.len() {
            MediaDeleting::Remove(ids[i])
        } else {
            removing_from(ids, library_ids, i + 1, replies, c + 2)
        }
    } else {
        removing_from(ids, library_ids, i + 1, replies, c + 1)
    }
}

/// The handling of a deleted series or movie: the files in folders with the name of its folder are removed,
/// where they are in one of the libraries.
pub open spec fn deleting_media(
    folder: Option<String>,
    library_ids: Seq<i64>,
    replies: Seq<ChangeReply>,
) -> MediaDeleting {
    match delete_pattern(folder) {
        None => MediaDeleting::End,
        Some(pattern) => if replies.len() == 0 {
            MediaDeleting::Open
        } else if replies[0] is Failed {
            MediaDeleting::End
        } else if replies.len() == 1 {
            MediaDeleting::ByPattern(pattern)
        } else {
            match replies[1] {
                ChangeReply::Ids(ids) => removing_from(ids@, library_ids, 0, replies, 2),
                _ => MediaDeleting::End,
            }
        },
    }
}

/// `step` is the state `m`.
pub open spec fn is_media_delete_step(step: MediaDeleteStep, m: MediaDeleting) -> bool {
    match (step, m) {
        (MediaDeleteStep::Open, MediaDeleting::Open) => true,
        (MediaDeleteStep::ByPattern(s), MediaDeleting::ByPattern(t)) => s@ == t,
        (MediaDeleteStep::LibraryOf(i), MediaDeleting::LibraryOf(j)) => i == j,
        (MediaDeleteStep::Remove(i), MediaDeleting::Remove(j)) => i == j,
        (MediaDeleteStep::Commit, MediaDeleting::Commit) => true,
        (MediaDeleteStep::End, MediaDeleting::End) => true,
        _ => false,
    }
}

/// Goes on with the handling of a deleted series or movie; `library_ids` are the libraries of its type.
pub fn process_media_delete(
    folder: &Option<String>,
    library_ids: &Vec<i64>,
    replies: &Vec<ChangeReply>,
) -> (r: MediaDeleteStep)
    ensures
        is_media_delete_step(r, deleting_media(*folder, library_ids@, replies@)),
{
    let pattern = match media_delete_pattern(folder) {
        Some(pattern) => pattern,
        None => {
            return MediaDeleteStep::End;
        },
    };
    let len: usize = replies.len();
    if len == 0 {
        return MediaDeleteStep::Open;
    }
    if let ChangeReply::Failed = &replies[0] {
        return MediaDeleteStep::End;
    }
    if len == 1 {
        return MediaDeleteStep::ByPattern(pattern);
    }
    let ids = match &replies[1] {
        ChangeReply::Ids(ids) => ids,
        _ => {
            return MediaDeleteStep::End;
        },
    };
    let mut i: usize = 0;
    let mut c: usize = 2;
    while i < ids.len()
        invariant
            0 <= i <= ids@.len(),
            2 <= c <= len == replies@.len(),
            deleting_media(*folder, library_ids@, replies@) == removing_from(
                ids@,
                library_ids@,
                i as int,
                replies@,
                c as int,
            ),
        decreases ids@.len() - i,
    {
        if c >= len {
            return MediaDeleteStep::LibraryOf(ids[i]);
        }
        let ours = match &replies[c] {
            ChangeReply::Library(l) => is_in_libraries(library_ids, *l),
            _ => false,
        };
        c = c + 1;
        if ours {
            if c >= len {
                return MediaDeleteStep::Remove(ids[i]);
            }
            c = c + 1;
        }
        i = i + 1;
    }
    if c >= len {
        MediaDeleteStep::Commit
    } else {
        MediaDeleteStep::End
    }
}

/// A like-named folder of another library is left alone: a file is removed only after its library was found
/// to be one of those given.
pub proof fn law_other_libraries_are_untouched(
    folder: Option<String>,
    library_ids: Seq<i64>,
    replies: Seq<ChangeReply>,
    id: i64,
)
    requires
        deleting_media(folder, library_ids, replies) == MediaDeleting::Remove(id),
    ensures
        replies.len() > 0,
        replies.last() is Library,
        library_ids.contains(replies.last()->Library_0),
        deleting_media(folder, library_ids, replies.drop_last()) == MediaDeleting::LibraryOf(id),
{
    let ids = replies[1]->Ids_0@;
    assert(replies.len() >= 2);
    lemma_asked_before(ids, library_ids, 0, replies, 2, id);
    let before = replies.drop_last();
    assert(before[0] == replies[0]);
    assert(before[1] == replies[1]);
}

proof fn lemma_asked_before(
    ids: Seq<i64>,
    library_ids: Seq<i64>,
    i: int,
    replies: Seq<ChangeReply>,
    c: int,
    id: i64,
)
    requires
        0 <= i,
        2 <= c,
        removing_from(ids, library_ids, i, replies, c) == MediaDeleting::Remove(id),
    ensures
        replies.len() > c,
        replies.last() is Library,
        library_ids.contains(replies.last()->Library_0),
        removing_from(ids, library_ids, i, replies.drop_last(), c) == MediaDeleting::LibraryOf(id),
    decreases ids.len() - i,
{
    let before = replies.drop_last();
    if c + 1 < replies.len() {
        assert(before[c] == replies[c]);
        if replies[c] is Library && library_ids.contains(replies[c]->Library_0) {
            lemma_asked_before(ids, library_ids, i + 1, replies, c + 2, id);
        } else {
            lemma_asked_before(ids, library_ids, i + 1, replies, c + 1, id);
        }
    } else if !(replies[c] is Library && library_ids.contains(replies[c]->Library_0)) {
        lemma_asked_before(ids, library_ids, i + 1, replies, c + 1, id);
    }
}

/// A deleted file that is in the index is removed in a transaction: it is found, removed, and that is
/// committed.
pub proof fn law_deleted_files_are_removed(done: Seq<bool>)
    requires
        forall|i: int| 0 <= i < done.len() ==> #[trigger] done[i],
    ensures
        deleting_file(done) == (if done.len() == 0 {
            FileDeleteStep::Open
        } else if done.len() == 1 {
            FileDeleteStep::Find
        } else if done.len() == 2 {
            FileDeleteStep::Remove
        } else if done.len() == 3 {
            FileDeleteStep::Commit
        } else {
            FileDeleteStep::End
        }),
{
}

/// Without a transaction, or a file in the index, nothing is removed.
pub proof fn law_files_that_are_not_indexed_need_nothing(done: Seq<bool>)
    requires
        done.len() > 0,
        !done[0] || done.len() > 1 && !done[1],
    ensures
        deleting_file(done) is End,
{
}

/// How renaming goes on: each file is looked for, one that is found at a path that agrees with the old place
/// gets the new one, and after the last the changes are committed.
pub open spec fn renaming_goes_on(
    files: Seq<ArrRenamedFile>,
    now: Renaming,
    x: ChangeReply,
    next: Renaming,
) -> bool {
    match now {
        Renaming::Open => if x is Failed {
            next is End
        } else if files.len() > 0 {
            next == Renaming::Find(0)
        } else {
            next is Commit
        },
        Renaming::Find(i) => {
            let target = match x {
                ChangeReply::Target(t) => new_target(
                    t@,
                    files[i].previous_relative_path,
                    files[i].relative_path,
                ),
                _ => None,
            };
            &&& 0 <= i < files.len()
            &&& target matches Some(t) ==> next == Renaming::Update(i, t)
            &&& target is None && i + 1 < files.len() ==> next == Renaming::Find(i + 1)
            &&& target is None && i + 1 == files.len() ==> next is Commit
        },
        Renaming::Update(i, _) => {
            &&& 0 <= i < files.len()
            &&& i + 1 < files.len() ==> next == Renaming::Find(i + 1)
            &&& i + 1 == files.len() ==> next is Commit
        },
        Renaming::Commit => next is End,
        Renaming::End => true,
    }
}

/// Renaming goes on from any file.
proof fn lemma_renaming_goes_on(
    files: Seq<ArrRenamedFile>,
    i: int,
    replies: Seq<ChangeReply>,
    c: int,
    x: ChangeReply,
)
    requires
        0 <= i <= files.len(),
        0 <= c <= replies.len(),
    ensures
        !(renaming_from(files, i, replies, c) is Open),
        renaming_goes_on(
            files,
            renaming_from(files, i, replies, c),
            x,
            renaming_from(files, i, replies.push(x), c),
        ),
    decreases files.len() - i,
{
    let more = replies.push(x);
    reveal_with_fuel(renaming_from, 2);
    if i < files.len() && c < replies.len() {
        assert(more[c] == replies[c]);
        let target = match replies[c] {
            ChangeReply::Target(t) => new_target(
                t@,
                files[i].previous_relative_path,
                files[i].relative_path,
            ),
            _ => None,
        };
        match target {
            Some(_) => {
                if c + 1 < replies.len() {
                    lemma_renaming_goes_on(files, i + 1, replies, c + 2, x);
                }
            },
            None => {
                lemma_renaming_goes_on(files, i + 1, replies, c + 1, x);
            },
        }
    } else if i < files.len() {
        assert(more[c] == x);
    }
}

/// Renaming begins with a transaction, and every reply takes it on by one step, so that every file is looked
/// for.
pub proof fn law_every_renamed_file_is_looked_for(
    files: Seq<ArrRenamedFile>,
    replies: Seq<ChangeReply>,
    x: ChangeReply,
)
    ensures
        renaming(files, Seq::empty()) is Open,
        renaming_goes_on(files, renaming(files, replies), x, renaming(files, replies.push(x))),
{
    let more = replies.push(x);
    if replies.len() == 0 {
        assert(more[0] == x);
        reveal_with_fuel(renaming_from, 2);
    } else {
        assert(more[0] == replies[0]);
        if !(replies[0] is Failed) {
            lemma_renaming_goes_on(files, 0, replies, 1, x);
        }
    }
}

/// How the removal of a deleted series or movie goes on: the files in folders of its name are found, the library
/// of each is looked up, a file of one of the given libraries is removed, and after the last that is committed.
pub open spec fn media_delete_goes_on(
    library_ids: Seq<i64>,
    ids: Seq<i64>,
    i: int,
    now: MediaDeleting,
    x: ChangeReply,
    next: MediaDeleting,
) -> bool {
    match now {
        MediaDeleting::LibraryOf(id) => {
            let wanted = x matches ChangeReply::Library(l) && library_ids.contains(l);
            &&& 0 <= i < ids.len()
            &&& ids[i] == id
            &&& wanted ==> next == MediaDeleting::Remove(id)
            &&& !wanted && i + 1 < ids.len() ==> next == MediaDeleting::LibraryOf(ids[i + 1])
            &&& !wanted && i + 1 == ids.len() ==> next is Commit
        },
        MediaDeleting::Remove(id) => {
            &&& 0 <= i < ids.len()
            &&& ids[i] == id
            &&& i + 1 < ids.len() ==> next == MediaDeleting::LibraryOf(ids[i + 1])
            &&& i + 1 == ids.len() ==> next is Commit
        },
        MediaDeleting::Commit => next is End,
        _ => true,
    }
}

/// The file that the removal has come to, from the `i`th on.
pub open spec fn removing_at(
    ids: Seq<i64>,
    library_ids: Seq<i64>,
    i: int,
    replies: Seq<ChangeReply>,
    c: int,
) -> int
    decreases ids.len() - i,
{
    if i >= ids.len() || c >= replies.len() {
        i
    } else if replies[c] is Library && library_ids.contains(replies[c]->Library_0) {
        if c + 1 >= replies.len() {
            i
        } else {
            removing_at(ids, library_ids, i + 1, replies, c + 2)
        }
    } else {
        removing_at(ids, library_ids, i + 1, replies, c + 1)
    }
}

/// Every file that is found goes through the removal in its turn.
pub proof fn law_every_file_of_a_deleted_folder_is_judged(
    ids: Seq<i64>,
    library_ids: Seq<i64>,
    i: int,
    replies: Seq<ChangeReply>,
    c: int,
    x: ChangeReply,
)
    requires
        0 <= i <= ids.len(),
        0 <= c <= replies.len(),
    ensures
        media_delete_goes_on(
            library_ids,
            ids,
            removing_at(ids, library_ids, i, replies, c),
            removing_from(ids, library_ids, i, replies, c),
            x,
            removing_from(ids, library_ids, i, replies.push(x), c),
        ),
    decreases ids.len() - i,
{
    let more = replies.push(x);
    reveal_with_fuel(removing_from, 2);
    if i < ids.len() && c < replies.len() {
        assert(more[c] == replies[c]);
        if replies[c] is Library && library_ids.contains(replies[c]->Library_0) {
            if c + 1 < replies.len() {
                law_every_file_of_a_deleted_folder_is_judged(ids, library_ids, i + 1, replies, c + 2, x);
            }
        } else {
            law_every_file_of_a_deleted_folder_is_judged(ids, library_ids, i + 1, replies, c + 1, x);
        }
    } else if i < ids.len() {
        assert(more[c] == x);
    }
}

/// The removal of a deleted series or movie begins with a transaction and a search for the files in folders
/// with the name of its folder; without a folder that is named nothing is done.
pub proof fn law_deleted_folders_are_searched(
    folder: String,
    base: Seq<char>,
    library_ids: Seq<i64>,
    first: ChangeReply,
    ids: Vec<i64>,
)
    requires
        file_name_of(folder@) == Some(base),
        byte_len(base) >= 2,
        !(first is Failed),
    ensures
        deleting_media(Some(folder), library_ids, Seq::empty()) is Open,
        deleting_media(Some(folder), library_ids, seq![first]) == MediaDeleting::ByPattern(
            "%/"@ + base + "/%"@,
        ),
        ids@.len() > 0 ==> deleting_media(
            Some(folder),
            library_ids,
            seq![first, ChangeReply::Ids(ids)],
        ) == MediaDeleting::LibraryOf(ids@[0]),
        deleting_media(None, library_ids, Seq::empty()) is End,
{
    let r = seq![first, ChangeReply::Ids(ids)];
    assert(r[1] == ChangeReply::Ids(ids) && r[0] == first);
}

}
