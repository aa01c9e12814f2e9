//! A summary of the files of a directory by the time of their last change.

use vstd::prelude::*;

verus! {

/// A file: its name without extension, and when it was last changed, in
/// seconds since the epoch.
#[derive(Debug, Clone, PartialEq, Eq)]
pub struct FileEntry {
    pub name: String,
    pub modified: i64,
}

/// The files of a directory, newest first: all of them, those changed in the
/// last 24 hours, those changed in the last week before that, and the rest.
#[derive(Debug)]
pub struct FileSummary {
    pub all_files: Vec<FileEntry>,
    pub modified_last_24h: Vec<FileEntry>,
    pub modified_1w_excl_24h: Vec<FileEntry>,
    pub older_than_1w: Vec<FileEntry>,
}

/// The content of a `FileEntry`.
pub struct FileView {
    pub name: Seq<char>,
    pub modified: int,
}

impl View for FileEntry {
    type V = FileView;

    open spec fn view(&self) -> FileView {
        FileView { name: self.name@, modified: self.modified as int }
    }
}

/// The contents of the files.
pub open spec fn file_views(files: Seq<FileEntry>) -> Seq<FileView> {
    files.map_values(|file: FileEntry| file@)
}

/// How old a change is.
#[derive(Debug, Clone, Copy, PartialEq, Eq, Structural)]
pub enum Age {
    LastDay,
    LastWeek,
    Older,
}

/// The number of seconds in a day.
pub const DAY: i64 = 86400;

/// The number of seconds in a week.
pub const WEEK: i64 = 604800;

/// How old a change is at the time `now`: of the last day where it is less
/// than a day ago, of the last week where it is less than a week ago.
pub open spec fn age_at(modified: int, now: int) -> Age {
    if now - modified < 86400 {
        Age::LastDay
    } else if now - modified < 604800 {
        Age::LastWeek
    } else {
        Age::Older
    }
}

/// How old a change is at the time `now`.
pub fn age_of(modified: i64, now: i64) -> (age: Age)
    ensures
        age == age_at(modified as int, now as int),
{
    let span: i128 = (now as i128) - (modified as i128);
    if span < 86400 {
        Age::LastDay
    } else if span < 604800 {
        Age::LastWeek
    } else {
        Age::Older
    }
}

/// The files with `file` put in by its time: behind every file that was not
/// changed before it.
pub open spec fn insert_newest_first(sorted: Seq<FileView>, file: FileView) -> Seq<FileView>
    decreases sorted.len(),
{
    if sorted.len() == 0 {
        seq![file]
    } else if sorted[0].modified < file.modified {
        seq![file] + sorted
    } else {
        seq![sorted[0]] + insert_newest_first(sorted.drop_first(), file)
    }
}

/// Those of the first `n` files that are of the given age, or all of them
/// where no age is given, newest first; files changed at the same time stay
/// in their order.
pub open spec fn newest_first(files: Seq<FileView>, n: nat, now: int, age: Option<Age>) -> Seq<
    FileView,
>
    decreases n,
{
    if n == 0 || n > files.len() {
        Seq::empty()
    } else {
        let before = newest_first(files, (n - 1) as nat, now, age);
        if age is None || age == Some(age_at(files[n - 1].modified, now)) {
            insert_newest_first(before, files[n - 1])
        } else {
            before
        }
    }
}

/// Where a file goes by its time: at the first position that holds a file
/// changed before it.
pub proof fn lemma_insert_newest_at(sorted: Seq<FileView>, file: FileView, p: int)
    requires
        0 <= p <= sorted.len(),
        forall|k: int| 0 <= k < p ==> (#[trigger] sorted[k]).modified >= file.modified,
        p < sorted.len() ==> sorted[p].modified < file.modified,
    ensures
        insert_newest_first(sorted, file) == sorted.insert(p, file),
    decreases sorted.len(),
{
    if sorted.len() == 0 {
        assert(sorted.insert(p, file) =~= seq![file]);
    } else if p == 0 {
        assert(sorted.insert(0, file) =~= seq![file] + sorted);
    } else {
        assert(sorted[0].modified >= file.modified);
        let rest = sorted.drop_first();
        assert forall|k: int| 0 <= k < p - 1 implies (#[trigger] rest[k]).modified
            >= file.modified by {
            assert(rest[k] == sorted[k + 1]);
        }
        lemma_insert_newest_at(rest, file, p - 1);
        assert(sorted.insert(p, file) =~= seq![sorted[0]] + rest.insert(p - 1, file));
    }
}

/// Puts a file among files by its time.
pub fn insert_by_time(sorted: &mut Vec<FileEntry>, file: FileEntry)
    ensures
        file_views(final(sorted)@) == insert_newest_first(file_views(old(sorted)@), file@),
{
    let mut p: usize = 0;
    while p < sorted.len() && sorted[p].modified >= file.modified
        invariant
            p <= sorted.len(),
            sorted@ == old(sorted)@,
            forall|k: int|
                0 <= k < p ==> (#[trigger] file_views(sorted@)[k]).modified >= file@.modified,
        decreases sorted.len() - p,
    {
        assert(file_views(sorted@)[p as int] == sorted@[p as int]@);
        p += 1;
    }
    proof {
        if p < sorted.len() {
            assert(file_views(sorted@)[p as int] == sorted@[p as int]@);
        }
        lemma_insert_newest_at(file_views(sorted@), file@, p as int);
    }
    let ghost before = sorted@;
    sorted.insert(p, file);
    assert(file_views(sorted@) =~= file_views(before).insert(p as int, file@));
}

/// A copy of a file entry.
fn copy_entry(file: &FileEntry) -> (copy: FileEntry)
    ensures
        copy@ == file@,
{
    FileEntry { name: file.name.clone(), modified: file.modified }
}

/// Sums the files of a directory up at the time `now`: all of them, and those
/// of each age, each list newest first.
pub fn summarize_files(files: &Vec<FileEntry>, now: i64) -> (summary: FileSummary)
    ensures
        file_views(summary.all_files@) == newest_first(
            file_views(files@),
            files@.len(),
            now as int,
            None,
        ),
        file_views(summary.modified_last_24h@) == newest_first(
            file_views(files@),
            files@.len(),
            now as int,
            Some(Age::LastDay),
        ),
        file_views(summary.modified_1w_excl_24h@) == newest_first(
            file_views(files@),
            files@.len(),
            now as int,
            Some(Age::LastWeek),
        ),
        file_views(summary.older_than_1w@) == newest_first(
            file_views(files@),
            files@.len(),
            now as int,
            Some(Age::Older),
        ),
{
    let mut all_files: Vec<FileEntry> = Vec::new();
    let mut modified_last_24h: Vec<FileEntry> = Vec::new();
    let mut modified_1w_excl_24h: Vec<FileEntry> = Vec::new();
    let mut older_than_1w: Vec<FileEntry> = Vec::new();
    let ghost views = file_views(files@);
    let mut i: usize = 0;
    assert(file_views(all_files@) =~= newest_first(views, 0, now as int, None));
    assert(file_views(modified_last_24h@) =~= newest_first(
        views,
        0,
        now as int,
        Some(Age::LastDay),
    ));
    assert(file_views(modified_1w_excl_24h@) =~= newest_first(
        views,
        0,
        now as int,
        Some(Age::LastWeek),
    ));
    assert(file_views(older_than_1w@) =~= newest_first(views, 0, now as int, Some(Age::Older)));
    while i < files.len()
        invariant
            i <= files.len(),
            views == file_views(files@),
            file_views(all_files@) == newest_first(views, i as nat, now as int, None),
            file_views(modified_last_24h@) == newest_first(
                views,
                i as nat,
                now as int,
                Some(Age::LastDay),
            ),
            file_views(modified_1w_excl_24h@) == newest_first(
                views,
                i as nat,
                now as int,
                Some(Age::LastWeek),
            ),
            file_views(older_than_1w@) == newest_first(
                views,
                i as nat,
                now as int,
                Some(Age::Older),
            ),
        decreases files.len() - i,
    {
        let file = &files[i];
        assert(views[i as int] == file@);
        match age_of(file.modified, now) {
            Age::LastDay => insert_by_time(&mut modified_last_24h, copy_entry(file)),
            Age::LastWeek => insert_by_time(&mut modified_1w_excl_24h, copy_entry(file)),
            Age::Older => insert_by_time(&mut older_than_1w, copy_entry(file)),
        }
        insert_by_time(&mut all_files, copy_entry(file));
        i += 1;
    }
    FileSummary { all_files, modified_last_24h, modified_1w_excl_24h, older_than_1w }
}

} // verus!
