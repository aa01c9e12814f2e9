//! The tree of files below a root, as it is shown: without the directory of
//! the version control, every directory with its entries in the order of
//! their names.

use crate::path_guard::{file_name, file_name_of};
use crate::text::{chars_of, str_eq};
use vstd::prelude::*;
use vstd::string::StringExecFns;

verus! {

/// A file, or a directory with its entries.
#[derive(Debug, PartialEq, Eq)]
pub enum FsEntry {
    File { name: String },
    Directory { name: String, children: Vec<FsEntry> },
}

/// What kind of thing a directory entry is.
#[derive(Debug, Clone, Copy, PartialEq, Eq, Structural)]
pub enum RawKind {
    File,
    Directory,
    /// Neither a file nor a directory, such as a symbolic link.
    Other,
}

/// A directory entry as the file system reports it, in no particular order;
/// a directory comes with its own entries.
#[derive(Debug)]
pub struct RawEntry {
    pub name: String,
    pub kind: RawKind,
    pub children: Vec<RawEntry>,
}

/// The content of an `FsEntry`.
pub enum TreeView {
    File { name: Seq<char> },
    Directory { name: Seq<char>, children: Seq<TreeView> },
}

/// The name of an entry.
pub open spec fn name_of(tree: TreeView) -> Seq<char> {
    match tree {
        TreeView::File { name } => name,
        TreeView::Directory { name, children } => name,
    }
}

/// The contents of the first `n` entries.
pub open spec fn trees_of(entries: Seq<FsEntry>, n: nat) -> Seq<TreeView>
    decreases entries, n,
{
    if n == 0 || n > entries.len() {
        Seq::empty()
    } else {
        trees_of(entries, (n - 1) as nat).push(
            match entries[n - 1] {
                FsEntry::File { name } => TreeView::File { name: name@ },
                FsEntry::Directory { name, children } => TreeView::Directory {
                    name: name@,
                    children: trees_of(children@, children@.len()),
                },
            },
        )
    }
}

impl View for FsEntry {
    type V = TreeView;

    open spec fn view(&self) -> TreeView {
        match self {
            FsEntry::File { name } => TreeView::File { name: name@ },
            FsEntry::Directory { name, children } => TreeView::Directory {
                name: name@,
                children: trees_of(children@, children@.len()),
            },
        }
    }
}

/// Whether `a` comes before `b` in the order of strings: at the first
/// position where they differ `a` has the smaller character, or `a` ends
/// there and `b` goes on.
pub open spec fn text_lt(a: Seq<char>, b: Seq<char>) -> bool
    decreases a.len(),
{
    if b.len() == 0 {
        false
    } else if a.len() == 0 {
        true
    } else if (a[0] as u32) < (b[0] as u32) {
        true
    } else if (a[0] as u32) > (b[0] as u32) {
        false
    } else {
        text_lt(a.drop_first(), b.drop_first())
    }
}

/// The entries with `tree` put in by its name: behind every entry whose name
/// does not come after its own.
pub open spec fn insert_by_name(sorted: Seq<TreeView>, tree: TreeView) -> Seq<TreeView>
    decreases sorted.len(),
{
    if sorted.len() == 0 {
        seq![tree]
    } else if text_lt(name_of(tree), name_of(sorted[0])) {
        seq![tree] + sorted
    } else {
        seq![sorted[0]] + insert_by_name(sorted.drop_first(), tree)
    }
}

/// Whether an entry is shown: anything named `.git` is not, and neither is
/// what is no file and no directory.
pub open spec fn shown(raw: RawEntry) -> bool {
    raw.name@ != ".git"@ && !(raw.kind is Other)
}

/// The tree of the first `n` entries: those that are shown, each directory
/// with the tree of its own entries, in the order of their names; entries of
/// the same name stay in the order in which they were reported.
pub open spec fn listing(raws: Seq<RawEntry>, n: nat) -> Seq<TreeView>
    decreases raws, n,
{
    if n == 0 || n > raws.len() {
        Seq::empty()
    } else {
        let before = listing(raws, (n - 1) as nat);
        let raw = raws[n - 1];
        if !shown(raw) {
            before
        } else if raw.kind is Directory {
            insert_by_name(
                before,
                TreeView::Directory {
                    name: raw.name@,
                    children: listing(raw.children@, raw.children@.len()),
                },
            )
        } else {
            insert_by_name(before, TreeView::File { name: raw.name@ })
        }
    }
}

/// The contents of the entries are the contents of the first of them, then
/// that of the next one.
pub proof fn lemma_trees_of_step(entries: Seq<FsEntry>, n: nat)
    requires
        0 < n <= entries.len(),
    ensures
        trees_of(entries, n) == trees_of(entries, (n - 1) as nat).push(entries[n - 1]@),
        trees_of(entries, n).len() == n,
    decreases n,
{
    if n > 1 {
        lemma_trees_of_step(entries, (n - 1) as nat);
    }
}

/// The contents of entries depend on the entries counted only.
pub proof fn lemma_trees_of_prefix(a: Seq<FsEntry>, b: Seq<FsEntry>, n: nat)
    requires
        n <= a.len(),
        n <= b.len(),
        forall|i: int| 0 <= i < n ==> a[i]@ == b[i]@,
    ensures
        trees_of(a, n) == trees_of(b, n),
    decreases n,
{
    if n > 0 {
        lemma_trees_of_prefix(a, b, (n - 1) as nat);
        lemma_trees_of_step(a, n);
        lemma_trees_of_step(b, n);
    }
}

/// The contents of all the entries.
pub open spec fn forest(entries: Seq<FsEntry>) -> Seq<TreeView> {
    trees_of(entries, entries.len())
}

/// The forest of entries holds the content of each, in order.
pub proof fn lemma_forest(entries: Seq<FsEntry>)
    ensures
        forest(entries).len() == entries.len(),
        forall|i: int| 0 <= i < entries.len() ==> forest(entries)[i] == (#[trigger] entries[i])@,
    decreases entries.len(),
{
    if entries.len() > 0 {
        let n = entries.len();
        lemma_trees_of_step(entries, n);
        let front = entries.drop_last();
        lemma_forest(front);
        lemma_trees_of_prefix(entries, front, (n - 1) as nat);
        assert forall|i: int| 0 <= i < entries.len() implies forest(entries)[i] == (
        #[trigger] entries[i])@ by {
            if i < n - 1 {
                assert(front[i] == entries[i]);
            }
        }
    }
}

impl FsEntry {
    /// A copy of the entry, with all that is below it.
    #[verifier::loop_isolation(false)]
    pub fn copy(&self) -> (r: FsEntry)
        ensures
            r@ == self@,
        decreases self,
    {
        match self {
            FsEntry::File { name } => FsEntry::File { name: name.clone() },
            FsEntry::Directory { name, children } => {
                let mut copies: Vec<FsEntry> = Vec::new();
                let mut i: usize = 0;
                while i < children.len()
                    invariant
                        i <= children.len(),
                        copies@.len() == i,
                        forall|k: int| 0 <= k < i ==> (#[trigger] copies@[k])@ == children@[k]@,
                    decreases children.len() - i,
                {
                    let child = children[i].copy();
                    copies.push(child);
                    i += 1;
                }
                proof {
                    lemma_trees_of_prefix(copies@, children@, children@.len());
                }
                FsEntry::Directory { name: name.clone(), children: copies }
            },
        }
    }
}

impl Clone for FsEntry {
    fn clone(&self) -> (r: FsEntry)
        ensures
            r@ == self@,
    {
        self.copy()
    }
}


/// Whether `a` comes before `b` in the order of strings.
pub fn name_before(a: &str, b: &str) -> (r: bool)
    ensures
        r == text_lt(a@, b@),
{
    let x = chars_of(a);
    let y = chars_of(b);
    let mut i: usize = 0;
    assert(x@.skip(0) =~= x@);
    assert(y@.skip(0) =~= y@);
    loop
        invariant
            i <= x.len(),
            i <= y.len(),
            x@ == a@,
            y@ == b@,
            text_lt(x@, y@) == text_lt(x@.skip(i as int), y@.skip(i as int)),
        decreases x.len() - i,
    {
        if i >= y.len() {
            return false;
        }
        if i >= x.len() {
            return true;
        }
        let p: u32 = x[i] as u32;
        let q: u32 = y[i] as u32;
        assert(x@.skip(i as int)[0] == x@[i as int]);
        assert(y@.skip(i as int)[0] == y@[i as int]);
        if p < q {
            return true;
        }
        if p > q {
            return false;
        }
        assert(x@.skip(i as int).drop_first() =~= x@.skip(i + 1));
        assert(y@.skip(i as int).drop_first() =~= y@.skip(i + 1));
        i += 1;
    }
}

/// Where an entry goes by its name: at the first position that holds a name
/// which comes after its own.
pub proof fn lemma_insert_at(sorted: Seq<TreeView>, tree: TreeView, p: int)
    requires
        0 <= p <= sorted.len(),
        forall|k: int| 0 <= k < p ==> !text_lt(name_of(tree), name_of(#[trigger] sorted[k])),
        p < sorted.len() ==> text_lt(name_of(tree), name_of(sorted[p])),
    ensures
        insert_by_name(sorted, tree) == sorted.insert(p, tree),
    decreases sorted.len(),
{
    if sorted.len() == 0 {
        assert(sorted.insert(p, tree) =~= seq![tree]);
    } else if p == 0 {
        assert(sorted.insert(0, tree) =~= seq![tree] + sorted);
    } else {
        assert(!text_lt(name_of(tree), name_of(sorted[0])));
        let rest = sorted.drop_first();
        assert forall|k: int| 0 <= k < p - 1 implies !text_lt(
            name_of(tree),
            name_of(#[trigger] rest[k]),
        ) by {
            assert(rest[k] == sorted[k + 1]);
        }
        lemma_insert_at(rest, tree, p - 1);
        assert(sorted.insert(p, tree) =~= seq![sorted[0]] + rest.insert(p - 1, tree));
    }
}

/// The name of an entry.
pub fn entry_name(entry: &FsEntry) -> (name: &String)
    ensures
        name@ == name_of(entry@),
{
    match entry {
        FsEntry::File { name } => name,
        FsEntry::Directory { name, children } => name,
    }
}

/// Puts an entry among entries by its name: behind every entry whose name
/// does not come after its own.
pub fn insert_entry(sorted: &mut Vec<FsEntry>, entry: FsEntry)
    ensures
        forest(final(sorted)@) == insert_by_name(forest(old(sorted)@), entry@),
{
    let mut p: usize = 0;
    proof {
        lemma_forest(sorted@);
    }
    while p < sorted.len() && !name_before(
        entry_name(&entry).as_str(),
        entry_name(&sorted[p]).as_str(),
    )
        invariant
            p <= sorted.len(),
            sorted@ == old(sorted)@,
            forest(sorted@).len() == sorted@.len(),
            forall|k: int|
                0 <= k < sorted@.len() ==> forest(sorted@)[k] == (#[trigger] sorted@[k])@,
            forall|k: int|
                0 <= k < p ==> !text_lt(name_of(entry@), name_of(#[trigger] forest(sorted@)[k])),
        decreases sorted.len() - p,
    {
        p += 1;
    }
    proof {
        lemma_insert_at(forest(sorted@), entry@, p as int);
    }
    let ghost before = sorted@;
    sorted.insert(p, entry);
    proof {
        lemma_forest(before);
        lemma_forest(sorted@);
        let after = forest(sorted@);
        let wanted = forest(before).insert(p as int, entry@);
        assert(after.len() == wanted.len());
        assert forall|k: int| 0 <= k < after.len() implies after[k] == wanted[k] by {
            assert(after[k] == sorted@[k]@);
            if k < p {
                assert(sorted@[k] == before[k]);
                assert(wanted[k] == forest(before)[k]);
            } else if k == p {
            } else {
                assert(sorted@[k] == before[k - 1]);
                assert(wanted[k] == forest(before)[k - 1]);
            }
        }
        assert(after =~= wanted);
    }
}

/// Whether an entry of this name may be shown at all. A caller that walks a
/// directory need not look below an entry that may not.
pub fn is_shown_name(name: &str) -> (r: bool)
    ensures
        r == (name@ != ".git"@),
{
    !str_eq(name, ".git")
}

/// The tree of the entries that a directory reports: those that are shown,
/// each directory with the tree of its own entries, in the order of their
/// names.
#[verifier::loop_isolation(false)]
pub fn list_entries(raws: &Vec<RawEntry>) -> (entries: Vec<FsEntry>)
    ensures
        forest(entries@) == listing(raws@, raws@.len()),
    decreases raws,
{
    let mut entries: Vec<FsEntry> = Vec::new();
    let mut i: usize = 0;
    while i < raws.len()
        invariant
            i <= raws.len(),
            forest(entries@) == listing(raws@, i as nat),
        decreases raws.len() - i,
    {
        let raw = &raws[i];
        let hidden = str_eq(raw.name.as_str(), ".git");
        match raw.kind {
            RawKind::Other => {},
            RawKind::Directory => {
                if !hidden {
                    let children = list_entries(&raw.children);
                    insert_entry(
                        &mut entries,
                        FsEntry::Directory { name: raw.name.clone(), children },
                    );
                }
            },
            RawKind::File => {
                if !hidden {
                    insert_entry(&mut entries, FsEntry::File { name: raw.name.clone() });
                }
            },
        }
        i += 1;
    }
    entries
}

/// The name under which a root is shown: its last component, or `/` where it
/// has none.
pub open spec fn root_name(path: Seq<char>) -> Seq<char> {
    match file_name_of(path) {
        Some(name) => name,
        None => "/"@,
    }
}

/// The tree below `path`, from what the directory and the directories below
/// it report: a directory named after the last component of the path, with
/// the entries in the order of their names.
pub fn list_files_raw(path: &str, entries: &Vec<RawEntry>) -> (tree: FsEntry)
    ensures
        tree@ == (TreeView::Directory {
            name: root_name(path@),
            children: listing(entries@, entries@.len()),
        }),
{
    let name = match file_name(path) {
        Some(name) => name,
        None => String::from_str("/"),
    };
    FsEntry::Directory { name, children: list_entries(entries) }
}


/// No string comes before itself.
pub proof fn lemma_text_lt_irreflexive(a: Seq<char>)
    ensures
        !text_lt(a, a),
    decreases a.len(),
{
    if a.len() > 0 {
        lemma_text_lt_irreflexive(a.drop_first());
    }
}

/// The order of strings is transitive.
pub proof fn lemma_text_lt_transitive(a: Seq<char>, b: Seq<char>, c: Seq<char>)
    requires
        text_lt(a, b),
        text_lt(b, c),
    ensures
        text_lt(a, c),
    decreases a.len(),
{
    if a.len() > 0 && b.len() > 0 && c.len() > 0 {
        if a[0] as u32 == b[0] as u32 && b[0] as u32 == c[0] as u32 {
            lemma_text_lt_transitive(a.drop_first(), b.drop_first(), c.drop_first());
        }
    }
}

/// Of two different strings one comes before the other: the order of names
/// is total.
pub proof fn law_names_are_totally_ordered(a: Seq<char>, b: Seq<char>)
    ensures
        a == b || text_lt(a, b) || text_lt(b, a),
    decreases a.len(),
{
    if a.len() > 0 && b.len() > 0 {
        if a[0] as u32 == b[0] as u32 {
            vstd::utf8::char_u32_cast(a[0], a[0] as u32);
            vstd::utf8::char_u32_cast(b[0], b[0] as u32);
            law_names_are_totally_ordered(a.drop_first(), b.drop_first());
            if a.drop_first() == b.drop_first() {
                assert(a =~= seq![a[0]] + a.drop_first());
                assert(b =~= seq![b[0]] + b.drop_first());
            }
        }
    } else if a.len() == 0 && b.len() == 0 {
        assert(a =~= b);
    }
}

/// The entries stand in the order of their names.
pub open spec fn ordered_by_name(trees: Seq<TreeView>) -> bool {
    forall|i: int, j: int|
        0 <= i < j < trees.len() ==> !text_lt(
            name_of(#[trigger] trees[j]),
            name_of(#[trigger] trees[i]),
        )
}

/// The position at which an entry goes by its name.
pub open spec fn position_by_name(sorted: Seq<TreeView>, tree: TreeView) -> int
    decreases sorted.len(),
{
    if sorted.len() == 0 || text_lt(name_of(tree), name_of(sorted[0])) {
        0
    } else {
        1 + position_by_name(sorted.drop_first(), tree)
    }
}

/// An entry goes behind the entries whose names do not come after its own
/// and before the first one whose name does.
pub proof fn lemma_position_by_name(sorted: Seq<TreeView>, tree: TreeView)
    ensures
        0 <= position_by_name(sorted, tree) <= sorted.len(),
        forall|k: int|
            0 <= k < position_by_name(sorted, tree) ==> !text_lt(
                name_of(tree),
                name_of(#[trigger] sorted[k]),
            ),
        position_by_name(sorted, tree) < sorted.len() ==> text_lt(
            name_of(tree),
            name_of(sorted[position_by_name(sorted, tree)]),
        ),
        insert_by_name(sorted, tree) == sorted.insert(position_by_name(sorted, tree), tree),
    decreases sorted.len(),
{
    if sorted.len() == 0 || text_lt(name_of(tree), name_of(sorted[0])) {
    } else {
        let rest = sorted.drop_first();
        lemma_position_by_name(rest, tree);
        assert forall|k: int| 0 <= k < position_by_name(sorted, tree) implies !text_lt(
            name_of(tree),
            name_of(#[trigger] sorted[k]),
        ) by {
            if k > 0 {
                assert(rest[k - 1] == sorted[k]);
            }
        }
        if position_by_name(sorted, tree) < sorted.len() {
            assert(rest[position_by_name(rest, tree)] == sorted[position_by_name(sorted, tree)]);
        }
    }
    lemma_insert_at(sorted, tree, position_by_name(sorted, tree));
}

/// Putting an entry in by its name keeps the order of names, and adds the
/// entry to what was there.
pub proof fn lemma_insert_by_name(sorted: Seq<TreeView>, tree: TreeView)
    requires
        ordered_by_name(sorted),
    ensures
        ordered_by_name(insert_by_name(sorted, tree)),
        insert_by_name(sorted, tree).to_multiset() == sorted.to_multiset().insert(tree),
        insert_by_name(sorted, tree).len() == sorted.len() + 1,
{
    let p = position_by_name(sorted, tree);
    lemma_position_by_name(sorted, tree);
    let after = sorted.insert(p, tree);
    vstd::seq_lib::to_multiset_insert(sorted, p, tree);
    assert forall|i: int, j: int| 0 <= i < j < after.len() implies !text_lt(
        name_of(#[trigger] after[j]),
        name_of(#[trigger] after[i]),
    ) by {
        if j < p {
            assert(after[i] == sorted[i] && after[j] == sorted[j]);
        } else if j == p {
            assert(after[i] == sorted[i]);
        } else if i == p {
            assert(after[j] == sorted[j - 1]);
            if text_lt(name_of(sorted[j - 1]), name_of(tree)) {
                lemma_text_lt_transitive(
                    name_of(sorted[j - 1]),
                    name_of(tree),
                    name_of(sorted[p]),
                );
                lemma_text_lt_irreflexive(name_of(sorted[p]));
            }
        } else if i < p {
            assert(after[i] == sorted[i] && after[j] == sorted[j - 1]);
        } else {
            assert(after[i] == sorted[i - 1] && after[j] == sorted[j - 1]);
        }
    }
}

/// The trees of the first `n` entries that are shown, in the order in which
/// the entries were reported.
pub open spec fn shown_trees(raws: Seq<RawEntry>, n: nat) -> Seq<TreeView>
    decreases n,
{
    if n == 0 || n > raws.len() {
        Seq::empty()
    } else {
        let before = shown_trees(raws, (n - 1) as nat);
        let raw = raws[n - 1];
        if !shown(raw) {
            before
        } else if raw.kind is Directory {
            before.push(
                TreeView::Directory {
                    name: raw.name@,
                    children: listing(raw.children@, raw.children@.len()),
                },
            )
        } else {
            before.push(TreeView::File { name: raw.name@ })
        }
    }
}

/// A listing stands in the order of the names, and holds exactly the entries
/// that are shown: each as often as it was reported, none that was hidden.
pub proof fn law_listing_is_ordered_and_complete(raws: Seq<RawEntry>, n: nat)
    requires
        n <= raws.len(),
    ensures
        ordered_by_name(listing(raws, n)),
        listing(raws, n).to_multiset() == shown_trees(raws, n).to_multiset(),
        listing(raws, n).len() == shown_trees(raws, n).len(),
    decreases n,
{
    broadcast use vstd::seq_lib::to_multiset_len;

    if n > 0 {
        law_listing_is_ordered_and_complete(raws, (n - 1) as nat);
        let before = listing(raws, (n - 1) as nat);
        let raw = raws[n - 1];
        if shown(raw) {
            let tree = if raw.kind is Directory {
                TreeView::Directory {
                    name: raw.name@,
                    children: listing(raw.children@, raw.children@.len()),
                }
            } else {
                TreeView::File { name: raw.name@ }
            };
            lemma_insert_by_name(before, tree);
            vstd::seq_lib::to_multiset_build(shown_trees(raws, (n - 1) as nat), tree);
        }
    }
}

/// The tree of an entry that is shown.
pub open spec fn tree_of(raw: RawEntry) -> TreeView {
    if raw.kind is Directory {
        TreeView::Directory {
            name: raw.name@,
            children: listing(raw.children@, raw.children@.len()),
        }
    } else {
        TreeView::File { name: raw.name@ }
    }
}

/// Every entry that a directory reports and that is shown is in the listing
/// of the directory, under its own name: a file that was written below the
/// root is in the tree.
pub proof fn law_reported_entry_is_listed(raws: Seq<RawEntry>, i: int)
    requires
        0 <= i < raws.len(),
        shown(raws[i]),
    ensures
        listing(raws, raws.len()).contains(tree_of(raws[i])),
        name_of(tree_of(raws[i])) == raws[i].name@,
{
    law_listing_is_ordered_and_complete(raws, raws.len());
    lemma_shown_trees_hold(raws, raws.len(), i);
    vstd::seq_lib::to_multiset_contains(shown_trees(raws, raws.len()), tree_of(raws[i]));
    vstd::seq_lib::to_multiset_contains(listing(raws, raws.len()), tree_of(raws[i]));
}

/// Whether the directories report the file `name` below the directories
/// `dirs`, each of them inside the one before: at every level the entry is one
/// that is shown.
pub open spec fn reports_file(raws: Seq<RawEntry>, dirs: Seq<Seq<char>>, name: Seq<char>) -> bool
    decreases dirs.len(),
{
    if dirs.len() == 0 {
        exists|i: int|
            0 <= i < raws.len() && shown(#[trigger] raws[i]) && raws[i].kind is File
                && raws[i].name@ == name
    } else {
        exists|i: int|
            0 <= i < raws.len() && shown(#[trigger] raws[i]) && raws[i].kind is Directory
                && raws[i].name@ == dirs[0] && reports_file(
                raws[i].children@,
                dirs.drop_first(),
                name,
            )
    }
}

/// Whether a tree holds the file `name` below the directories `dirs`:
/// descending through the directories of these names reaches the file.
pub open spec fn holds_file(trees: Seq<TreeView>, dirs: Seq<Seq<char>>, name: Seq<char>) -> bool
    decreases dirs.len(),
{
    if dirs.len() == 0 {
        trees.contains(TreeView::File { name })
    } else {
        exists|j: int|
            0 <= j < trees.len() && (#[trigger] trees[j]) is Directory && name_of(trees[j])
                == dirs[0] && holds_file(trees[j]->Directory_children, dirs.drop_first(), name)
    }
}

/// A file that the directories report at any depth is in the tree at that
/// depth: once a file was written below the root and the file system reports
/// it, the listing of the root holds it under the same directories.
pub proof fn law_reported_file_is_in_the_tree(
    raws: Seq<RawEntry>,
    dirs: Seq<Seq<char>>,
    name: Seq<char>,
)
    requires
        reports_file(raws, dirs, name),
    ensures
        holds_file(listing(raws, raws.len()), dirs, name),
    decreases dirs.len(),
{
    let trees = listing(raws, raws.len());
    if dirs.len() == 0 {
        let i = choose|i: int|
            0 <= i < raws.len() && shown(#[trigger] raws[i]) && raws[i].kind is File
                && raws[i].name@ == name;
        law_reported_entry_is_listed(raws, i);
        assert(tree_of(raws[i]) == TreeView::File { name });
    } else {
        let i = choose|i: int|
            0 <= i < raws.len() && shown(#[trigger] raws[i]) && raws[i].kind is Directory
                && raws[i].name@ == dirs[0] && reports_file(
                raws[i].children@,
                dirs.drop_first(),
                name,
            );
        law_reported_entry_is_listed(raws, i);
        law_reported_file_is_in_the_tree(raws[i].children@, dirs.drop_first(), name);
        let tree = tree_of(raws[i]);
        let j = choose|j: int| 0 <= j < trees.len() && trees[j] == tree;
        assert(trees[j] is Directory);
        assert(trees[j]->Directory_children == listing(
            raws[i].children@,
            raws[i].children@.len(),
        ));
    }
}

/// The trees of the shown entries hold the tree of each shown entry.
pub proof fn lemma_shown_trees_hold(raws: Seq<RawEntry>, n: nat, i: int)
    requires
        0 <= i < n <= raws.len(),
        shown(raws[i]),
    ensures
        shown_trees(raws, n).contains(tree_of(raws[i])),
    decreases n,
{
    let before = shown_trees(raws, (n - 1) as nat);
    if i == n - 1 {
        let all = shown_trees(raws, n);
        assert(all == before.push(tree_of(raws[i])));
        assert(all[all.len() - 1] == tree_of(raws[i]));
    } else {
        lemma_shown_trees_hold(raws, (n - 1) as nat, i);
        let k = choose|k: int| 0 <= k < before.len() && before[k] == tree_of(raws[i]);
        let all = shown_trees(raws, n);
        if shown(raws[n - 1]) {
            assert(all == before.push(tree_of(raws[n - 1])));
            assert(all[k] == before[k]);
        }
    }
}

/// Nothing named `.git` is in a listing, at the top or at the bottom of it.
pub proof fn law_listing_hides_repository(raws: Seq<RawEntry>, n: nat, i: int)
    requires
        n <= raws.len(),
        0 <= i < listing(raws, n).len(),
    ensures
        name_of(listing(raws, n)[i]) != ".git"@,
    decreases n,
{
    if n > 0 {
        let before = listing(raws, (n - 1) as nat);
        let raw = raws[n - 1];
        if shown(raw) {
            let tree = if raw.kind is Directory {
                TreeView::Directory {
                    name: raw.name@,
                    children: listing(raw.children@, raw.children@.len()),
                }
            } else {
                TreeView::File { name: raw.name@ }
            };
            lemma_position_by_name(before, tree);
            let p = position_by_name(before, tree);
            if i < p {
                law_listing_hides_repository(raws, (n - 1) as nat, i);
            } else if i > p {
                law_listing_hides_repository(raws, (n - 1) as nat, i - 1);
            }
        } else {
            law_listing_hides_repository(raws, (n - 1) as nat, i);
        }
    }
}


} // verus!
