use vstd::prelude::*;
use crate::frame::Frame;

verus! {

/// One entry of a directory, as the host read it.
#[derive(Debug)]
pub enum Entry {
    /// A regular file, with the frame decoded from it; `None` where it did not decode.
    File(Option<Frame>),
    /// Anything that is no regular file: a directory below the one listed.
    Directory(Directory),
}

/// A directory with what listing it gave.
#[derive(Debug)]
pub struct Directory {
    /// The path the directory is known by; a stored frame set is keyed by it.
    pub path: String,
    /// The entries in listing order; `None` where the directory could not be listed.
    pub listing: Option<Vec<Entry>>,
}

/// The frames of the regular files among `entries`, in listing order.
pub open spec fn frames_of(entries: Seq<Entry>) -> Seq<Frame>
    decreases entries.len(),
{
    if entries.len() == 0 {
        Seq::empty()
    } else {
        let before = frames_of(entries.drop_last());
        match entries.last() {
            Entry::File(Some(frame)) => before.push(frame),
            _ => before,
        }
    }
}

/// Every regular file among `entries` decoded as an image.
pub open spec fn all_decoded(entries: Seq<Entry>) -> bool {
    forall|i: int| 0 <= i < entries.len() ==> #[trigger] entries[i] != Entry::File(None)
}

/// How many of `entries` are regular files.
pub open spec fn file_count(entries: Seq<Entry>) -> nat
    decreases entries.len(),
{
    if entries.len() == 0 {
        0
    } else {
        let before = file_count(entries.drop_last());
        if entries.last() is File {
            before + 1
        } else {
            before
        }
    }
}

/// The directories among `entries`, in listing order.
pub open spec fn subdirectories(entries: Seq<Entry>) -> Seq<Directory>
    decreases entries.len(),
{
    if entries.len() == 0 {
        Seq::empty()
    } else {
        let before = subdirectories(entries.drop_last());
        match entries.last() {
            Entry::Directory(dir) => before.push(dir),
            _ => before,
        }
    }
}

/// Two walks one after the other; a walk that met an unlistable directory spoils both.
pub open spec fn join(first: Option<Seq<Directory>>, second: Option<Seq<Directory>>) -> Option<
    Seq<Directory>,
> {
    match (first, second) {
        (Some(a), Some(b)) => Some(a + b),
        _ => None,
    }
}

/// The leaf directories at and below `dir`, in the order a work stack visits them: `dir`
/// itself where it has no subdirectory, else those below its subdirectories, the last
/// listed first. `None` where `dir` or a directory below it could not be listed.
pub open spec fn leaves_under(dir: Directory) -> Option<Seq<Directory>>
    decreases dir, 0nat,
{
    match dir.listing {
        None => None,
        Some(entries) => if subdirectories(entries@).len() == 0 {
            Some(seq![dir])
        } else {
            leaves_among(entries@, entries@.len())
        },
    }
}

/// The leaf directories at and below the directories among the first `n` of `entries`,
/// the last listed first.
pub open spec fn leaves_among(entries: Seq<Entry>, n: nat) -> Option<Seq<Directory>>
    decreases entries, n,
{
    if n == 0 || n > entries.len() {
        Some(Seq::empty())
    } else {
        let below = match entries[n - 1] {
            Entry::Directory(dir) => leaves_under(dir),
            Entry::File(_) => Some(Seq::empty()),
        };
        join(below, leaves_among(entries, (n - 1) as nat))
    }
}

/// The leaf directories of a tree whose root gave `root` as its listing. The root itself
/// is never one of them.
pub open spec fn leaf_directories(root: Option<Vec<Entry>>) -> Option<Seq<Directory>> {
    match root {
        None => None,
        Some(entries) => leaves_among(entries@, entries@.len()),
    }
}

/// `dir` has a listing, and no directory in it.
pub open spec fn is_leaf(dir: Directory) -> bool {
    dir.listing matches Some(entries) && subdirectories(entries@).len() == 0
}

/// `sought` is `dir` or stands somewhere below it.
pub open spec fn stands_under(dir: Directory, sought: Directory) -> bool
    decreases dir, 0nat,
{
    sought == dir || match dir.listing {
        Some(entries) => stands_among(entries@, entries@.len(), sought),
        None => false,
    }
}

/// `sought` is one of the directories among the first `n` of `entries`, or stands
/// somewhere below one of them.
pub open spec fn stands_among(entries: Seq<Entry>, n: nat, sought: Directory) -> bool
    decreases entries, n,
{
    if n == 0 || n > entries.len() {
        false
    } else {
        stands_among(entries, (n - 1) as nat, sought) || match entries[n - 1] {
            Entry::Directory(dir) => stands_under(dir, sought),
            Entry::File(_) => false,
        }
    }
}

/// Where no directory is among `entries`, each of them is a file.
proof fn lemma_files_only(entries: Seq<Entry>)
    requires
        subdirectories(entries).len() == 0,
    ensures
        forall|i: int| 0 <= i < entries.len() ==> #[trigger] entries[i] is File,
    decreases entries.len(),
{
    if entries.len() > 0 {
        lemma_files_only(entries.drop_last());
        assert forall|i: int| 0 <= i < entries.len() implies #[trigger] entries[i] is File by {
            if i < entries.len() - 1 {
                assert(entries.drop_last()[i] is File);
            }
        }
    }
}

/// Where each of `entries` is a file, no directory stands among them.
proof fn lemma_nothing_among_files(entries: Seq<Entry>, n: nat, sought: Directory)
    requires
        forall|i: int| 0 <= i < entries.len() ==> #[trigger] entries[i] is File,
    ensures
        !stands_among(entries, n, sought),
    decreases n,
{
    if 0 < n <= entries.len() {
        lemma_nothing_among_files(entries, (n - 1) as nat, sought);
        assert(entries[n - 1] is File);
    }
}

/// A walk that starts at `dir` finds the leaf directories at and below it, all of them
/// and nothing else.
pub proof fn lemma_walk_under_is_exhaustive(dir: Directory, sought: Directory)
    requires
        leaves_under(dir) is Some,
    ensures
        leaves_under(dir)->Some_0.contains(sought) <==> stands_under(dir, sought) && is_leaf(
            sought,
        ),
    decreases dir, 0nat,
{
    let entries = dir.listing->Some_0;
    let leaves = leaves_under(dir)->Some_0;
    if subdirectories(entries@).len() == 0 {
        lemma_files_only(entries@);
        lemma_nothing_among_files(entries@, entries@.len(), sought);
        assert(leaves[0] == dir);
    } else {
        lemma_walk_among_is_exhaustive(entries@, entries@.len(), sought);
    }
}

/// A walk over the first `n` of `entries` finds the leaf directories at and below the
/// directories among them, all of them and nothing else.
pub proof fn lemma_walk_among_is_exhaustive(entries: Seq<Entry>, n: nat, sought: Directory)
    requires
        leaves_among(entries, n) is Some,
    ensures
        leaves_among(entries, n)->Some_0.contains(sought) <==> stands_among(entries, n, sought)
            && is_leaf(sought),
    decreases entries, n,
{
    if 0 < n <= entries.len() {
        let below = match entries[n - 1] {
            Entry::Directory(dir) => leaves_under(dir),
            Entry::File(_) => Some(Seq::empty()),
        };
        let first = below->Some_0;
        let rest = leaves_among(entries, (n - 1) as nat)->Some_0;
        lemma_walk_among_is_exhaustive(entries, (n - 1) as nat, sought);
        match entries[n - 1] {
            Entry::Directory(dir) => {
                lemma_walk_under_is_exhaustive(dir, sought);
            },
            Entry::File(_) => {},
        }
        assert((first + rest).contains(sought) <==> first.contains(sought) || rest.contains(
            sought,
        )) by {
            if first.contains(sought) {
                let i = choose|i: int| 0 <= i < first.len() && first[i] == sought;
                assert((first + rest)[i] == sought);
            }
            if rest.contains(sought) {
                let i = choose|i: int| 0 <= i < rest.len() && rest[i] == sought;
                assert((first + rest)[first.len() + i] == sought);
            }
            if (first + rest).contains(sought) {
                let i = choose|i: int| 0 <= i < (first + rest).len() && (first + rest)[i] == sought;
                if i < first.len() {
                    assert(first[i] == sought);
                } else {
                    assert(rest[i - first.len()] == sought);
                }
            }
        }
    }
}

/// Loading a whole tree reaches every leaf directory below the root, and no other
/// directory.
pub proof fn lemma_leaf_directories_is_exhaustive(root: Option<Vec<Entry>>, sought: Directory)
    requires
        leaf_directories(root) is Some,
    ensures
        leaf_directories(root)->Some_0.contains(sought) <==> stands_among(
            root->Some_0@,
            root->Some_0@.len(),
            sought,
        ) && is_leaf(sought),
{
    lemma_walk_among_is_exhaustive(root->Some_0@, root->Some_0@.len(), sought);
}

} // verus!
