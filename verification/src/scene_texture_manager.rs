use std::rc::Rc;
use vstd::prelude::*;
use vstd::hash_map::StringHashMap;
use crate::error::TextureError;
use crate::frame::Frame;
use crate::listing::{
    all_decoded, file_count, frames_of, join, leaf_directories, leaves_among, leaves_under,
    subdirectories, Directory, Entry,
};

verus! {

/// The frame sets of every loaded directory, keyed by the directory's path. A frame set is
/// built once and then shared, unchanged, with every sprite that resolves against its path.
pub struct SceneTextureManager {
    textures: StringHashMap<Rc<Vec<Frame>>>,
}

/// No frame set of `cache` is empty.
pub open spec fn frame_sets_nonempty(cache: Map<Seq<char>, Seq<Frame>>) -> bool {
    forall|path: Seq<char>| #[trigger] cache.contains_key(path) ==> cache[path].len() >= 1
}

/// What loading a directory with this listing gives: its frames, or why there are none.
/// A file that did not decode counts before the want of any file.
pub open spec fn load_outcome(listing: Option<Vec<Entry>>) -> Result<Seq<Frame>, TextureError> {
    match listing {
        None => Err(TextureError::IOError),
        Some(entries) => if !all_decoded(entries@) {
            Err(TextureError::IOError)
        } else if frames_of(entries@).len() == 0 {
            Err(TextureError::ConfigError)
        } else {
            Ok(frames_of(entries@))
        },
    }
}

/// Whether loading a directory with this listing succeeds, and if not, why.
pub open spec fn load_verdict(listing: Option<Vec<Entry>>) -> Result<(), TextureError> {
    match load_outcome(listing) {
        Ok(_) => Ok(()),
        Err(error) => Err(error),
    }
}

/// The cache after loading `path` with this listing: the new frame set takes the place
/// of whatever `path` held; a failed load stores nothing.
pub open spec fn after_load(
    cache: Map<Seq<char>, Seq<Frame>>,
    path: Seq<char>,
    listing: Option<Vec<Entry>>,
) -> Map<Seq<char>, Seq<Frame>> {
    match load_outcome(listing) {
        Ok(frames) => cache.insert(path, frames),
        Err(_) => cache,
    }
}

/// The cache and the verdict after loading the first `n` of `list` in turn. The first
/// failure ends the batch: what was stored before it stays, nothing after it is tried.
pub open spec fn after_batch(cache: Map<Seq<char>, Seq<Frame>>, list: Seq<Directory>, n: nat) -> (
    Map<Seq<char>, Seq<Frame>>,
    Result<(), TextureError>,
)
    decreases n,
{
    if n == 0 || n > list.len() {
        (cache, Ok(()))
    } else {
        let (before, verdict) = after_batch(cache, list, (n - 1) as nat);
        match verdict {
            Err(_) => (before, verdict),
            Ok(_) => (
                after_load(before, list[n - 1].path@, list[n - 1].listing),
                load_verdict(list[n - 1].listing),
            ),
        }
    }
}

/// The cache and the verdict after loading every leaf directory of the tree whose root
/// gave `root` as its listing. A directory that could not be listed fails the walk
/// before anything is loaded.
pub open spec fn after_tree(cache: Map<Seq<char>, Seq<Frame>>, root: Option<Vec<Entry>>) -> (
    Map<Seq<char>, Seq<Frame>>,
    Result<(), TextureError>,
) {
    match leaf_directories(root) {
        None => (cache, Err(TextureError::IOError)),
        Some(leaves) => after_batch(cache, leaves, leaves.len()),
    }
}

/// The directories that a sequence of borrows points at.
spec fn pointees(borrowed: Seq<&Directory>) -> Seq<Directory> {
    borrowed.map_values(|dir: &Directory| *dir)
}

/// The leaf directories that a work stack still has to give, the top of the stack first.
spec fn leaves_pending(stack: Seq<Directory>) -> Option<Seq<Directory>>
    decreases stack.len(),
{
    if stack.len() == 0 {
        Some(Seq::empty())
    } else {
        join(leaves_under(stack.last()), leaves_pending(stack.drop_last()))
    }
}

/// How many directories stand at and below `dir`.
spec fn directory_count(dir: Directory) -> nat
    decreases dir, 0nat,
{
    match dir.listing {
        None => 1,
        Some(entries) => 1 + directory_count_among(entries@, entries@.len()),
    }
}

/// How many directories stand at and below the first `n` of `entries`.
spec fn directory_count_among(entries: Seq<Entry>, n: nat) -> nat
    decreases entries, n,
{
    if n == 0 || n > entries.len() {
        0
    } else {
        let below = match entries[n - 1] {
            Entry::Directory(dir) => directory_count(dir),
            Entry::File(_) => 0,
        };
        below + directory_count_among(entries, (n - 1) as nat)
    }
}

/// How many directories a work stack still has to visit.
spec fn directories_pending(stack: Seq<Directory>) -> nat
    decreases stack.len(),
{
    if stack.len() == 0 {
        0
    } else {
        directory_count(stack.last()) + directories_pending(stack.drop_last())
    }
}

/// Another handle on the same frame set.
///
/// Wraps `Rc::clone`: the new handle points at the allocation of the old one, so both
/// give the same frames.
#[verifier::external_body]
pub(crate) fn share(frames: &Rc<Vec<Frame>>) -> (shared: Rc<Vec<Frame>>)
    ensures
        shared == *frames,
{
    Rc::clone(frames)
}

/// A batch that has failed stays as it is, however many more directories follow.
proof fn lemma_failed_batch_stays(
    cache: Map<Seq<char>, Seq<Frame>>,
    list: Seq<Directory>,
    m: nat,
    n: nat,
)
    requires
        m <= n <= list.len(),
        after_batch(cache, list, m).1 is Err,
    ensures
        after_batch(cache, list, n) == after_batch(cache, list, m),
    decreases n - m,
{
    if m < n {
        lemma_failed_batch_stays(cache, list, m, (n - 1) as nat);
    }
}

/// Pushing the directories among the first `n` of `entries` on a work stack puts their
/// leaves before what the stack had to give.
proof fn lemma_pushed_leaves(stack: Seq<Directory>, entries: Seq<Entry>, n: nat)
    requires
        n <= entries.len(),
    ensures
        leaves_pending(stack + subdirectories(entries.take(n as int))) == join(
            leaves_among(entries, n),
            leaves_pending(stack),
        ),
    decreases n,
{
    let pushed = subdirectories(entries.take(n as int));
    if n == 0 {
        assert(stack + pushed == stack);
        assert(leaves_pending(stack) matches Some(rest) ==> Seq::<Directory>::empty() + rest
            == rest);
    } else {
        let fewer = subdirectories(entries.take(n - 1));
        assert(entries.take(n as int).drop_last() == entries.take(n - 1));
        lemma_pushed_leaves(stack, entries, (n - 1) as nat);
        match entries[n - 1] {
            Entry::Directory(dir) => {
                assert(pushed == fewer.push(dir));
                assert((stack + pushed).drop_last() == stack + fewer);
                assert((stack + pushed).last() == dir);
                let a = leaves_under(dir);
                let b = leaves_among(entries, (n - 1) as nat);
                let c = leaves_pending(stack);
                assert(join(a, join(b, c)) == join(join(a, b), c)) by {
                    if a is Some && b is Some && c is Some {
                        assert(a.unwrap() + (b.unwrap() + c.unwrap()) == (a.unwrap()
                            + b.unwrap()) + c.unwrap());
                    }
                }
            },
            Entry::File(_) => {
                assert(pushed == fewer);
                let b = leaves_among(entries, (n - 1) as nat);
                assert(join(Some(Seq::empty()), b) == b) by {
                    if b is Some {
                        assert(Seq::<Directory>::empty() + b.unwrap() == b.unwrap());
                    }
                }
            },
        }
    }
}

/// Pushing the directories among the first `n` of `entries` on a work stack adds what
/// stands at and below them to what the stack has to visit.
proof fn lemma_pushed_count(stack: Seq<Directory>, entries: Seq<Entry>, n: nat)
    requires
        n <= entries.len(),
    ensures
        directories_pending(stack + subdirectories(entries.take(n as int)))
            == directory_count_among(entries, n) + directories_pending(stack),
    decreases n,
{
    let pushed = subdirectories(entries.take(n as int));
    if n == 0 {
        assert(stack + pushed == stack);
    } else {
        let fewer = subdirectories(entries.take(n - 1));
        assert(entries.take(n as int).drop_last() == entries.take(n - 1));
        lemma_pushed_count(stack, entries, (n - 1) as nat);
        match entries[n - 1] {
            Entry::Directory(dir) => {
                assert(pushed == fewer.push(dir));
                assert((stack + pushed).drop_last() == stack + fewer);
                assert((stack + pushed).last() == dir);
            },
            Entry::File(_) => {
                assert(pushed == fewer);
            },
        }
    }
}

/// A borrow pushed is its directory pushed.
proof fn lemma_pointees_push(borrowed: Seq<&Directory>, dir: &Directory)
    ensures
        pointees(borrowed.push(dir)) == pointees(borrowed).push(*dir),
{
    assert(pointees(borrowed.push(dir)) =~= pointees(borrowed).push(*dir));
}

/// Puts the directories among `entries` on the work stack, in listing order.
fn push_subdirectories<'a>(stack: &mut Vec<&'a Directory>, entries: &'a Vec<Entry>)
    ensures
        pointees(final(stack)@) == pointees(old(stack)@) + subdirectories(entries@),
{
    let mut i: usize = 0;
    while i < entries.len()
        invariant
            i <= entries.len(),
            pointees(stack@) == pointees(old(stack)@) + subdirectories(
                entries@.take(i as int),
            ),
        decreases entries.len() - i,
    {
        proof {
            assert(entries@.take(i + 1).drop_last() == entries@.take(i as int));
        }
        let ghost below = stack@;
        let ghost pushed = subdirectories(entries@.take(i as int));
        match &entries[i] {
            Entry::Directory(dir) => {
                stack.push(dir);
                proof {
                    lemma_pointees_push(below, dir);
                    assert(entries@.take(i + 1).last() == Entry::Directory(*dir));
                    assert((pointees(old(stack)@) + pushed).push(*dir) == pointees(old(stack)@)
                        + pushed.push(*dir));
                }
            },
            Entry::File(_) => {},
        }
        i += 1;
    }
    proof {
        assert(entries@.take(i as int) == entries@);
    }
}

impl View for SceneTextureManager {
    type V = Map<Seq<char>, Seq<Frame>>;

    closed spec fn view(&self) -> Map<Seq<char>, Seq<Frame>> {
        self.textures@.map_values(|set: Rc<Vec<Frame>>| set@)
    }
}

impl SceneTextureManager {
    /// No stored frame set is empty.
    pub open spec fn wf(&self) -> bool {
        frame_sets_nonempty(self@)
    }

    /// A cache that holds nothing.
    pub fn new() -> (cache: Self)
        ensures
            cache.wf(),
            cache@ == Map::<Seq<char>, Seq<Frame>>::empty(),
    {
        Self { textures: StringHashMap::new() }
    }

    /// Whether a frame set is stored for `texture_root_path`.
    pub fn contains(&self, texture_root_path: &str) -> (stored: bool)
        ensures
            stored == self@.contains_key(texture_root_path@),
    {
        self.textures.contains_key(texture_root_path)
    }

    /// A shared handle on the frame set stored for `texture_root_path`.
    pub fn get(&self, texture_root_path: &str) -> (found: Result<Rc<Vec<Frame>>, TextureError>)
        requires
            self.wf(),
        ensures
            match found {
                Ok(set) => {
                    &&& self@.contains_key(texture_root_path@)
                    &&& set@ == self@[texture_root_path@]
                    &&& set@.len() >= 1
                },
                Err(error) => {
                    &&& !self@.contains_key(texture_root_path@)
                    &&& error == TextureError::NotFoundError
                },
            },
    {
        match self.textures.get(texture_root_path) {
            Some(set) => Ok(share(set)),
            None => Err(TextureError::NotFoundError),
        }
    }

    /// Lets go of every frame set. Handles given out before stay good.
    pub fn unload(&mut self)
        ensures
            final(self).wf(),
            final(self)@ == Map::<Seq<char>, Seq<Frame>>::empty(),
    {
        self.textures.clear();
    }

    /// Builds the frame set of one directory from its listing and stores it under
    /// `texture_root_path`, in place of what was stored there.
    pub fn load_textures_by_directory(
        &mut self,
        texture_root_path: String,
        listing: &Option<Vec<Entry>>,
    ) -> (result: Result<(), TextureError>)
        requires
            old(self).wf(),
        ensures
            final(self).wf(),
            result == load_verdict(*listing),
            final(self)@ == after_load(old(self)@, texture_root_path@, *listing),
    {
        let entries = match listing {
            None => {
                return Err(TextureError::IOError);
            },
            Some(entries) => entries,
        };
        let mut files_contained: Vec<Frame> = Vec::new();
        let mut i: usize = 0;
        while i < entries.len()
            invariant
                i <= entries.len(),
                *listing == Some(*entries),
                self.wf(),
                self@ == old(self)@,
                all_decoded(entries@.take(i as int)),
                files_contained@ == frames_of(entries@.take(i as int)),
            decreases entries.len() - i,
        {
            proof {
                assert(entries@.take(i + 1).drop_last() == entries@.take(i as int));
            }
            match &entries[i] {
                Entry::File(Some(frame)) => {
                    files_contained.push(*frame);
                },
                Entry::File(None) => {
                    assert(entries@[i as int] == Entry::File(None));
                    return Err(TextureError::IOError);
                },
                Entry::Directory(_) => {},
            }
            i += 1;
        }
        proof {
            assert(entries@.take(i as int) == entries@);
        }
        if files_contained.len() == 0 {
            return Err(TextureError::ConfigError);
        }
        let ghost key = texture_root_path@;
        let ghost frames = files_contained@;
        self.textures.insert(texture_root_path, Rc::new(files_contained));
        proof {
            assert(self@ == old(self)@.insert(key, frames));
            assert forall|path: Seq<char>| #[trigger]
                self@.contains_key(path) implies self@[path].len() >= 1 by {
                if path != key {
                    assert(old(self)@.contains_key(path));
                }
            }
        }
        Ok(())
    }

    /// Loads the directories of `list` in turn, up to the first that fails.
    fn load_each(&mut self, list: &Vec<&Directory>) -> (result: Result<(), TextureError>)
        requires
            old(self).wf(),
        ensures
            final(self).wf(),
            (final(self)@, result) == after_batch(old(self)@, pointees(list@), list@.len()),
    {
        let mut i: usize = 0;
        while i < list.len()
            invariant
                i <= list.len(),
                self.wf(),
                (self@, Ok::<(), TextureError>(())) == after_batch(
                    old(self)@,
                    pointees(list@),
                    i as nat,
                ),
            decreases list.len() - i,
        {
            let dir = list[i];
            match self.load_textures_by_directory(dir.path.clone(), &dir.listing) {
                Err(error) => {
                    proof {
                        lemma_failed_batch_stays(
                            old(self)@,
                            pointees(list@),
                            (i + 1) as nat,
                            list@.len(),
                        );
                    }
                    return Err(error);
                },
                Ok(()) => {},
            }
            i += 1;
        }
        Ok(())
    }

    /// Loads every directory of `list` in turn. The first failure ends the batch.
    pub fn load_textures_by_directory_list(&mut self, list: &Vec<Directory>) -> (result: Result<
        (),
        TextureError,
    >)
        requires
            old(self).wf(),
        ensures
            final(self).wf(),
            (final(self)@, result) == after_batch(old(self)@, list@, list@.len()),
    {
        let mut borrowed: Vec<&Directory> = Vec::new();
        let mut i: usize = 0;
        while i < list.len()
            invariant
                i <= list.len(),
                pointees(borrowed@) == list@.take(i as int),
            decreases list.len() - i,
        {
            proof {
                lemma_pointees_push(borrowed@, &list[i as int]);
                assert(list@.take(i + 1) == list@.take(i as int).push(list[i as int]));
            }
            borrowed.push(&list[i]);
            i += 1;
        }
        proof {
            assert(list@.take(i as int) == list@);
        }
        self.load_each(&borrowed)
    }

    /// Loads every leaf directory of the tree whose root gave `root` as its listing. The
    /// tree is walked with a work stack; nothing is loaded unless the whole walk succeeds.
    pub fn load_all_textures(&mut self, root: &Option<Vec<Entry>>) -> (result: Result<
        (),
        TextureError,
    >)
        requires
            old(self).wf(),
        ensures
            final(self).wf(),
            (final(self)@, result) == after_tree(old(self)@, *root),
    {
        let root_entries = match root {
            None => {
                return Err(TextureError::IOError);
            },
            Some(entries) => entries,
        };
        let mut directories: Vec<&Directory> = Vec::new();
        let mut leaves: Vec<&Directory> = Vec::new();
        push_subdirectories(&mut directories, root_entries);
        proof {
            lemma_pushed_leaves(Seq::empty(), root_entries@, root_entries@.len());
            assert(root_entries@.take(root_entries@.len() as int) == root_entries@);
            assert(Seq::<Directory>::empty() + subdirectories(root_entries@) == pointees(
                directories@,
            ));
            assert(pointees(leaves@) == Seq::<Directory>::empty());
            let found = leaves_among(root_entries@, root_entries@.len());
            assert(found matches Some(all) ==> Seq::<Directory>::empty() + (all + Seq::<
                Directory,
            >::empty()) == all);
        }
        while directories.len() > 0
            invariant
                self.wf(),
                self@ == old(self)@,
                join(Some(pointees(leaves@)), leaves_pending(pointees(directories@)))
                    == leaf_directories(*root),
            decreases directories_pending(pointees(directories@)),
        {
            let ghost stack = pointees(directories@);
            let ghost found = pointees(leaves@);
            let dir = directories.pop().unwrap();
            let ghost rest = pointees(directories@);
            proof {
                assert(stack.last() == *dir);
                assert(stack.drop_last() == rest);
            }
            let entries = match &dir.listing {
                None => {
                    return Err(TextureError::IOError);
                },
                Some(entries) => entries,
            };
            let before = directories.len();
            push_subdirectories(&mut directories, entries);
            proof {
                assert(entries@.take(entries@.len() as int) == entries@);
                lemma_pushed_leaves(rest, entries@, entries@.len());
                lemma_pushed_count(rest, entries@, entries@.len());
            }
            if directories.len() == before {
                leaves.push(dir);
                proof {
                    assert(subdirectories(entries@).len() == 0);
                    assert(pointees(directories@) == rest);
                    assert(pointees(leaves@) == found.push(*dir));
                    let later = leaves_pending(rest);
                    assert(later matches Some(more) ==> found.push(*dir) + more == found + (
                        seq![*dir] + more));
                }
            } else {
                proof {
                    assert(subdirectories(entries@).len() != 0);
                }
            }
        }
        proof {
            assert(pointees(leaves@) + Seq::<Directory>::empty() == pointees(leaves@));
        }
        self.load_each(&leaves)
    }
}

/// Where every file decoded, there are as many frames as files.
pub proof fn lemma_frame_per_file(entries: Seq<Entry>)
    requires
        all_decoded(entries),
    ensures
        frames_of(entries).len() == file_count(entries),
    decreases entries.len(),
{
    if entries.len() > 0 {
        let fewer = entries.drop_last();
        assert forall|i: int| 0 <= i < fewer.len() implies #[trigger] fewer[i] != Entry::File(
            None,
        ) by {
            assert(entries[i] != Entry::File(None));
        }
        lemma_frame_per_file(entries.drop_last());
        assert(entries.last() == entries[entries.len() - 1]);
    }
}

/// A load that succeeds stores a frame set that is not empty, and keeps every other
/// stored set as it was: a cache without an empty frame set stays one.
pub proof fn lemma_loaded_set_nonempty(
    cache: Map<Seq<char>, Seq<Frame>>,
    path: Seq<char>,
    listing: Option<Vec<Entry>>,
)
    requires
        frame_sets_nonempty(cache),
    ensures
        frame_sets_nonempty(after_load(cache, path, listing)),
        load_verdict(listing) is Ok ==> after_load(cache, path, listing).contains_key(path)
            && after_load(cache, path, listing)[path].len() >= 1,
{
    let stored = after_load(cache, path, listing);
    assert forall|other: Seq<char>| #[trigger]
        stored.contains_key(other) implies stored[other].len() >= 1 by {
        if other != path {
            assert(cache.contains_key(other));
        }
    }
}

/// A directory that lists no regular file fails with `ConfigError`, and nothing is stored.
pub proof fn lemma_no_file_is_config_error(
    cache: Map<Seq<char>, Seq<Frame>>,
    path: Seq<char>,
    entries: Vec<Entry>,
)
    requires
        file_count(entries@) == 0,
    ensures
        load_verdict(Some(entries)) == Err::<(), _>(TextureError::ConfigError),
        after_load(cache, path, Some(entries)) == cache,
{
    lemma_no_file_all_decoded(entries@);
    lemma_frame_per_file(entries@);
}

/// Where there is no regular file, none failed to decode.
proof fn lemma_no_file_all_decoded(entries: Seq<Entry>)
    requires
        file_count(entries) == 0,
    ensures
        all_decoded(entries),
    decreases entries.len(),
{
    if entries.len() > 0 {
        lemma_no_file_all_decoded(entries.drop_last());
        assert forall|i: int| 0 <= i < entries.len() implies #[trigger] entries[i] != Entry::File(
            None,
        ) by {
            if i < entries.len() - 1 {
                assert(entries.drop_last()[i] != Entry::File(None));
            }
        }
    }
}

/// After a load of `path` that succeeds, a lookup of `path` finds a frame set with one
/// frame for each regular file that the directory listed.
pub proof fn lemma_lookup_after_load(
    cache: Map<Seq<char>, Seq<Frame>>,
    path: Seq<char>,
    entries: Vec<Entry>,
)
    requires
        load_verdict(Some(entries)) is Ok,
    ensures
        after_load(cache, path, Some(entries)).contains_key(path),
        after_load(cache, path, Some(entries))[path] == frames_of(entries@),
        after_load(cache, path, Some(entries))[path].len() == file_count(entries@),
{
    lemma_frame_per_file(entries@);
}

/// Two loads of one path leave one entry for it, and it holds what the second load
/// built: the second load replaces, it does not merge.
pub proof fn lemma_second_load_replaces(
    cache: Map<Seq<char>, Seq<Frame>>,
    path: Seq<char>,
    first: Option<Vec<Entry>>,
    second: Option<Vec<Entry>>,
)
    requires
        load_verdict(second) is Ok,
    ensures
        after_load(after_load(cache, path, first), path, second) == after_load(
            cache,
            path,
            second,
        ),
        after_load(after_load(cache, path, first), path, second).dom() == cache.dom().insert(
            path,
        ),
        after_load(after_load(cache, path, first), path, second)[path] == frames_of(
            second->Some_0@,
        ),
{
    let once = after_load(cache, path, first);
    let twice = after_load(once, path, second);
    assert(twice =~= after_load(cache, path, second));
    assert(twice.dom() =~= cache.dom().insert(path));
}

} // verus!
