//! A model of the on-disk file tree that the cache works against.
//!
//! The store maps file paths to file contents and is the library's view of
//! the disk: cache population writes into it, loading reads from it, and
//! clearing removes everything under the cache directory. A front end that
//! keeps the cache on a real disk mirrors this store onto the filesystem;
//! the cache logic itself is verified against the map view defined here.

use vstd::prelude::*;

use crate::textutil::{str_eq, str_starts_with};

verus! {

/// The contents of one file: a text document or raw bytes.
#[derive(Debug, Clone)]
pub enum FileData {
    Text(String),
    Bytes(Vec<u8>),
}

/// The mathematical view of one file's contents.
pub enum FileDataView {
    Text(Seq<char>),
    Bytes(Seq<u8>),
}

impl View for FileData {
    type V = FileDataView;

    open spec fn view(&self) -> FileDataView {
        match self {
            FileData::Text(s) => FileDataView::Text(s@),
            FileData::Bytes(b) => FileDataView::Bytes(b@),
        }
    }
}

/// Whether the path `s` begins with `prefix`.
pub open spec fn seq_starts_with(s: Seq<char>, prefix: Seq<char>) -> bool {
    s.len() >= prefix.len() && s.subrange(0, prefix.len() as int) == prefix
}

/// The path of entry `i`.
spec fn key_at(s: Seq<(String, FileData)>, i: int) -> Seq<char> {
    s[i].0@
}

/// The contents of entry `i`.
spec fn val_at(s: Seq<(String, FileData)>, i: int) -> FileDataView {
    s[i].1@
}

spec fn keys_distinct(s: Seq<(String, FileData)>) -> bool {
    forall|a: int, b: int| 0 <= a < b < s.len() ==> key_at(s, a) != key_at(s, b)
}

spec fn entries_map(s: Seq<(String, FileData)>) -> Map<Seq<char>, FileDataView>
    decreases s.len(),
{
    if s.len() == 0 {
        Map::empty()
    } else {
        entries_map(s.drop_last()).insert(key_at(s, s.len() - 1), val_at(s, s.len() - 1))
    }
}

proof fn lemma_entries_map_props(s: Seq<(String, FileData)>)
    requires
        keys_distinct(s),
    ensures
        forall|k: Seq<char>|
            #[trigger] entries_map(s).contains_key(k) <==> exists|i: int|
                0 <= i < s.len() && key_at(s, i) == k,
        forall|i: int|
            0 <= i < s.len() ==> entries_map(s).contains_key(#[trigger] key_at(s, i))
                && entries_map(s)[key_at(s, i)] == val_at(s, i),
    decreases s.len(),
{
    if s.len() > 0 {
        let pre = s.drop_last();
        assert(forall|i: int| 0 <= i < pre.len() ==> key_at(pre, i) == key_at(s, i));
        assert(forall|i: int| 0 <= i < pre.len() ==> val_at(pre, i) == val_at(s, i));
        lemma_entries_map_props(pre);
        assert forall|k: Seq<char>| #[trigger]
            entries_map(s).contains_key(k) implies exists|i: int|
            0 <= i < s.len() && key_at(s, i) == k by {
            if k == key_at(s, s.len() - 1) {
                assert(key_at(s, s.len() - 1) == k);
            } else {
                let i = choose|i: int| 0 <= i < pre.len() && key_at(pre, i) == k;
                assert(key_at(s, i) == k);
            }
        }
        assert forall|k: Seq<char>|
            (exists|i: int| 0 <= i < s.len() && key_at(s, i) == k) implies #[trigger] entries_map(
            s,
        ).contains_key(k) by {
            let i = choose|i: int| 0 <= i < s.len() && key_at(s, i) == k;
            if i < s.len() - 1 {
                assert(key_at(pre, i) == k);
                assert(entries_map(pre).contains_key(k));
            }
        }
        assert forall|i: int| 0 <= i < s.len() implies entries_map(s).contains_key(
            #[trigger] key_at(s, i),
        ) && entries_map(s)[key_at(s, i)] == val_at(s, i) by {
            if i < s.len() - 1 {
                assert(key_at(pre, i) == key_at(s, i));
                assert(key_at(s, i) != key_at(s, s.len() - 1));
            }
        }
    }
}

/// Appending an entry whose key is absent from the map keeps the keys
/// distinct.
proof fn lemma_push_keeps_distinct(
    pre: Seq<(String, FileData)>,
    all: Seq<(String, FileData)>,
    newkey: Seq<char>,
)
    requires
        keys_distinct(pre),
        all.len() == pre.len() + 1,
        all.drop_last() == pre,
        key_at(all, all.len() - 1) == newkey,
        !entries_map(pre).contains_key(newkey),
    ensures
        keys_distinct(all),
{
    lemma_entries_map_props(pre);
    assert(forall|j: int| 0 <= j < pre.len() ==> key_at(all, j) == key_at(pre, j));
    assert forall|a: int, b: int| 0 <= a < b < all.len() implies key_at(all, a) != key_at(
        all,
        b,
    ) by {
        if b == all.len() - 1 {
            assert(key_at(all, a) == key_at(pre, a));
            if key_at(pre, a) == newkey {
                assert(entries_map(pre).contains_key(key_at(pre, a)));
                assert(false);
            }
        } else {
            assert(key_at(all, a) == key_at(pre, a));
            assert(key_at(all, b) == key_at(pre, b));
            assert(key_at(pre, a) != key_at(pre, b));
        }
    }
}

/// The modeled file tree: a map from file paths to file contents.
#[derive(Debug)]
pub struct FileStore {
    entries: Vec<(String, FileData)>,
}

impl View for FileStore {
    type V = Map<Seq<char>, FileDataView>;

    closed spec fn view(&self) -> Map<Seq<char>, FileDataView> {
        entries_map(self.entries@)
    }
}

impl FileStore {
    #[verifier::type_invariant]
    closed spec fn inv(&self) -> bool {
        keys_distinct(self.entries@)
    }

    /// An empty file tree.
    pub fn new() -> (r: FileStore)
        ensures
            r@ == Map::<Seq<char>, FileDataView>::empty(),
    {
        FileStore { entries: Vec::new() }
    }

    /// Whether a file exists at `path`.
    pub fn contains(&self, path: &str) -> (r: bool)
        ensures
            r == self@.contains_key(path@),
    {
        proof {
            use_type_invariant(self);
            lemma_entries_map_props(self.entries@);
        }
        let mut i: usize = 0;
        while i < self.entries.len()
            invariant
                i <= self.entries@.len(),
                forall|j: int| 0 <= j < i ==> key_at(self.entries@, j) != path@,
            decreases self.entries@.len() - i,
        {
            if str_eq(self.entries[i].0.as_str(), path) {
                proof {
                    use_type_invariant(self);
                    lemma_entries_map_props(self.entries@);
                    assert(key_at(self.entries@, i as int) == path@);
                }
                return true;
            }
            i += 1;
        }
        proof {
            use_type_invariant(self);
            lemma_entries_map_props(self.entries@);
        }
        false
    }

    /// The contents of the file at `path`, if it exists.
    pub fn read(&self, path: &str) -> (r: Option<&FileData>)
        ensures
            match r {
                Some(d) => self@.contains_key(path@) && d@ == self@[path@],
                None => !self@.contains_key(path@),
            },
    {
        proof {
            use_type_invariant(self);
            lemma_entries_map_props(self.entries@);
        }
        let mut i: usize = 0;
        while i < self.entries.len()
            invariant
                i <= self.entries@.len(),
                forall|j: int| 0 <= j < i ==> key_at(self.entries@, j) != path@,
            decreases self.entries@.len() - i,
        {
            if str_eq(self.entries[i].0.as_str(), path) {
                proof {
                    use_type_invariant(self);
                    lemma_entries_map_props(self.entries@);
                    assert(key_at(self.entries@, i as int) == path@);
                }
                return Some(&self.entries[i].1);
            }
            i += 1;
        }
        proof {
            use_type_invariant(self);
            lemma_entries_map_props(self.entries@);
        }
        None
    }

    /// Rebuilds the entry list without the entry at `path`, if any.
    fn build_without(&self, path: &str) -> (r: Vec<(String, FileData)>)
        ensures
            keys_distinct(r@),
            entries_map(r@) == self@.remove(path@),
    {
        proof {
            use_type_invariant(self);
        }
        let ghost s0 = self.entries@;
        let mut kept: Vec<(String, FileData)> = Vec::new();
        let mut i: usize = 0;
        proof {
            assert(s0.subrange(0, 0) =~= Seq::<(String, FileData)>::empty());
            assert(entries_map(kept@) =~= entries_map(s0.subrange(0, 0)).remove(path@));
        }
        while i < self.entries.len()
            invariant
                self.entries@ == s0,
                keys_distinct(s0),
                i <= s0.len(),
                keys_distinct(kept@),
                entries_map(kept@) == entries_map(s0.subrange(0, i as int)).remove(path@),
            decreases s0.len() - i,
        {
            let ghost pre = s0.subrange(0, i as int);
            let ghost m_pre = entries_map(pre);
            proof {
                assert(forall|j: int| 0 <= j < i ==> key_at(pre, j) == key_at(s0, j));
                assert(keys_distinct(pre));
                lemma_entries_map_props(pre);
                lemma_entries_map_props(kept@);
                assert(s0.subrange(0, i + 1 as int).drop_last() =~= pre);
                assert(key_at(s0.subrange(0, i + 1 as int), i as int) == key_at(s0, i as int));
                // the scanned key is new: it cannot already be in the prefix
                assert(!m_pre.contains_key(key_at(s0, i as int))) by {
                    if m_pre.contains_key(key_at(s0, i as int)) {
                        let j = choose|j: int|
                            0 <= j < pre.len() && key_at(pre, j) == key_at(s0, i as int);
                        assert(key_at(s0, j) == key_at(s0, i as int));
                    }
                }
            }
            let matches_target = str_eq(self.entries[i].0.as_str(), path);
            if !matches_target {
                let entry = clone_entry(&self.entries[i]);
                proof {
                    assert(!entries_map(kept@).contains_key(key_at(s0, i as int))) by {
                        if entries_map(kept@).contains_key(key_at(s0, i as int)) {
                            assert(m_pre.remove(path@).contains_key(key_at(s0, i as int)));
                        }
                    }
                }
                let ghost kept_pre = kept@;
                kept.push(entry);
                proof {
                    assert(kept@.drop_last() =~= kept_pre);
                    assert(key_at(kept@, kept@.len() - 1) == key_at(s0, i as int));
                    lemma_push_keeps_distinct(kept_pre, kept@, key_at(s0, i as int));
                    assert(keys_distinct(kept@));
                    assert(entries_map(kept@) =~= entries_map(
                        s0.subrange(0, i + 1 as int),
                    ).remove(path@));
                }
            } else {
                proof {
                    assert(key_at(s0, i as int) == path@);
                    assert(entries_map(kept@) =~= entries_map(
                        s0.subrange(0, i + 1 as int),
                    ).remove(path@));
                }
            }
            i += 1;
        }
        proof {
            assert(s0.subrange(0, s0.len() as int) =~= s0);
        }
        kept
    }

    /// Removes the file at `path`, if any. Removing an absent file is a
    /// no-op.
    pub fn remove(&mut self, path: &str)
        ensures
            final(self)@ == old(self)@.remove(path@),
    {
        let kept = self.build_without(path);
        self.entries = kept;
    }

    /// Writes `data` to `path`, creating or overwriting the file.
    pub fn write(&mut self, path: String, data: FileData)
        ensures
            final(self)@ == old(self)@.insert(path@, data@),
    {
        let mut kept = self.build_without(path.as_str());
        proof {
            lemma_entries_map_props(kept@);
            assert(!entries_map(kept@).contains_key(path@));
        }
        let ghost pre = kept@;
        kept.push((path, data));
        proof {
            assert(kept@.drop_last() =~= pre);
            assert(key_at(kept@, kept@.len() - 1) == path@);
            lemma_push_keeps_distinct(pre, kept@, path@);
            assert(keys_distinct(kept@));
            assert(entries_map(kept@) =~= old(self)@.insert(
                key_at(kept@, kept@.len() - 1),
                val_at(kept@, kept@.len() - 1),
            ));
        }
        self.entries = kept;
    }

    /// Removes every file whose path begins with `prefix`, modeling the
    /// recursive removal of a directory. Idempotent when nothing matches.
    pub fn remove_matching_prefix(&mut self, prefix: &str)
        ensures
            final(self)@ == Map::<Seq<char>, FileDataView>::new(
                |k: Seq<char>| old(self)@.contains_key(k) && !seq_starts_with(k, prefix@),
                |k: Seq<char>| old(self)@[k],
            ),
    {
        proof {
            use_type_invariant(&*self);
        }
        let ghost s0 = self.entries@;
        let ghost target = Map::<Seq<char>, FileDataView>::new(
            |k: Seq<char>| entries_map(s0).contains_key(k) && !seq_starts_with(k, prefix@),
            |k: Seq<char>| entries_map(s0)[k],
        );
        let mut kept: Vec<(String, FileData)> = Vec::new();
        let mut i: usize = 0;
        proof {
            assert(s0.subrange(0, 0) =~= Seq::<(String, FileData)>::empty());
            assert(entries_map(kept@) =~= filtered(entries_map(s0.subrange(0, 0)), prefix@));
        }
        while i < self.entries.len()
            invariant
                self.entries@ == s0,
                keys_distinct(s0),
                i <= s0.len(),
                keys_distinct(kept@),
                entries_map(kept@) == filtered(entries_map(s0.subrange(0, i as int)), prefix@),
            decreases s0.len() - i,
        {
            let ghost pre = s0.subrange(0, i as int);
            let ghost m_pre = entries_map(pre);
            proof {
                assert(forall|j: int| 0 <= j < i ==> key_at(pre, j) == key_at(s0, j));
                assert(keys_distinct(pre));
                lemma_entries_map_props(pre);
                lemma_entries_map_props(kept@);
                assert(s0.subrange(0, i + 1 as int).drop_last() =~= pre);
                assert(key_at(s0.subrange(0, i + 1 as int), i as int) == key_at(s0, i as int));
                assert(!m_pre.contains_key(key_at(s0, i as int))) by {
                    if m_pre.contains_key(key_at(s0, i as int)) {
                        let j = choose|j: int|
                            0 <= j < pre.len() && key_at(pre, j) == key_at(s0, i as int);
                        assert(key_at(s0, j) == key_at(s0, i as int));
                    }
                }
            }
            let under_prefix = str_starts_with(self.entries[i].0.as_str(), prefix);
            if !under_prefix {
                let entry = clone_entry(&self.entries[i]);
                proof {
                    assert(!entries_map(kept@).contains_key(key_at(s0, i as int)));
                }
                let ghost kept_pre = kept@;
                kept.push(entry);
                proof {
                    assert(kept@.drop_last() =~= kept_pre);
                    assert(key_at(kept@, kept@.len() - 1) == key_at(s0, i as int));
                    lemma_push_keeps_distinct(kept_pre, kept@, key_at(s0, i as int));
                    assert(keys_distinct(kept@));
                    assert(entries_map(kept@) =~= filtered(
                        entries_map(s0.subrange(0, i + 1 as int)),
                        prefix@,
                    ));
                }
            } else {
                proof {
                    assert(seq_starts_with(key_at(s0, i as int), prefix@));
                    assert(entries_map(kept@) =~= filtered(
                        entries_map(s0.subrange(0, i + 1 as int)),
                        prefix@,
                    ));
                }
            }
            i += 1;
        }
        proof {
            assert(s0.subrange(0, s0.len() as int) =~= s0);
        }
        self.entries = kept;
    }
}

/// The entries of `m` whose path does not begin with `prefix`.
spec fn filtered(m: Map<Seq<char>, FileDataView>, prefix: Seq<char>) -> Map<
    Seq<char>,
    FileDataView,
> {
    Map::<Seq<char>, FileDataView>::new(
        |k: Seq<char>| m.contains_key(k) && !seq_starts_with(k, prefix),
        |k: Seq<char>| m[k],
    )
}

/// A view-preserving clone of one store entry.
fn clone_entry(e: &(String, FileData)) -> (r: (String, FileData))
    ensures
        r.0@ == e.0@,
        r.1@ == e.1@,
{
    (e.0.clone(), clone_file_data(&e.1))
}

/// A view-preserving clone of file contents.
pub fn clone_file_data(d: &FileData) -> (r: FileData)
    ensures
        r@ == d@,
{
    match d {
        FileData::Text(s) => FileData::Text(s.clone()),
        FileData::Bytes(b) => {
            let c = b.clone();
            proof {
                assert(c@ =~= b@);
            }
            FileData::Bytes(c)
        },
    }
}

} // verus!
