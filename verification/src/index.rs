//! An index of the files that a library already has.

use vstd::prelude::*;
use vstd::hash_map::StringHashMap;
use crate::path::{NativePath, NativeView};
use crate::text;

verus! {

/// Name of the directory below each destination root where copies are made
/// before they are moved into place. A move out of it stays within one file
/// system. What is in it does not count as part of the library.
pub const STAGING_DIR_NAME: &'static str = ".imagesync-staging";

/// A regular file found below a destination root.
#[derive(Debug)]
pub struct IndexedFile {
    /// The names of the directories between the root and the file.
    pub folders: Vec<String>,
    pub name: String,
    pub path: NativePath,
    pub size: u64,
}

/// The contents of an [`IndexedFile`].
pub struct IndexedFileView {
    pub folders: Seq<Seq<char>>,
    pub name: Seq<char>,
    pub path: NativeView,
    pub size: u64,
}

impl View for IndexedFile {
    type V = IndexedFileView;

    open spec fn view(&self) -> IndexedFileView {
        IndexedFileView {
            folders: text::texts(self.folders@),
            name: self.name@,
            path: self.path@,
            size: self.size,
        }
    }
}

/// A lowercase file name and a size.
pub type IndexKey = (Seq<char>, u64);

impl IndexedFileView {
    /// What the file is found by.
    pub open spec fn key(self) -> IndexKey {
        (text::unicode_lower(self.name), self.size)
    }

    /// Whether the file is a copy that is still being made.
    pub open spec fn staged(self) -> bool {
        self.folders.contains(STAGING_DIR_NAME@)
    }
}

/// The contents of a list of found files.
pub open spec fn found_view(v: Seq<IndexedFile>) -> Seq<IndexedFileView> {
    v.map_values(|f: IndexedFile| f@)
}

/// The index of found files: the path of the first file with each name and
/// size, files being copied left out.
pub open spec fn indexed(fs: Seq<IndexedFileView>) -> Map<IndexKey, NativeView>
    decreases fs.len(),
{
    if fs.len() == 0 {
        Map::empty()
    } else {
        let m = indexed(fs.drop_last());
        let f = fs.last();
        if f.staged() || m.contains_key(f.key()) {
            m
        } else {
            m.insert(f.key(), f.path)
        }
    }
}

/// The path that an index has for a lowercase name and a size.
pub open spec fn found_at(index: Map<IndexKey, NativeView>, name: Seq<char>, size: u64) -> Option<
    NativeView,
> {
    if index.contains_key((name, size)) {
        Some(index[(name, size)])
    } else {
        None
    }
}

/// An index of library files by lowercase name and size. Its view maps these
/// to a path.
pub struct DestIndex {
    paths: StringHashMap<NativePath>,
}

spec fn index_text(k: IndexKey) -> Seq<char> {
    text::numbered(k.1 as nat, k.0)
}

spec fn index_view(m: Map<Seq<char>, NativePath>) -> Map<IndexKey, NativeView> {
    Map::new(|k: IndexKey| m.contains_key(index_text(k)), |k: IndexKey| m[index_text(k)]@)
}

impl View for DestIndex {
    type V = Map<IndexKey, NativeView>;

    closed spec fn view(&self) -> Map<IndexKey, NativeView> {
        index_view(self.paths@)
    }
}

proof fn lemma_index_insert(m: Map<Seq<char>, NativePath>, k: IndexKey, v: NativePath)
    ensures
        index_view(m.insert(index_text(k), v)) == index_view(m).insert(k, v@),
{
    let a = index_view(m.insert(index_text(k), v));
    let b = index_view(m).insert(k, v@);
    assert forall|j: IndexKey| a.contains_key(j) == b.contains_key(j) by {
        if index_text(j) == index_text(k) {
            text::lemma_numbered_injective(j.1 as nat, j.0, k.1 as nat, k.0);
        }
    }
    assert forall|j: IndexKey| a.contains_key(j) implies a[j] == b[j] by {
        if index_text(j) == index_text(k) {
            text::lemma_numbered_injective(j.1 as nat, j.0, k.1 as nat, k.0);
        }
    }
    assert(a =~= b);
}

impl DestIndex {
    #[verifier::type_invariant]
    spec fn sizes_agree(self) -> bool {
        &&& index_view(self.paths@).dom().finite()
        &&& self.paths@.dom().finite()
        &&& index_view(self.paths@).len() == self.paths@.len()
    }

    /// An index of no files.
    pub fn new() -> (r: Self)
        ensures
            r@ == Map::<IndexKey, NativeView>::empty(),
    {
        let paths: StringHashMap<NativePath> = StringHashMap::new();
        proof {
            assert(index_view(paths@) =~= Map::<IndexKey, NativeView>::empty());
        }
        DestIndex { paths }
    }

    /// The index of the files found below the destination roots, in the order
    /// in which they were found.
    pub fn build(files: &Vec<IndexedFile>) -> (r: Self)
        ensures
            r@ == indexed(found_view(files@)),
    {
        let mut out = DestIndex::new();
        let mut i: usize = 0;
        let ghost all = found_view(files@);
        while i < files.len()
            invariant
                i <= files@.len(),
                all == found_view(files@),
                out@ == indexed(all.take(i as int)),
            decreases files@.len() - i,
        {
            proof {
                assert(all.take(i + 1).drop_last() =~= all.take(i as int));
                assert(all.take(i + 1).last() == files@[i as int]@);
            }
            out.add(&files[i]);
            i += 1;
        }
        proof {
            assert(all.take(all.len() as int) =~= all);
        }
        out
    }

    fn add(&mut self, f: &IndexedFile)
        ensures
            final(self)@ == if f@.staged() || old(self)@.contains_key(f@.key()) {
                old(self)@
            } else {
                old(self)@.insert(f@.key(), f@.path)
            },
    {
        proof {
            use_type_invariant(&*self);
        }
        if text::any_text(&f.folders, STAGING_DIR_NAME) {
            return;
        }
        let name = text::to_lowercase(f.name.as_str());
        let key = text::numbered_text(f.size, name.as_str());
        if self.paths.contains_key(key.as_str()) {
            return;
        }
        let mut r = DestIndex::new();
        std::mem::swap(&mut r, self);
        let DestIndex { paths: mut paths } = r;
        let path = f.path.clone();
        proof {
            lemma_index_insert(paths@, f@.key(), path);
        }
        paths.insert(key, path);
        *self = DestIndex { paths };
    }

    /// How many distinct files are indexed.
    pub fn len(&self) -> (r: usize)
        ensures
            r == self@.len(),
    {
        proof {
            use_type_invariant(self);
        }
        self.paths.len()
    }

    /// Whether no file is indexed.
    pub fn is_empty(&self) -> (r: bool)
        ensures
            r == (self@ == Map::<IndexKey, NativeView>::empty()),
    {
        proof {
            use_type_invariant(self);
            if self@.len() == 0 {
                assert(self@ =~= Map::<IndexKey, NativeView>::empty());
            }
        }
        self.paths.len() == 0
    }

    /// The path of a library file with this name, in any case, and exactly
    /// this size. That a name and its lowercase form get the same answer is stated for names
    /// in ASCII.
    pub fn lookup(&self, basename: &str, size: u64) -> (r: Option<&NativePath>)
        ensures
            ({
                let key = (text::unicode_lower(basename@), size);
                match r {
                    Some(p) => self@.contains_key(key) && self@[key] == p@,
                    None => !self@.contains_key(key),
                }
            }),
            text::all_ascii(basename@) ==> match r {
                Some(p) => found_at(self@, text::ascii_lower(basename@), size) == Some(p@),
                None => found_at(self@, text::ascii_lower(basename@), size) is None,
            },
    {
        let name = text::to_lowercase(basename);
        let key = text::numbered_text(size, name.as_str());
        match self.paths.get(key.as_str()) {
            Some(p) => Some(p),
            None => None,
        }
    }
}

// ---------------------------------------------------------------------------
// Laws
// ---------------------------------------------------------------------------

/// A file is found in the index exactly if a file with its lowercase name and
/// its size lies below a root outside the staging directory, and what is found
/// is the path of such a file.
pub proof fn law_index_finds_library_files(fs: Seq<IndexedFileView>, key: IndexKey)
    ensures
        indexed(fs).contains_key(key) <==> exists|i: int|
            0 <= i < fs.len() && !(#[trigger] fs[i]).staged() && fs[i].key() == key,
        indexed(fs).contains_key(key) ==> exists|i: int|
            0 <= i < fs.len() && !(#[trigger] fs[i]).staged() && fs[i].key() == key && fs[i].path
                == indexed(fs)[key],
    decreases fs.len(),
{
    if fs.len() > 0 {
        let t = fs.drop_last();
        law_index_finds_library_files(t, key);
        let m = indexed(t);
        let f = fs.last();
        assert(fs[fs.len() - 1] == f);
        if m.contains_key(key) {
            let i = choose|i: int|
                0 <= i < t.len() && !(#[trigger] t[i]).staged() && t[i].key() == key && t[i].path
                    == m[key];
            assert(fs[i] == t[i]);
        } else {
            if exists|i: int|
                0 <= i < fs.len() && !(#[trigger] fs[i]).staged() && fs[i].key() == key {
                let i = choose|i: int|
                    0 <= i < fs.len() && !(#[trigger] fs[i]).staged() && fs[i].key() == key;
                if i < fs.len() - 1 {
                    assert(t[i] == fs[i]);
                }
            }
        }
    }
}

/// A name in ASCII and its lowercase form are looked up alike: the lowercase form is in
/// ASCII too, and is its own lowercase form.
pub proof fn law_case_does_not_matter(
    index: Map<IndexKey, NativeView>,
    name: Seq<char>,
    size: u64,
)
    requires
        text::all_ascii(name),
    ensures
        text::all_ascii(text::ascii_lower(name)),
        found_at(index, text::ascii_lower(text::ascii_lower(name)), size) == found_at(
            index,
            text::ascii_lower(name),
            size,
        ),
{
    text::lemma_ascii_lower_twice(name);
}

/// Of files alike in name and size the first counts.
pub proof fn law_first_file_is_indexed(fs: Seq<IndexedFile>, i: int)
    requires
        0 <= i < fs.len(),
        forall|k: int|
            0 <= k < fs[i].folders@.len() ==> (#[trigger] fs[i].folders@[k])@ != STAGING_DIR_NAME@,
        forall|j: int|
            0 <= j < i ==> (#[trigger] fs[j]).size != fs[i].size || text::unicode_lower(fs[j].name@)
                != text::unicode_lower(fs[i].name@),
    ensures
        indexed(found_view(fs)).contains_key((text::unicode_lower(fs[i].name@), fs[i].size)),
        indexed(found_view(fs))[(text::unicode_lower(fs[i].name@), fs[i].size)] == fs[i].path@,
    decreases fs.len(),
{
    let key = (text::unicode_lower(fs[i].name@), fs[i].size);
    let all = found_view(fs);
    let t = fs.drop_last();
    assert(all.drop_last() =~= found_view(t));
    assert(all.last() == fs.last()@);
    if i < fs.len() - 1 {
        assert(t[i] == fs[i]);
        assert forall|j: int| 0 <= j < i implies (#[trigger] t[j]).size != t[i].size
            || text::unicode_lower(t[j].name@) != text::unicode_lower(t[i].name@) by {
            assert(t[j] == fs[j]);
        }
        law_first_file_is_indexed(t, i);
    } else {
        law_index_finds_library_files(all.drop_last(), key);
        if indexed(all.drop_last()).contains_key(key) {
            let j = choose|j: int|
                0 <= j < all.drop_last().len() && !(#[trigger] all.drop_last()[j]).staged()
                    && all.drop_last()[j].key() == key;
            assert(fs[j]@.key() == key);
        }
        let folders = text::texts(fs[i].folders@);
        if folders.contains(STAGING_DIR_NAME@) {
            let k = choose|k: int| 0 <= k < folders.len() && folders[k] == STAGING_DIR_NAME@;
            assert(fs[i].folders@[k]@ == STAGING_DIR_NAME@);
        }
    }
}

/// Files are looked up by their whole lowercase name and their exact size.
pub proof fn law_lookups_are_exact(index: Map<IndexKey, NativeView>, name: Seq<char>, size: u64)
    ensures
        found_at(index, name, size) is Some <==> index.contains_key((name, size)),
        found_at(index, name, size) is Some ==> found_at(index, name, size) == Some(
            index[(name, size)],
        ),
        STAGING_DIR_NAME@ == ".imagesync-staging"@,
{
}

} // verus!
