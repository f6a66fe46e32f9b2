//! The file store: maps a file identifier to its metadata and its binary
//! content, which is absent between the file request and the upload that
//! attaches it. Entries are never deleted and content is never cleared
//! back to absent.

use vstd::prelude::*;
use vstd::hash_map::HashMapWithView;

verus! {

broadcast use vstd::std_specs::hash::axiom_u64_obeys_hash_table_key_model;

/// The metadata of a file: its process-unique identifier and the
/// caller-supplied name, which is neither validated nor required to be
/// unique across files.
pub struct FileMetadata {
    pub file_id: u64,
    pub file_name: String,
}

/// The mathematical value of a [`FileMetadata`].
#[verifier::ext_equal]
pub struct FileMetadataView {
    pub file_id: u64,
    pub file_name: Seq<char>,
}

impl View for FileMetadata {
    type V = FileMetadataView;

    open spec fn view(&self) -> FileMetadataView {
        FileMetadataView { file_id: self.file_id, file_name: self.file_name@ }
    }
}

impl Clone for FileMetadata {
    fn clone(&self) -> (r: Self)
        ensures
            r@ == self@,
    {
        FileMetadata { file_id: self.file_id, file_name: self.file_name.clone() }
    }
}

/// A stored file: its metadata and, once uploaded, its content.
pub struct File {
    pub metadata: FileMetadata,
    pub contents: Option<Vec<u8>>,
}

/// The mathematical value of a [`File`].
#[verifier::ext_equal]
pub struct FileView {
    pub metadata: FileMetadataView,
    pub contents: Option<Seq<u8>>,
}

impl View for File {
    type V = FileView;

    open spec fn view(&self) -> FileView {
        FileView {
            metadata: self.metadata@,
            contents: match self.contents {
                Some(c) => Some(c@),
                None => None,
            },
        }
    }
}

/// The answer to a content download: the stored bytes, or a distinguished
/// "empty" answer when the identifier is unknown or nothing was uploaded
/// against it yet. Both are normal outcomes, not errors.
pub enum FileData {
    EmptyFile,
    NonEmptyFile(Vec<u8>),
}

impl View for FileData {
    type V = Option<Seq<u8>>;

    open spec fn view(&self) -> Option<Seq<u8>> {
        match self {
            FileData::EmptyFile => None,
            FileData::NonEmptyFile(c) => Some(c@),
        }
    }
}

/// The content the store holds under an identifier: `None` when the
/// identifier is unknown or its content is still absent.
pub open spec fn stored_content(files: Map<u64, FileView>, file_id: u64) -> Option<Seq<u8>> {
    if files.contains_key(file_id) {
        files[file_id].contents
    } else {
        None
    }
}

/// Maps each issued file identifier to the file stored under it.
pub struct FileStore {
    files: HashMapWithView<u64, File>,
}

impl View for FileStore {
    type V = Map<u64, FileView>;

    closed spec fn view(&self) -> Map<u64, FileView> {
        self.files@.map_values(|file: File| file@)
    }
}

/// A copy of a byte vector, made element by element.
fn clone_bytes(v: &Vec<u8>) -> (r: Vec<u8>)
    ensures
        r@ == v@,
{
    let mut r: Vec<u8> = Vec::new();
    let mut i: usize = 0;
    while i < v.len()
        invariant
            i <= v.len(),
            r@ == v@.subrange(0, i as int),
        decreases v.len() - i,
    {
        r.push(v[i]);
        proof {
            assert(v@.subrange(0, i as int).push(v@[i as int]) =~= v@.subrange(0, i + 1 as int));
        }
        i = i + 1;
    }
    proof {
        assert(r@ =~= v@);
    }
    r
}

impl FileStore {
    /// An empty store: no identifier holds a file.
    pub fn new() -> (r: Self)
        ensures
            r@ == Map::<u64, FileView>::empty(),
    {
        let store = FileStore { files: HashMapWithView::new() };
        proof {
            assert(store@ =~= Map::<u64, FileView>::empty());
        }
        store
    }

    /// Inserts a fresh entry with the given metadata and absent content.
    /// The identifier must not be in use: an entry, once created, is never
    /// replaced.
    pub fn create(&mut self, metadata: FileMetadata)
        requires
            !old(self)@.contains_key(metadata.file_id),
        ensures
            final(self)@ == old(self)@.insert(
                metadata.file_id,
                FileView { metadata: metadata@, contents: None },
            ),
    {
        let ghost prior = self.files@;
        let ghost meta = metadata@;
        let file_id = metadata.file_id;
        let file = File { metadata, contents: None };
        self.files.insert(file_id, file);
        proof {
            assert(self@ =~= prior.map_values(|f: File| f@).insert(
                file_id,
                FileView { metadata: meta, contents: None },
            ));
        }
    }

    /// Sets (or overwrites) the content stored under `file_id`, leaving
    /// the metadata as it was. When no entry exists for `file_id` this is
    /// a silent no-op and the store is unchanged.
    pub fn attach_content(&mut self, file_id: u64, contents: Vec<u8>)
        ensures
            final(self)@ == if old(self)@.contains_key(file_id) {
                old(self)@.insert(
                    file_id,
                    FileView { metadata: old(self)@[file_id].metadata, contents: Some(contents@) },
                )
            } else {
                old(self)@
            },
    {
        let ghost prior = self.files@;
        let metadata = match self.files.get(&file_id) {
            Some(file) => Some(file.metadata.clone()),
            None => None,
        };
        match metadata {
            Some(metadata) => {
                let ghost meta = metadata@;
                let ghost stored = contents@;
                let file = File { metadata, contents: Some(contents) };
                self.files.insert(file_id, file);
                proof {
                    assert(self@ =~= prior.map_values(|f: File| f@).insert(
                        file_id,
                        FileView { metadata: meta, contents: Some(stored) },
                    ));
                }
            },
            None => {},
        }
    }

    /// Returns the content stored under `file_id`: the distinguished
    /// empty answer when the identifier is unknown or nothing was
    /// uploaded against it yet, else the stored bytes.
    pub fn get_content(&self, file_id: u64) -> (r: FileData)
        ensures
            r@ == stored_content(self@, file_id),
    {
        match self.files.get(&file_id) {
            None => FileData::EmptyFile,
            Some(file) => match &file.contents {
                None => FileData::EmptyFile,
                Some(c) => FileData::NonEmptyFile(clone_bytes(c)),
            },
        }
    }

    /// Looks the metadata up; `None` when the identifier is unknown.
    pub fn get_metadata(&self, file_id: u64) -> (r: Option<&FileMetadata>)
        ensures
            match r {
                Some(metadata) => self@.contains_key(file_id)
                    && metadata@ == self@[file_id].metadata,
                None => !self@.contains_key(file_id),
            },
    {
        match self.files.get(&file_id) {
            Some(file) => Some(&file.metadata),
            None => None,
        }
    }
}

} // verus!
