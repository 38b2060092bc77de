//! Files, the paths that name them, and a file system that keeps its files
//! in memory.
use vstd::prelude::*;
use vstd::utf8::{decode_utf8, valid_utf8};
use std::string::FromUtf8Error;

verus! {

#[verifier::external_type_specification]
#[verifier::external_body]
pub struct ExFromUtf8Error(FromUtf8Error);

/// `String::from_utf8`: the text that `bytes` encode, if they are valid
/// UTF-8, and an error if they are not.
#[verifier::external_body]
fn string_from_utf8(bytes: Vec<u8>) -> (result: Result<String, FromUtf8Error>)
    ensures
        result is Ok <==> valid_utf8(bytes@),
        result matches Ok(text) ==> text@ == decode_utf8(bytes@),
{
    String::from_utf8(bytes)
}

/// Why an operation of a file system failed.
#[derive(Clone, Copy, Hash, PartialEq, Eq, Debug, Structural)]
pub enum FsError {
    FileNotFound,
}

/// What a component of a path names.
#[derive(Debug, Clone, Copy, Hash, PartialEq, Eq, Structural)]
pub enum DirectoryType {
    File,
    Folder,
    Url,
}

/// One component of a path.
#[derive(Debug, Clone, Hash, PartialEq, Eq)]
pub struct Directory {
    variant: DirectoryType,
    name: String,
}

impl Directory {
    /// The component's kind and name.
    pub closed spec fn view(&self) -> (DirectoryType, Seq<char>) {
        (self.variant, self.name@)
    }

    /// The component of kind `variant` with the name `name`.
    pub fn new(variant: DirectoryType, name: String) -> (directory: Directory)
        ensures
            directory@ == (variant, name@),
    {
        Directory { variant, name }
    }

    /// Whether the two components have the same kind and name.
    pub fn same(&self, other: &Directory) -> (same: bool)
        ensures
            same == (self@ == other@),
    {
        self.variant == other.variant && self.name == other.name
    }
}

/// The components that lead to a file, outermost first.
#[derive(Debug, Clone, Hash, PartialEq, Eq)]
pub struct Path(Vec<Directory>);

impl Path {
    /// The kinds and names of the components, outermost first.
    pub closed spec fn view(&self) -> Seq<(DirectoryType, Seq<char>)> {
        self.0@.map_values(|directory: Directory| directory@)
    }

    /// The path with the components `directories`.
    pub fn new(directories: Vec<Directory>) -> (path: Path)
        ensures
            path@ == directories@.map_values(|directory: Directory| directory@),
    {
        Path(directories)
    }

    /// Whether the two paths have the same components.
    pub fn same(&self, other: &Path) -> (same: bool)
        ensures
            same == (self@ == other@),
    {
        if self.0.len() != other.0.len() {
            return false;
        }
        let mut i: usize = 0;
        while i < self.0.len()
            invariant
                i <= self.0.len(),
                self.0.len() == other.0.len(),
                forall|k: int| 0 <= k < i ==> self@[k] == other@[k],
            decreases self.0.len() - i,
        {
            if !self.0[i].same(&other.0[i]) {
                assert(self@[i as int] != other@[i as int]);
                return false;
            }
            i += 1;
        }
        assert(self@ =~= other@);
        true
    }
}

/// What may be done with a file.
#[derive(Debug, Copy, Clone, Hash, PartialEq, Eq, Structural)]
pub struct Permissions {
    pub read: bool,
    pub write: bool,
    pub execute: bool,
}

/// A file: its permissions and its bytes.
#[derive(Debug, Clone, Hash, PartialEq, Eq)]
pub struct File {
    permissions: Permissions,
    contents: Vec<u8>,
}

impl File {
    /// The bytes of the file.
    pub closed spec fn view(&self) -> Seq<u8> {
        self.contents@
    }

    /// What may be done with the file.
    pub closed spec fn permissions(&self) -> Permissions {
        self.permissions
    }

    /// The file with the bytes `contents` and the permissions `permissions`.
    pub fn new(permissions: Permissions, contents: Vec<u8>) -> (file: File)
        ensures
            file@ == contents@,
            file.permissions() == permissions,
    {
        File { permissions, contents }
    }

    /// Replaces the bytes of the file by `new_content`.
    pub fn overwrite(&mut self, new_content: Vec<u8>)
        ensures
            final(self)@ == new_content@,
            final(self).permissions() == old(self).permissions(),
    {
        self.contents = new_content
    }

    /// The file's bytes as text, if they are valid UTF-8.
    pub fn read_string(&self) -> (result: Result<String, FromUtf8Error>)
        ensures
            result is Ok <==> valid_utf8(self@),
            result matches Ok(text) ==> text@ == decode_utf8(self@),
    {
        let bytes = self.contents.clone();
        assert(bytes@ =~= self.contents@);
        string_from_utf8(bytes)
    }

    /// How many bytes the file has.
    pub fn len(&self) -> (len: usize)
        ensures
            len == self@.len(),
    {
        self.contents.len()
    }

    /// The byte at place `index`.
    pub fn index(&self, index: usize) -> (byte: &u8)
        requires
            index < self@.len(),
        ensures
            *byte == self@[index as int],
    {
        &self.contents[index]
    }

    /// The bytes from place `start` up to, not including, place `end`.
    pub fn index_range(&self, start: usize, end: usize) -> (bytes: &[u8])
        requires
            start <= end <= self@.len(),
        ensures
            bytes@ == self@.subrange(start as int, end as int),
    {
        vstd::slice::slice_subrange(self.contents.as_slice(), start, end)
    }
}

/// What a file system driver offers: its files are reached by their paths.
pub trait Filesystem: Sized {
    /// The files of the file system, each under the components of its path.
    spec fn files(&self) -> Map<Seq<(DirectoryType, Seq<char>)>, File>;

    /// What the driver keeps true of its own records.
    spec fn wf(&self) -> bool;

    /// A file system without files.
    fn init() -> (fs: Self)
        ensures
            fs.wf(),
            fs.files() == Map::<Seq<(DirectoryType, Seq<char>)>, File>::empty(),
    ;

    /// The file at `path`.
    fn index(&self, path: Path) -> (file: &File)
        requires
            self.wf(),
            self.files().contains_key(path@),
        ensures
            *file == self.files()[path@],
    ;

    /// The file at `path`, to be changed in place.
    fn index_mut(&mut self, path: Path) -> (file: &mut File)
        requires
            old(self).wf(),
            old(self).files().contains_key(path@),
        ensures
            *file == old(self).files()[path@],
            final(self).wf(),
            final(self).files() == old(self).files().insert(path@, *final(file)),
    ;

    /// The bytes of `file` as text, if they are valid UTF-8.
    fn read_file(file: &File) -> (result: Result<String, FromUtf8Error>)
        ensures
            result is Ok <==> valid_utf8(file@),
            result matches Ok(text) ==> text@ == decode_utf8(file@),
    {
        file.read_string()
    }

    /// The file at `path`.
    fn get_dir(&self, path: Path) -> (file: Option<&File>)
        requires
            self.wf(),
            self.files().contains_key(path@),
        ensures
            file == Some(&self.files()[path@]),
    {
        Some(self.index(path))
    }

    /// The bytes of the file at `path`.
    fn read_dir(&self, path: Path) -> (bytes: Option<&[u8]>)
        requires
            self.wf(),
            self.files().contains_key(path@),
        ensures
            bytes matches Some(b) && b@ == self.files()[path@]@,
    {
        let file = match self.get_dir(path) {
            Some(file) => file,
            None => {
                return None;
            },
        };
        let len = file.len();
        let bytes = file.index_range(0, len);
        assert(bytes@ =~= file@);
        Some(bytes)
    }

    /// Replaces the bytes of the file at `path` by `content`. The file keeps
    /// its permissions, and every other file stays as it is.
    fn write_dir(&mut self, path: Path, content: Vec<u8>) -> (result: Result<(), FsError>)
        requires
            old(self).wf(),
            old(self).files().contains_key(path@),
        ensures
            result is Ok,
            final(self).wf(),
            final(self).files().dom() == old(self).files().dom(),
            final(self).files()[path@]@ == content@,
            final(self).files()[path@].permissions() == old(self).files()[path@].permissions(),
            final(self).files().remove(path@) == old(self).files().remove(path@),
    {
        let ghost key = path@;
        let file_ref = self.index_mut(path);
        file_ref.overwrite(content);
        proof {
            assert(final(self).files().dom() =~= old(self).files().dom());
            assert(final(self).files().remove(key) =~= old(self).files().remove(key));
        }
        Ok(())
    }
}

/// Whether some entry of `items` has the path with the components `path`.
pub open spec fn has_entry(items: Seq<(Path, File)>, path: Seq<(DirectoryType, Seq<char>)>) -> bool {
    exists|i: int| 0 <= i < items.len() && (#[trigger] items[i]).0@ == path
}

/// The place of an entry of `items` with the path `path`.
pub open spec fn entry_place(items: Seq<(Path, File)>, path: Seq<(DirectoryType, Seq<char>)>) -> int {
    choose|i: int| 0 <= i < items.len() && (#[trigger] items[i]).0@ == path
}

/// Whether no two entries of `items` have the same path.
pub open spec fn paths_distinct(items: Seq<(Path, File)>) -> bool {
    forall|i: int, j: int|
        0 <= i < j < items.len() ==> (#[trigger] items[i]).0@ != (#[trigger] items[j]).0@
}

/// The files of `items`, each under the components of its path.
pub open spec fn files_of(items: Seq<(Path, File)>) -> Map<Seq<(DirectoryType, Seq<char>)>, File> {
    Map::new(
        |path: Seq<(DirectoryType, Seq<char>)>| has_entry(items, path),
        |path: Seq<(DirectoryType, Seq<char>)>| items[entry_place(items, path)].1,
    )
}

/// Among entries with distinct paths, the entry at place `i` is the one that
/// its path leads to.
proof fn lemma_entry_place(items: Seq<(Path, File)>, i: int)
    requires
        paths_distinct(items),
        0 <= i < items.len(),
    ensures
        has_entry(items, items[i].0@),
        entry_place(items, items[i].0@) == i,
{
    let c = entry_place(items, items[i].0@);
    assert(items[c].0@ == items[i].0@);
    if c < i {
        assert(items[c].0@ != items[i].0@);
    }
    if i < c {
        assert(items[i].0@ != items[c].0@);
    }
}

/// Putting `file` in place of the file of entry `i` changes the file under
/// that entry's path and nothing else.
proof fn lemma_replace_file(items: Seq<(Path, File)>, i: int, file: File)
    requires
        paths_distinct(items),
        0 <= i < items.len(),
    ensures
        paths_distinct(items.update(i, (items[i].0, file))),
        files_of(items.update(i, (items[i].0, file))) == files_of(items).insert(items[i].0@, file),
{
    let changed = items.update(i, (items[i].0, file));
    assert forall|a: int, b: int| 0 <= a < b < changed.len() implies (#[trigger] changed[a]).0@ != (
    #[trigger] changed[b]).0@ by {
        assert(items[a].0@ != items[b].0@);
    }
    assert forall|p: Seq<(DirectoryType, Seq<char>)>| has_entry(changed, p) == has_entry(
        items,
        p,
    ) by {
        if has_entry(changed, p) {
            assert(items[entry_place(changed, p)].0@ == p);
        }
        if has_entry(items, p) {
            assert(changed[entry_place(items, p)].0@ == p);
        }
    }
    lemma_entry_place(items, i);
    assert forall|p: Seq<(DirectoryType, Seq<char>)>| has_entry(changed, p) implies changed[entry_place(
        changed,
        p,
    )].1 == files_of(items).insert(items[i].0@, file)[p] by {
        let a = entry_place(changed, p);
        lemma_entry_place(changed, a);
        lemma_entry_place(items, a);
    }
    assert(files_of(changed) =~= files_of(items).insert(items[i].0@, file));
}

/// Adding an entry with a path that no entry has adds the file under that
/// path and changes nothing else.
proof fn lemma_add_entry(items: Seq<(Path, File)>, path: Path, file: File)
    requires
        paths_distinct(items),
        !has_entry(items, path@),
    ensures
        paths_distinct(items.push((path, file))),
        files_of(items.push((path, file))) == files_of(items).insert(path@, file),
{
    let longer = items.push((path, file));
    let last = items.len() as int;
    assert(longer[last].0@ == path@);
    assert forall|a: int, b: int| 0 <= a < b < longer.len() implies (#[trigger] longer[a]).0@ != (
    #[trigger] longer[b]).0@ by {
        if b == last {
            assert(items[a].0@ != path@);
        } else {
            assert(items[a].0@ != items[b].0@);
        }
    }
    assert forall|p: Seq<(DirectoryType, Seq<char>)>| has_entry(longer, p) == (has_entry(items, p)
        || p == path@) by {
        if has_entry(longer, p) {
            let a = entry_place(longer, p);
            if a < last {
                assert(items[a].0@ == p);
            }
        }
        if has_entry(items, p) {
            assert(longer[entry_place(items, p)].0@ == p);
        }
    }
    assert forall|p: Seq<(DirectoryType, Seq<char>)>| has_entry(longer, p) implies longer[entry_place(
        longer,
        p,
    )].1 == files_of(items).insert(path@, file)[p] by {
        let a = entry_place(longer, p);
        lemma_entry_place(longer, a);
        if a < last {
            lemma_entry_place(items, a);
        }
    }
    assert(files_of(longer) =~= files_of(items).insert(path@, file));
}

/// A file system that keeps its files in memory.
pub struct MemoryFS {
    /// The files with their paths. No two entries have the same path.
    items: Vec<(Path, File)>,
}

impl MemoryFS {
    /// The place of the entry with the path of `path`, if there is one.
    fn find(&self, path: &Path) -> (found: Option<usize>)
        requires
            paths_distinct(self.items@),
        ensures
            found is Some <==> has_entry(self.items@, path@),
            found matches Some(i) ==> i == entry_place(self.items@, path@) && i < self.items@.len()
                && self.items@[i as int].0@ == path@,
    {
        let mut i: usize = 0;
        while i < self.items.len()
            invariant
                paths_distinct(self.items@),
                i <= self.items.len(),
                forall|k: int| 0 <= k < i ==> (#[trigger] self.items@[k]).0@ != path@,
            decreases self.items.len() - i,
        {
            if self.items[i].0.same(path) {
                proof {
                    lemma_entry_place(self.items@, i as int);
                }
                return Some(i);
            }
            i += 1;
        }
        None
    }

    /// Files `file` under `path`, in place of the file that was there, which
    /// is returned.
    pub fn insert(&mut self, path: Path, file: File) -> (replaced: Option<File>)
        requires
            old(self).wf(),
        ensures
            final(self).wf(),
            final(self).files() == old(self).files().insert(path@, file),
            replaced is Some <==> old(self).files().contains_key(path@),
            replaced matches Some(before) ==> before == old(self).files()[path@],
    {
        match self.find(&path) {
            Some(i) => {
                let mut before = file;
                std::mem::swap(&mut self.items[i].1, &mut before);
                proof {
                    lemma_replace_file(old(self).items@, i as int, file);
                    assert(self.items@ =~= old(self).items@.update(
                        i as int,
                        (old(self).items@[i as int].0, file),
                    ));
                }
                Some(before)
            },
            None => {
                proof {
                    lemma_add_entry(self.items@, path, file);
                }
                self.items.push((path, file));
                None
            },
        }
    }
}

impl Filesystem for MemoryFS {
    closed spec fn files(&self) -> Map<Seq<(DirectoryType, Seq<char>)>, File> {
        files_of(self.items@)
    }

    closed spec fn wf(&self) -> bool {
        paths_distinct(self.items@)
    }

    fn init() -> (fs: MemoryFS) {
        let fs = MemoryFS { items: Vec::new() };
        assert(fs.files() =~= Map::<Seq<(DirectoryType, Seq<char>)>, File>::empty());
        fs
    }

    fn index(&self, path: Path) -> (file: &File) {
        let i = self.find(&path).unwrap();
        &self.items[i].1
    }

    fn index_mut(&mut self, path: Path) -> (file: &mut File) {
        let i = self.find(&path).unwrap();
        proof {
            let items = self.items@;
            assert forall|file: File| #![trigger items.update(i as int, (items[i as int].0, file))]
                paths_distinct(items.update(i as int, (items[i as int].0, file))) && files_of(
                    items.update(i as int, (items[i as int].0, file)),
                ) == files_of(items).insert(path@, file) by {
                lemma_replace_file(items, i as int, file);
            }
        }
        &mut self.items[i].1
    }
}

} // verus!
