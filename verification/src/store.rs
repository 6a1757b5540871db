//! The files and directories of an archive as values.
//!
//! A store holds the bytes of every file. Its operations change those bytes the way the file
//! system would, and note each change, so that a caller can carry the changes out on a disk.

use crate::bytes::zeros;
use crate::error::{ArchiveDirectory, ArchiveFile, IoFault};
use vstd::prelude::*;

verus! {

/// The largest length that a file can have.
pub const MAX_FILE_LEN: u64 = 0x7FFF_FFFF_FFFF_FFFF;

/// The error number of a write past the largest file length.
pub const FILE_TOO_LARGE: i32 = 27;

/// The bytes of a file, and the bytes that it had when it was last synced.
#[verifier::ext_equal]
pub struct FileModel {
    pub bytes: Seq<u8>,
    pub synced: Seq<u8>,
}

/// The files and directories of a store.
#[verifier::ext_equal]
pub struct StoreModel {
    pub files: Map<ArchiveFile, FileModel>,
    pub directories: Set<ArchiveDirectory>,
}

/// `s` after `data` was written at `offset`; a gap is filled with zeros.
pub open spec fn overwritten(s: Seq<u8>, offset: nat, data: Seq<u8>) -> Seq<u8> {
    let end = offset + data.len();
    if data.len() == 0 {
        s
    } else {
        Seq::new(
            if end > s.len() {
                end
            } else {
                s.len()
            },
            |i: int|
                if offset <= i < end {
                    data[i - offset]
                } else if i < s.len() {
                    s[i]
                } else {
                    0u8
                },
        )
    }
}

/// `s` cut off or filled up with zeros to the length `n`.
pub open spec fn resized(s: Seq<u8>, n: nat) -> Seq<u8> {
    Seq::new(
        n,
        |i: int|
            if i < s.len() {
                s[i]
            } else {
                0u8
            },
    )
}

impl StoreModel {
    /// A store with no file and no directory.
    pub open spec fn empty() -> StoreModel {
        StoreModel { files: Map::empty(), directories: Set::empty() }
    }

    /// The file is there.
    pub open spec fn has(self, file: ArchiveFile) -> bool {
        self.files.contains_key(file)
    }

    /// The bytes of a file.
    pub open spec fn bytes(self, file: ArchiveFile) -> Seq<u8> {
        self.files[file].bytes
    }

    /// The store with the bytes of one file replaced.
    pub open spec fn with_bytes(self, file: ArchiveFile, bytes: Seq<u8>) -> StoreModel {
        StoreModel {
            files: self.files.insert(file, FileModel { bytes, synced: self.files[file].synced }),
            ..self
        }
    }

    /// The store with an empty file at this place.
    pub open spec fn with_empty(self, file: ArchiveFile) -> StoreModel {
        StoreModel {
            files: self.files.insert(
                file,
                FileModel { bytes: Seq::empty(), synced: Seq::empty() },
            ),
            ..self
        }
    }

    /// The store after a write.
    pub open spec fn written(self, file: ArchiveFile, offset: u64, data: Seq<u8>) -> StoreModel {
        self.with_bytes(file, overwritten(self.bytes(file), offset as nat, data))
    }

    /// The store after a change of a file's length.
    pub open spec fn with_len(self, file: ArchiveFile, len: u64) -> StoreModel {
        self.with_bytes(file, resized(self.bytes(file), len as nat))
    }

    /// The store after a file was synced.
    pub open spec fn synced(self, file: ArchiveFile) -> StoreModel {
        StoreModel {
            files: self.files.insert(
                file,
                FileModel { bytes: self.bytes(file), synced: self.bytes(file) },
            ),
            ..self
        }
    }

    /// The store after a file was moved to another place.
    pub open spec fn moved(self, from: ArchiveFile, to: ArchiveFile) -> StoreModel {
        StoreModel { files: self.files.remove(from).insert(to, self.files[from]), ..self }
    }

    /// The store without a file.
    pub open spec fn without(self, file: ArchiveFile) -> StoreModel {
        StoreModel { files: self.files.remove(file), ..self }
    }

    /// The store with a directory.
    pub open spec fn with_directory(self, directory: ArchiveDirectory) -> StoreModel {
        StoreModel { directories: self.directories.insert(directory), ..self }
    }

    /// Why a write of `n` bytes at `offset` fails, if it does.
    pub open spec fn write_fault(self, file: ArchiveFile, offset: u64, n: nat) -> Option<IoFault> {
        if !self.has(file) {
            Some(IoFault::NotFound)
        } else if offset + n > MAX_FILE_LEN {
            Some(IoFault::Os(FILE_TOO_LARGE))
        } else {
            None
        }
    }

    /// Why a change of length fails, if it does.
    pub open spec fn resize_fault(self, file: ArchiveFile, len: u64) -> Option<IoFault> {
        if !self.has(file) {
            Some(IoFault::NotFound)
        } else if len > MAX_FILE_LEN {
            Some(IoFault::Os(FILE_TOO_LARGE))
        } else {
            None
        }
    }

    /// What reading `n` bytes at `offset` gives.
    pub open spec fn read(self, file: ArchiveFile, offset: u64, n: nat) -> Result<
        Seq<u8>,
        IoFault,
    > {
        if !self.has(file) {
            Err(IoFault::NotFound)
        } else if offset + n > self.bytes(file).len() {
            Err(IoFault::UnexpectedEnd)
        } else {
            Ok(self.bytes(file).subrange(offset as int, offset + n))
        }
    }
}

/// One change of a store.
pub enum StorageAction {
    /// An empty file was created.
    CreateNew {
        /// The file.
        file: ArchiveFile,
    },
    /// A file was created, or emptied.
    CreateOrTruncate {
        /// The file.
        file: ArchiveFile,
    },
    /// Bytes were written.
    WriteAt {
        /// The file.
        file: ArchiveFile,
        /// Where the bytes start.
        offset: u64,
        /// The bytes.
        data: Vec<u8>,
    },
    /// The length of a file was set.
    SetLen {
        /// The file.
        file: ArchiveFile,
        /// The new length.
        len: u64,
    },
    /// The bytes of a file were made durable.
    SyncData {
        /// The file.
        file: ArchiveFile,
    },
    /// A file was moved.
    Rename {
        /// The place it had.
        from: ArchiveFile,
        /// The place it got.
        to: ArchiveFile,
    },
    /// A file was removed.
    Remove {
        /// The file.
        file: ArchiveFile,
    },
    /// A directory was created.
    CreateDirectory {
        /// The directory.
        directory: ArchiveDirectory,
    },
}

impl StorageAction {
    /// What the change makes of a store.
    pub open spec fn applied(self, store: StoreModel) -> StoreModel {
        match self {
            StorageAction::CreateNew { file } => store.with_empty(file),
            StorageAction::CreateOrTruncate { file } => store.with_empty(file),
            StorageAction::WriteAt { file, offset, data } => store.written(file, offset, data@),
            StorageAction::SetLen { file, len } => store.with_len(file, len),
            StorageAction::SyncData { file } => store.synced(file),
            StorageAction::Rename { from, to } => store.moved(from, to),
            StorageAction::Remove { file } => store.without(file),
            StorageAction::CreateDirectory { directory } => store.with_directory(directory),
        }
    }
}

/// A change of a store with the name of the operation that made it.
pub struct StorageChange {
    /// Operation name.
    pub operation: &'static str,
    /// The change.
    pub action: StorageAction,
}

/// What a sequence of changes makes of a store.
pub open spec fn applied_all(changes: Seq<StorageChange>, store: StoreModel) -> StoreModel
    decreases changes.len(),
{
    if changes.len() == 0 {
        store
    } else {
        changes.last().action.applied(applied_all(changes.drop_last(), store))
    }
}

/// The bytes of one file. The bytes past the stored ones are zero.
struct FileImage {
    stored: Vec<u8>,
    len: u64,
    synced: Ghost<Seq<u8>>,
}

impl FileImage {
    spec fn wf(&self) -> bool {
        self.stored@.len() <= self.len <= MAX_FILE_LEN
    }

    spec fn content(&self) -> Seq<u8> {
        self.stored@ + zeros((self.len - self.stored@.len()) as nat)
    }

    spec fn model(&self) -> FileModel {
        FileModel { bytes: self.content(), synced: self.synced@ }
    }

    fn empty() -> (image: FileImage)
        ensures
            image.wf(),
            image.model() == (FileModel { bytes: Seq::empty(), synced: Seq::empty() }),
    {
        let image = FileImage { stored: Vec::new(), len: 0, synced: Ghost(Seq::empty()) };
        assert(image.content() =~= Seq::<u8>::empty());
        image
    }

    fn read(&self, offset: u64, n: usize) -> (out: Vec<u8>)
        requires
            self.wf(),
            offset + n <= self.content().len(),
        ensures
            out@ == self.content().subrange(offset as int, offset + n),
    {
        let mut out: Vec<u8> = Vec::new();
        for i in 0..n
            invariant
                self.wf(),
                offset + n <= self.content().len(),
                out@ == self.content().subrange(offset as int, offset + i),
        {
            let at: u64 = offset + i as u64;
            if at < self.stored.len() as u64 {
                out.push(self.stored[at as usize]);
            } else {
                out.push(0);
            }
            assert(out@ =~= self.content().subrange(offset as int, offset + i + 1));
        }
        out
    }

    fn read_all(&self) -> (out: Vec<u8>)
        requires
            self.wf(),
        ensures
            out@ == self.content(),
    {
        let mut out: Vec<u8> = Vec::new();
        crate::bytes::push_slice(&mut out, &self.stored);
        let mut i: u64 = self.stored.len() as u64;
        while i < self.len
            invariant
                self.wf(),
                self.stored@.len() <= i <= self.len,
                out@ == self.stored@ + zeros((i - self.stored@.len()) as nat),
            decreases self.len - i,
        {
            out.push(0);
            i = i + 1;
            assert(out@ =~= self.stored@ + zeros((i - self.stored@.len()) as nat));
        }
        out
    }

    fn write(&mut self, offset: u64, data: &[u8])
        requires
            old(self).wf(),
            offset + data@.len() <= MAX_FILE_LEN,
        ensures
            final(self).wf(),
            final(self).content() == overwritten(old(self).content(), offset as nat, data@),
            final(self).synced == old(self).synced,
    {
        let ghost before = self.content();
        let n: usize = data.len();
        if n == 0 {
            return ;
        }
        while (self.stored.len() as u64) < offset
            invariant
                self.stored@.len() <= MAX_FILE_LEN,
                self.synced == old(self).synced,
                self.len == old(self).len,
                old(self).wf(),
                before == old(self).content(),
                offset <= MAX_FILE_LEN,
                old(self).stored@.len() <= self.stored@.len(),
                self.stored@.len() <= offset || self.stored@ == old(self).stored@,
                forall|j: int|
                    #![trigger self.stored@[j]]
                    0 <= j < self.stored@.len() ==> self.stored@[j] == (if j < before.len() {
                        before[j]
                    } else {
                        0u8
                    }),
            decreases offset - self.stored@.len(),
        {
            self.stored.push(0);
        }
        let ghost padded = self.stored@;
        for i in 0..n
            invariant
                n == data@.len(),
                offset + n <= MAX_FILE_LEN,
                offset <= padded.len(),
                self.synced == old(self).synced,
                self.len == old(self).len,
                self.stored@.len() == (if offset + i > padded.len() {
                    offset + i
                } else {
                    padded.len() as int
                }),
                forall|j: int|
                    #![trigger self.stored@[j]]
                    0 <= j < self.stored@.len() ==> self.stored@[j] == (if offset <= j < offset
                        + i {
                        data@[j - offset]
                    } else {
                        padded[j]
                    }),
        {
            let at: u64 = offset + i as u64;
            if at < self.stored.len() as u64 {
                let index: usize = at as usize;
                self.stored.set(index, data[i]);
            } else {
                self.stored.push(data[i]);
            }
        }
        let end: u64 = offset + n as u64;
        if end > self.len {
            self.len = end;
        }
        assert(self.content() =~= overwritten(before, offset as nat, data@));
    }

    fn resize(&mut self, len: u64)
        requires
            old(self).wf(),
            len <= MAX_FILE_LEN,
        ensures
            final(self).wf(),
            final(self).content() == resized(old(self).content(), len as nat),
            final(self).synced == old(self).synced,
    {
        let ghost before = self.content();
        if len < self.stored.len() as u64 {
            self.stored.truncate(len as usize);
        }
        self.len = len;
        assert(self.content() =~= resized(before, len as nat));
    }
}

/// A file of a store and its bytes.
struct StoredFile {
    file: ArchiveFile,
    image: FileImage,
}

/// The files of a list of stored files.
spec fn files_model(files: Seq<StoredFile>) -> Map<ArchiveFile, FileModel> {
    Map::new(
        |file: ArchiveFile| exists|i: int| is_at(files, file, i),
        |file: ArchiveFile| files[position(files, file)].image.model(),
    )
}

/// The file stands at this place of the list.
spec fn is_at(files: Seq<StoredFile>, file: ArchiveFile, i: int) -> bool {
    0 <= i < files.len() && files[i].file == file
}

/// The place of a file in a list of stored files.
spec fn position(files: Seq<StoredFile>, file: ArchiveFile) -> int {
    choose|i: int| is_at(files, file, i)
}

/// Every file stands at one place only.
spec fn distinct(files: Seq<StoredFile>) -> bool {
    forall|i: int, j: int|
        #![trigger files[i], files[j]]
        0 <= i < files.len() && 0 <= j < files.len() && i != j ==> files[i].file != files[j].file
}

/// What a store holds.
struct StoreContent {
    files: Vec<StoredFile>,
    directories: Vec<ArchiveDirectory>,
    changes: Vec<StorageChange>,
    base: Ghost<StoreModel>,
}

impl StoreContent {
    spec fn wf(self) -> bool {
        &&& forall|i: int|
            #![trigger self.files@[i]]
            0 <= i < self.files@.len() ==> self.files@[i].image.wf()
        &&& distinct(self.files@)
        &&& applied_all(self.changes@, self.base@) == self.model()
    }

    spec fn model(self) -> StoreModel {
        StoreModel { files: files_model(self.files@), directories: self.directories@.to_set() }
    }

    fn empty() -> (content: StoreContent)
        ensures
            content.wf(),
            content.model() == StoreModel::empty(),
            content.changes@ == Seq::<StorageChange>::empty(),
            content.base@ == StoreModel::empty(),
    {
        let content = StoreContent {
            files: Vec::new(),
            directories: Vec::new(),
            changes: Vec::new(),
            base: Ghost(StoreModel::empty()),
        };
        assert(content.model().files =~= Map::<ArchiveFile, FileModel>::empty());
        assert(content.model().directories =~= Set::<ArchiveDirectory>::empty());
        content
    }

    /// Finds a file.
    fn find(&self, file: ArchiveFile) -> (found: Option<usize>)
        requires
            self.wf(),
        ensures
            match found {
                Some(i) => {
                    &&& self.model().has(file)
                    &&& i < self.files@.len()
                    &&& self.files@[i as int].file == file
                    &&& self.model().files[file] == self.files@[i as int].image.model()
                    &&& position(self.files@, file) == i
                },
                None => !self.model().has(file),
            },
    {
        let n: usize = self.files.len();
        for i in 0..n
            invariant
                self.wf(),
                n == self.files@.len(),
                forall|j: int|
                    #![trigger self.files@[j]]
                    0 <= j < i ==> self.files@[j].file != file,
        {
            if self.files[i].file == file {
                assert(is_at(self.files@, file, i as int));
                assert(is_at(self.files@, file, position(self.files@, file)));
                return Some(i);
            }
        }
        assert forall|j: int| !is_at(self.files@, file, j) by {}
        None
    }

    /// Notes a change that has just been made.
    fn note(&mut self, operation: &'static str, action: StorageAction)
        requires
            forall|i: int|
                #![trigger old(self).files@[i]]
                0 <= i < old(self).files@.len() ==> old(self).files@[i].image.wf(),
            distinct(old(self).files@),
            old(self).model() == action.applied(applied_all(old(self).changes@, old(self).base@)),
        ensures
            final(self).wf(),
            final(self).model() == old(self).model(),
            final(self).base == old(self).base,
            final(self).changes@ == old(self).changes@.push(StorageChange { operation, action }),
    {
        let ghost before = self.changes@;
        let change = StorageChange { operation, action };
        proof {
            applied_push(before, change, self.base@);
        }
        self.changes.push(change);
    }
}

/// The list with the image at one place replaced stands for the map with that file replaced.
proof fn replace_image(before: Seq<StoredFile>, after: Seq<StoredFile>, at: int)
    requires
        distinct(before),
        0 <= at < before.len(),
        after.len() == before.len(),
        after[at].file == before[at].file,
        forall|i: int| #![trigger after[i]] 0 <= i < before.len() && i != at ==> after[i] == before[i],
    ensures
        distinct(after),
        files_model(after) == files_model(before).insert(
            before[at].file,
            after[at].image.model(),
        ),
{
    assert forall|i: int, j: int|
        #![trigger after[i], after[j]]
        0 <= i < after.len() && 0 <= j < after.len() && i != j implies after[i].file
        != after[j].file by {
        assert(before[i].file != before[j].file);
    }
    assert forall|file: ArchiveFile| #[trigger] files_model(after).contains_key(file)
        <==> files_model(before).insert(before[at].file, after[at].image.model()).contains_key(
        file,
    ) by {
        if files_model(after).contains_key(file) {
            let i = position(after, file);
            assert(is_at(after, file, i));
            assert(is_at(before, file, i));
        }
        if files_model(before).contains_key(file) {
            let i = position(before, file);
            assert(is_at(before, file, i));
            assert(is_at(after, file, i));
        }
        assert(is_at(after, before[at].file, at));
    }
    assert forall|file: ArchiveFile| files_model(after).contains_key(file) implies files_model(
        after,
    )[file] == files_model(before).insert(before[at].file, after[at].image.model())[file] by {
        let i = position(after, file);
        assert(is_at(after, file, i));
        assert(is_at(before, file, i));
        let k = position(before, file);
        assert(is_at(before, file, k));
        assert(i == k) by {
            if i != k {
                assert(before[i].file != before[k].file);
            }
        }
    }
    assert(files_model(after) =~= files_model(before).insert(
        before[at].file,
        after[at].image.model(),
    ));
}

/// The list with a new file at its end stands for the map with that file.
proof fn push_file(before: Seq<StoredFile>, added: StoredFile)
    requires
        distinct(before),
        !files_model(before).contains_key(added.file),
    ensures
        distinct(before.push(added)),
        files_model(before.push(added)) == files_model(before).insert(
            added.file,
            added.image.model(),
        ),
{
    let after = before.push(added);
    assert forall|i: int| 0 <= i < before.len() implies #[trigger] before[i].file
        != added.file by {
        if before[i].file == added.file {
            assert(is_at(before, added.file, i));
        }
    }
    assert forall|i: int, j: int|
        #![trigger after[i], after[j]]
        0 <= i < after.len() && 0 <= j < after.len() && i != j implies after[i].file
        != after[j].file by {
        if i < before.len() && j < before.len() {
            assert(before[i].file != before[j].file);
        }
    }
    assert forall|file: ArchiveFile| #[trigger] files_model(after).contains_key(file)
        <==> files_model(before).insert(added.file, added.image.model()).contains_key(file) by {
        if files_model(after).contains_key(file) {
            let i = position(after, file);
            assert(is_at(after, file, i));
            if i < before.len() {
                assert(is_at(before, file, i));
            }
        }
        if files_model(before).contains_key(file) {
            let i = position(before, file);
            assert(is_at(before, file, i));
            assert(is_at(after, file, i));
        }
        assert(is_at(after, added.file, before.len() as int));
    }
    assert forall|file: ArchiveFile| files_model(after).contains_key(file) implies files_model(
        after,
    )[file] == files_model(before).insert(added.file, added.image.model())[file] by {
        let i = position(after, file);
        assert(is_at(after, file, i));
        if i < before.len() {
            assert(is_at(before, file, i));
            let k = position(before, file);
            assert(is_at(before, file, k));
            if i != k {
                assert(before[i].file != before[k].file);
            }
        }
    }
    assert(files_model(after) =~= files_model(before).insert(added.file, added.image.model()));
}

/// The list without one place stands for the map without that file.
proof fn remove_file(before: Seq<StoredFile>, at: int)
    requires
        distinct(before),
        0 <= at < before.len(),
    ensures
        distinct(before.remove(at)),
        files_model(before.remove(at)) == files_model(before).remove(before[at].file),
{
    let after = before.remove(at);
    let gone = before[at].file;
    assert forall|i: int, j: int|
        #![trigger after[i], after[j]]
        0 <= i < after.len() && 0 <= j < after.len() && i != j implies after[i].file
        != after[j].file by {
        let i0 = if i < at { i } else { i + 1 };
        let j0 = if j < at { j } else { j + 1 };
        assert(before[i0].file != before[j0].file);
    }
    assert forall|file: ArchiveFile| #[trigger] files_model(after).contains_key(file)
        <==> files_model(before).remove(gone).contains_key(file) by {
        if files_model(after).contains_key(file) {
            let i = position(after, file);
            assert(is_at(after, file, i));
            let i0 = if i < at { i } else { i + 1 };
            assert(is_at(before, file, i0));
            assert(before[i0].file != before[at].file);
        }
        if files_model(before).contains_key(file) && file != gone {
            let i = position(before, file);
            assert(is_at(before, file, i));
            let i1 = if i < at { i } else { i - 1 };
            assert(is_at(after, file, i1));
        }
    }
    assert forall|file: ArchiveFile| files_model(after).contains_key(file) implies files_model(
        after,
    )[file] == files_model(before).remove(gone)[file] by {
        let i = position(after, file);
        assert(is_at(after, file, i));
        let i0 = if i < at { i } else { i + 1 };
        assert(is_at(before, file, i0));
        let k = position(before, file);
        assert(is_at(before, file, k));
        if i0 != k {
            assert(before[i0].file != before[k].file);
        }
    }
    assert(files_model(after) =~= files_model(before).remove(gone));
}

/// One more change is applied last.
proof fn applied_push(changes: Seq<StorageChange>, change: StorageChange, store: StoreModel)
    ensures
        applied_all(changes.push(change), store) == change.action.applied(
            applied_all(changes, store),
        ),
{
    assert(changes.push(change).drop_last() =~= changes);
}

/// The files and directories of an archive, and the changes made to them.
pub struct ArchiveStore {
    content: StoreContent,
}

impl View for ArchiveStore {
    type V = StoreModel;

    closed spec fn view(&self) -> StoreModel {
        self.content.model()
    }
}

impl ArchiveStore {
    #[verifier::type_invariant]
    spec fn inv(self) -> bool {
        self.content.wf()
    }

    /// The store as it was when the changes noted since then began.
    pub closed spec fn base(self) -> StoreModel {
        self.content.base@
    }

    /// The changes noted since the base.
    pub closed spec fn noted(self) -> Seq<StorageChange> {
        self.content.changes@
    }

    /// A store with no file and no directory.
    pub fn new() -> (store: ArchiveStore)
        ensures
            store@ == StoreModel::empty(),
            store.base() == StoreModel::empty(),
            store.noted().len() == 0,
    {
        ArchiveStore { content: StoreContent::empty() }
    }

    /// Tells whether a file is there.
    pub fn contains(&self, file: ArchiveFile) -> (there: bool)
        ensures
            there == self@.has(file),
    {
        proof {
            use_type_invariant(self);
        }
        self.content.find(file).is_some()
    }

    /// Tells whether a directory is there.
    pub fn directory_exists(&self, directory: ArchiveDirectory) -> (there: bool)
        ensures
            there == self@.directories.contains(directory),
    {
        let n: usize = self.content.directories.len();
        for i in 0..n
            invariant
                n == self.content.directories@.len(),
                forall|j: int| 0 <= j < i ==> self.content.directories@[j] != directory,
        {
            if self.content.directories[i] == directory {
                return true;
            }
        }
        false
    }

    /// The length of a file, if it is there.
    pub fn file_len(&self, file: ArchiveFile) -> (len: Option<u64>)
        ensures
            match len {
                Some(n) => self@.has(file) && self@.bytes(file).len() == n && n <= MAX_FILE_LEN,
                None => !self@.has(file),
            },
    {
        proof {
            use_type_invariant(self);
        }
        match self.content.find(file) {
            Some(i) => Some(self.content.files[i].image.len),
            None => None,
        }
    }

    /// Reads `n` bytes at `offset`.
    pub fn read(&self, file: ArchiveFile, offset: u64, n: usize) -> (result: Result<
        Vec<u8>,
        IoFault,
    >)
        ensures
            match result {
                Ok(bytes) => self@.read(file, offset, n as nat) == Ok::<Seq<u8>, IoFault>(bytes@),
                Err(fault) => self@.read(file, offset, n as nat) == Err::<Seq<u8>, IoFault>(fault),
            },
    {
        proof {
            use_type_invariant(self);
        }
        match self.content.find(file) {
            Some(i) => {
                let image = &self.content.files[i].image;
                if offset > image.len || n as u64 > image.len - offset {
                    return Err(IoFault::UnexpectedEnd);
                }
                Ok(image.read(offset, n))
            },
            None => Err(IoFault::NotFound),
        }
    }

    /// Reads a whole file.
    pub fn read_all(&self, file: ArchiveFile) -> (result: Result<Vec<u8>, IoFault>)
        ensures
            match result {
                Ok(bytes) => self@.has(file) && bytes@ == self@.bytes(file) && bytes@.len()
                    <= MAX_FILE_LEN,
                Err(fault) => !self@.has(file) && fault == IoFault::NotFound,
            },
    {
        proof {
            use_type_invariant(self);
        }
        match self.content.find(file) {
            Some(i) => {
                let image = &self.content.files[i].image;
                Ok(image.read_all())
            },
            None => Err(IoFault::NotFound),
        }
    }

    /// The files that are there.
    pub fn files(&self) -> (list: Vec<ArchiveFile>)
        ensures
            list@.no_duplicates(),
            forall|file: ArchiveFile| #[trigger] self@.has(file) <==> list@.contains(file),
    {
        proof {
            use_type_invariant(self);
        }
        let mut list: Vec<ArchiveFile> = Vec::new();
        let n: usize = self.content.files.len();
        for i in 0..n
            invariant
                n == self.content.files@.len(),
                list@.len() == i,
                forall|j: int| #![trigger list@[j]] 0 <= j < i ==> list@[j] == self.content.files@[j].file,
        {
            list.push(self.content.files[i].file);
        }
        assert forall|file: ArchiveFile| #[trigger] self@.has(file) <==> list@.contains(file) by {
            if self@.has(file) {
                let k = position(self.content.files@, file);
                assert(is_at(self.content.files@, file, k));
                assert(list@[k] == file);
            }
            if list@.contains(file) {
                let k = choose|k: int| 0 <= k < list@.len() && list@[k] == file;
                assert(is_at(self.content.files@, file, k));
            }
        }
        assert(list@.no_duplicates()) by {
            assert forall|i: int, j: int|
                0 <= i < list@.len() && 0 <= j < list@.len() && i != j implies list@[i]
                != list@[j] by {
                assert(self.content.files@[i].file != self.content.files@[j].file);
            }
        }
        list
    }

    /// Creates an empty file, unless it is there already.
    pub fn create_new(&mut self, file: ArchiveFile, operation: &'static str) -> (result: Result<
        (),
        IoFault,
    >)
        ensures
            final(self).base() == old(self).base(),
            result == (if old(self)@.has(file) {
                Err::<(), IoFault>(IoFault::AlreadyExists)
            } else {
                Ok(())
            }),
            final(self)@ == (if old(self)@.has(file) {
                old(self)@
            } else {
                old(self)@.with_empty(file)
            }),
    {
        proof {
            use_type_invariant(&*self);
        }
        if self.content.find(file).is_some() {
            return Err(IoFault::AlreadyExists);
        }
        let mut content = StoreContent::empty();
        std::mem::swap(&mut self.content, &mut content);
        let ghost before = content.model();
        let added = StoredFile { file, image: FileImage::empty() };
        proof {
            push_file(content.files@, added);
        }
        content.files.push(added);
        assert(content.model() =~= before.with_empty(file));
        content.note(operation, StorageAction::CreateNew { file });
        self.content = content;
        Ok(())
    }

    /// Creates a file, or empties the one that is there.
    pub fn create_or_truncate(&mut self, file: ArchiveFile, operation: &'static str)
        ensures
            final(self).base() == old(self).base(),
            final(self)@ == old(self)@.with_empty(file),
    {
        proof {
            use_type_invariant(&*self);
        }
        let found = self.content.find(file);
        let mut content = StoreContent::empty();
        std::mem::swap(&mut self.content, &mut content);
        let ghost before = content.model();
        let ghost list = content.files@;
        match found {
            Some(i) => {
                content.files[i] = StoredFile { file, image: FileImage::empty() };
                proof {
                    replace_image(list, content.files@, i as int);
                }
            },
            None => {
                let added = StoredFile { file, image: FileImage::empty() };
                proof {
                    push_file(list, added);
                }
                content.files.push(added);
            },
        }
        assert(content.model() =~= before.with_empty(file));
        content.note(operation, StorageAction::CreateOrTruncate { file });
        self.content = content;
    }

    /// Writes bytes at `offset`.
    pub fn write_at(
        &mut self,
        file: ArchiveFile,
        offset: u64,
        data: &[u8],
        operation: &'static str,
    ) -> (result: Result<(), IoFault>)
        ensures
            final(self).base() == old(self).base(),
            match old(self)@.write_fault(file, offset, data@.len()) {
                Some(fault) => result == Err::<(), IoFault>(fault) && final(self)@ == old(self)@,
                None => result == Ok::<(), IoFault>(()) && final(self)@ == old(self)@.written(
                    file,
                    offset,
                    data@,
                ),
            },
    {
        proof {
            use_type_invariant(&*self);
        }
        let i: usize = match self.content.find(file) {
            Some(i) => i,
            None => {
                return Err(IoFault::NotFound);
            },
        };
        if offset > MAX_FILE_LEN || data.len() as u64 > MAX_FILE_LEN - offset {
            return Err(IoFault::Os(FILE_TOO_LARGE));
        }
        let mut content = StoreContent::empty();
        std::mem::swap(&mut self.content, &mut content);
        let ghost before = content.model();
        let ghost list = content.files@;
        content.files[i].image.write(offset, data);
        proof {
            replace_image(list, content.files@, i as int);
        }
        let mut copy: Vec<u8> = Vec::new();
        crate::bytes::push_slice(&mut copy, data);
        assert(copy@ =~= data@);
        assert(content.model() =~= before.written(file, offset, data@));
        content.note(operation, StorageAction::WriteAt { file, offset, data: copy });
        self.content = content;
        Ok(())
    }

    /// Sets the length of a file.
    pub fn set_len(&mut self, file: ArchiveFile, len: u64, operation: &'static str) -> (result:
        Result<(), IoFault>)
        ensures
            final(self).base() == old(self).base(),
            match old(self)@.resize_fault(file, len) {
                Some(fault) => result == Err::<(), IoFault>(fault) && final(self)@ == old(self)@,
                None => result == Ok::<(), IoFault>(()) && final(self)@ == old(self)@.with_len(
                    file,
                    len,
                ),
            },
    {
        proof {
            use_type_invariant(&*self);
        }
        let i: usize = match self.content.find(file) {
            Some(i) => i,
            None => {
                return Err(IoFault::NotFound);
            },
        };
        if len > MAX_FILE_LEN {
            return Err(IoFault::Os(FILE_TOO_LARGE));
        }
        let mut content = StoreContent::empty();
        std::mem::swap(&mut self.content, &mut content);
        let ghost before = content.model();
        let ghost list = content.files@;
        content.files[i].image.resize(len);
        proof {
            replace_image(list, content.files@, i as int);
        }
        assert(content.model() =~= before.with_len(file, len));
        content.note(operation, StorageAction::SetLen { file, len });
        self.content = content;
        Ok(())
    }

    /// Makes the bytes of a file durable.
    pub fn sync_data(&mut self, file: ArchiveFile, operation: &'static str) -> (result: Result<
        (),
        IoFault,
    >)
        ensures
            final(self).base() == old(self).base(),
            result == (if old(self)@.has(file) {
                Ok::<(), IoFault>(())
            } else {
                Err(IoFault::NotFound)
            }),
            final(self)@ == (if old(self)@.has(file) {
                old(self)@.synced(file)
            } else {
                old(self)@
            }),
    {
        proof {
            use_type_invariant(&*self);
        }
        let i: usize = match self.content.find(file) {
            Some(i) => i,
            None => {
                return Err(IoFault::NotFound);
            },
        };
        let mut content = StoreContent::empty();
        std::mem::swap(&mut self.content, &mut content);
        let ghost before = content.model();
        let ghost list = content.files@;
        let ghost bytes = content.files@[i as int].image.content();
        content.files[i].image.synced = Ghost(bytes);
        proof {
            replace_image(list, content.files@, i as int);
        }
        assert(content.model() =~= before.synced(file));
        content.note(operation, StorageAction::SyncData { file });
        self.content = content;
        Ok(())
    }

    /// Moves a file, replacing what is at the other place.
    pub fn rename(
        &mut self,
        from: ArchiveFile,
        to: ArchiveFile,
        operation: &'static str,
    ) -> (result: Result<(), IoFault>)
        requires
            from != to,
        ensures
            final(self).base() == old(self).base(),
            result == (if old(self)@.has(from) {
                Ok::<(), IoFault>(())
            } else {
                Err(IoFault::NotFound)
            }),
            final(self)@ == (if old(self)@.has(from) {
                old(self)@.moved(from, to)
            } else {
                old(self)@
            }),
    {
        proof {
            use_type_invariant(&*self);
        }
        let i: usize = match self.content.find(from) {
            Some(i) => i,
            None => {
                return Err(IoFault::NotFound);
            },
        };
        let mut content = StoreContent::empty();
        std::mem::swap(&mut self.content, &mut content);
        let ghost before = content.model();
        proof {
            remove_file(content.files@, i as int);
        }
        let ghost listed = content.files@;
        let taken = content.files.remove(i);
        let ghost rest = content.files@;
        assert(rest =~= listed.remove(i as int));
        assert forall|k: int| 0 <= k < rest.len() implies #[trigger] rest[k].image.wf() by {
            assert(rest[k] == listed[if k < i { k } else { k + 1 }]);
        }
        assert(taken.image.wf());
        let added = StoredFile { file: to, image: taken.image };
        let n: usize = content.files.len();
        let mut at: Option<usize> = None;
        for k in 0..n
            invariant
                n == content.files@.len(),
                content.files@ == rest,
                match at {
                    Some(p) => p < n && is_at(rest, to, p as int),
                    None => forall|j: int|
                        #![trigger rest[j]]
                        0 <= j < k ==> rest[j].file != to,
                },
        {
            if content.files[k].file == to {
                at = Some(k);
            }
        }
        match at {
            Some(p) => {
                content.files[p] = added;
                proof {
                    replace_image(rest, content.files@, p as int);
                }
            },
            None => {
                proof {
                    assert(!files_model(rest).contains_key(to)) by {
                        if files_model(rest).contains_key(to) {
                            assert(is_at(rest, to, position(rest, to)));
                        }
                    }
                    push_file(rest, added);
                }
                content.files.push(added);
            },
        }
        assert(content.model() =~= before.moved(from, to));
        content.note(operation, StorageAction::Rename { from, to });
        self.content = content;
        Ok(())
    }

    /// Removes a file, if it is there.
    pub fn remove(&mut self, file: ArchiveFile, operation: &'static str) -> (removed: bool)
        ensures
            final(self).base() == old(self).base(),
            removed == old(self)@.has(file),
            final(self)@ == (if old(self)@.has(file) {
                old(self)@.without(file)
            } else {
                old(self)@
            }),
    {
        proof {
            use_type_invariant(&*self);
        }
        let i: usize = match self.content.find(file) {
            Some(i) => i,
            None => {
                return false;
            },
        };
        let mut content = StoreContent::empty();
        std::mem::swap(&mut self.content, &mut content);
        let ghost before = content.model();
        proof {
            remove_file(content.files@, i as int);
        }
        let ghost listed = content.files@;
        let _ = content.files.remove(i);
        let ghost rest = content.files@;
        assert(rest =~= listed.remove(i as int));
        assert forall|k: int| 0 <= k < rest.len() implies #[trigger] rest[k].image.wf() by {
            assert(rest[k] == listed[if k < i { k } else { k + 1 }]);
        }
        assert(content.model() =~= before.without(file));
        content.note(operation, StorageAction::Remove { file });
        self.content = content;
        true
    }

    /// Creates a directory, unless it is there already.
    pub fn create_directory(&mut self, directory: ArchiveDirectory, operation: &'static str)
        ensures
            final(self).base() == old(self).base(),
            final(self)@ == old(self)@.with_directory(directory),
    {
        proof {
            use_type_invariant(&*self);
        }
        let mut content = StoreContent::empty();
        std::mem::swap(&mut self.content, &mut content);
        let ghost before = content.model();
        let ghost listed = content.directories@;
        content.directories.push(directory);
        proof {
            assert(content.directories@.to_set() =~= listed.to_set().insert(directory)) by {
                assert forall|d: ArchiveDirectory|
                    #[trigger] content.directories@.to_set().contains(d)
                    <==> listed.to_set().insert(directory).contains(d) by {
                    if listed.contains(d) {
                        let k = choose|k: int| 0 <= k < listed.len() && listed[k] == d;
                        assert(content.directories@[k] == d);
                    }
                    if d == directory {
                        assert(content.directories@[listed.len() as int] == d);
                    }
                    assert(content.directories@.contains(d) <==> listed.contains(d) || d
                        == directory);
                }
            }
        }
        assert(content.model() =~= before.with_directory(directory));
        content.note(operation, StorageAction::CreateDirectory { directory });
        self.content = content;
    }

    /// Hands out the changes noted so far. Carried out in order on what the store was at its
    /// base, they give what the store is now.
    pub fn take_changes(&mut self) -> (changes: Vec<StorageChange>)
        ensures
            final(self)@ == old(self)@,
            changes@ == old(self).noted(),
            applied_all(changes@, old(self).base()) == old(self)@,
            final(self).noted().len() == 0,
            final(self).base() == old(self)@,
    {
        proof {
            use_type_invariant(&*self);
        }
        let mut content = StoreContent::empty();
        std::mem::swap(&mut self.content, &mut content);
        let mut changes: Vec<StorageChange> = Vec::new();
        std::mem::swap(&mut content.changes, &mut changes);
        let ghost now = content.model();
        content.base = Ghost(now);
        self.content = content;
        changes
    }

    /// Puts a file into the store as it was found, without noting a change.
    pub fn load_file(&mut self, file: ArchiveFile, bytes: &[u8])
        requires
            old(self).noted().len() == 0,
            bytes@.len() <= MAX_FILE_LEN,
        ensures
            final(self).noted().len() == 0,
            final(self).base() == final(self)@,
            final(self)@ == (StoreModel {
                files: old(self)@.files.insert(file, FileModel { bytes: bytes@, synced: bytes@ }),
                ..old(self)@
            }),
    {
        self.create_or_truncate(file, "load file");
        let _ = self.write_at(file, 0, bytes, "load file");
        let _ = self.sync_data(file, "load file");
        let _ = self.take_changes();
        proof {
            assert(overwritten(Seq::empty(), 0, bytes@) =~= bytes@);
            assert(self@ =~= (StoreModel {
                files: old(self)@.files.insert(file, FileModel { bytes: bytes@, synced: bytes@ }),
                ..old(self)@
            }));
        }
    }

    /// Puts a directory into the store as it was found, without noting a change.
    pub fn load_directory(&mut self, directory: ArchiveDirectory)
        requires
            old(self).noted().len() == 0,
        ensures
            final(self).noted().len() == 0,
            final(self).base() == final(self)@,
            final(self)@ == old(self)@.with_directory(directory),
    {
        self.create_directory(directory, "load directory");
        let _ = self.take_changes();
    }
}

} // verus!
