//! The in-memory file cache: one complete snapshot of a directory tree, how
//! it is built from what was read, and how it is replaced.

use vstd::prelude::*;
use vstd::slice::{slice_subrange, slice_to_vec};
use std::sync::Arc;
use ahash::AHashMap;
use crate::outside::{gzip_best, gzip_compress, regex_is_match, regex_matches, regex_valid};
use crate::path::{
    components, extension, lemma_normal_form_by_components, lemma_normal_form_keeps_components, normal_form,
    normalize, spec_extension,
};
use crate::helper::{get_mime_from_ext, should_send_file, spec_mime, spec_should_send};
use crate::response::{Response, ResponseView};
use crate::table::{table_entries, table_get, table_insert, table_len, table_new};
use crate::text::{as_opt_str, clone_text, decimal, decimal_string, str_of, text_of};

verus! {

/// One file as it is held in memory. A value never changes once it is built:
/// new content means a new value.
pub struct FileCache {
    buffer: Arc<Vec<u8>>,
    gzipped: bool,
    file_ext: Option<String>,
    mtime: String,
    cache_forever: bool,
}

/// What a `FileCache` stands for.
pub struct FileCacheView {
    /// The stored bytes: gzip where `is_compressed`, else the file as read.
    pub content: Seq<u8>,
    pub is_compressed: bool,
    /// The file's extension, without its dot.
    pub extension: Option<Seq<char>>,
    /// The validation token: the modification time in seconds, in decimal.
    pub tag: Seq<char>,
    pub is_immutable: bool,
}

impl View for FileCache {
    type V = FileCacheView;

    closed spec fn view(&self) -> FileCacheView {
        FileCacheView {
            content: self.buffer@,
            is_compressed: self.gzipped,
            extension: text_of(self.file_ext),
            tag: self.mtime@,
            is_immutable: self.cache_forever,
        }
    }
}

/// What reading one file gave.
pub struct RawFile {
    pub content: Vec<u8>,
    /// The modification time in whole seconds since the epoch, where the
    /// file system gave one at or after the epoch.
    pub modified_secs: Option<u64>,
}

/// The bytes to store for a file: the packed form where it is the shorter
/// one, else the file as read.
pub open spec fn spec_stored(raw: Seq<u8>, packed: Seq<u8>) -> (bool, Seq<u8>) {
    if packed.len() < raw.len() {
        (true, packed)
    } else {
        (false, raw)
    }
}

/// Whether `pattern` can be used: there is none, or it is a regular
/// expression.
pub open spec fn spec_pattern_is_valid(pattern: Option<Seq<char>>) -> bool {
    match pattern {
        Some(p) => regex_valid(p),
        None => true,
    }
}

/// Whether a file at `path` is to be cached forever under `pattern`: where
/// there is a pattern, it is a regular expression, and it matches the path.
pub open spec fn spec_immutable(pattern: Option<Seq<char>>, path: Seq<char>) -> bool {
    match pattern {
        Some(p) => regex_valid(p) && regex_matches(p, path),
        None => false,
    }
}

/// The entry for the file at `path`, given what was read and its packed form.
pub open spec fn spec_assemble(
    path: Seq<char>,
    raw: Seq<u8>,
    packed: Seq<u8>,
    modified_secs: u64,
    immutable: bool,
) -> FileCacheView {
    FileCacheView {
        content: spec_stored(raw, packed).1,
        is_compressed: spec_stored(raw, packed).0,
        extension: spec_extension(path),
        tag: decimal(modified_secs as nat),
        is_immutable: immutable,
    }
}

/// The entry for the file at `path`, or `None` where the pattern cannot be
/// used, or the file was not read, has no usable modification time, or
/// cannot be packed.
pub open spec fn spec_entry(path: Seq<char>, file: Option<RawFile>, pattern: Option<Seq<char>>) -> Option<
    FileCacheView,
> {
    match file {
        Some(raw) => match (raw.modified_secs, gzip_best(raw.content@)) {
            (Some(secs), Some(packed)) => if spec_pattern_is_valid(pattern) {
                Some(spec_assemble(path, raw.content@, packed, secs, spec_immutable(pattern, path)))
            } else {
                None
            },
            _ => None,
        },
        None => None,
    }
}

/// Whether the pattern matches `path`, or `None` where the pattern cannot
/// be used. No pattern matches nothing.
pub open spec fn spec_matches_immutable(pattern: Option<Seq<char>>, path: Seq<char>) -> Option<bool> {
    if spec_pattern_is_valid(pattern) {
        Some(spec_immutable(pattern, path))
    } else {
        None
    }
}

/// The view of an optional entry.
pub open spec fn entry_of(e: Option<FileCache>) -> Option<FileCacheView> {
    match e {
        Some(f) => Some(f@),
        None => None,
    }
}

impl FileCache {
    /// Builds the entry for the file at `file_path` from its bytes as read
    /// and as packed, keeping whichever is shorter.
    pub fn assemble(file_path: &str, raw: &Vec<u8>, packed: Vec<u8>, modified_secs: u64, immutable: bool) -> (entry:
        FileCache)
        ensures
            entry@ == spec_assemble(file_path@, raw@, packed@, modified_secs, immutable),
    {
        let gzipped = packed.len() < raw.len();
        let buffer = if gzipped {
            packed
        } else {
            slice_to_vec(raw.as_slice())
        };
        FileCache {
            buffer: Arc::new(buffer),
            gzipped,
            file_ext: extension(file_path),
            mtime: decimal_string(modified_secs),
            cache_forever: immutable,
        }
    }

    /// The stored bytes.
    pub fn content(&self) -> (bytes: &[u8])
        ensures
            bytes@ == self@.content,
    {
        self.buffer.as_slice()
    }

    /// Whether the stored bytes are a gzip stream.
    pub fn is_compressed(&self) -> (b: bool)
        ensures
            b == self@.is_compressed,
    {
        self.gzipped
    }

    /// The extension of the file's name, where it has one.
    pub fn extension(&self) -> (ext: Option<&str>)
        ensures
            match ext {
                Some(e) => self@.extension == Some(e@),
                None => self@.extension is None,
            },
    {
        match &self.file_ext {
            Some(e) => Some(e.as_str()),
            None => None,
        }
    }

    /// The validation token.
    pub fn last_modified_tag(&self) -> (tag: &str)
        ensures
            tag@ == self@.tag,
    {
        self.mtime.as_str()
    }

    /// Whether the file may be cached forever.
    pub fn is_immutable(&self) -> (b: bool)
        ensures
            b == self@.is_immutable,
    {
        self.cache_forever
    }
}

/// Tells whether `pattern` can be used: whether there is none, or it is a
/// regular expression.
pub fn pattern_is_valid(pattern: Option<&str>) -> (valid: bool)
    ensures
        valid == spec_pattern_is_valid(str_of(pattern)),
{
    match pattern {
        Some(p) => regex_is_match(p, "").is_some(),
        None => true,
    }
}

/// Tells whether a file at `path` is to be cached forever: whether there is
/// a pattern and it matches `path`. `None` where the pattern is no regular
/// expression.
pub fn matches_immutable(pattern: Option<&str>, path: &str) -> (matched: Option<bool>)
    ensures
        matched == spec_matches_immutable(str_of(pattern), path@),
{
    match pattern {
        Some(p) => regex_is_match(p, path),
        None => Some(false),
    }
}

/// Builds the entry for the file at `file_path` from what reading it gave:
/// tests the path against the pattern of files to cache forever, packs the
/// bytes, and keeps the shorter form.
pub fn read_file(file_path: &str, file: &Option<RawFile>, pattern: Option<&str>) -> (entry: Option<FileCache>)
    ensures
        entry_of(entry) == spec_entry(file_path@, *file, str_of(pattern)),
{
    match file {
        Some(raw) => match raw.modified_secs {
            Some(secs) => match matches_immutable(pattern, file_path) {
                Some(immutable) => match gzip_compress(&raw.content) {
                    Some(packed) => Some(FileCache::assemble(file_path, &raw.content, packed, secs, immutable)),
                    None => None,
                },
                None => None,
            },
            None => None,
        },
        None => None,
    }
}

/// What a walk found at one place in a directory.
pub enum DirEntry {
    /// A regular file, with what reading it gave, if anything.
    File { path: String, file: Option<RawFile> },
    /// A directory, with what it holds where it could be listed.
    Directory { entries: Option<Vec<DirEntry>> },
    /// Something that is neither a file nor a directory.
    Other,
    /// An entry that could not be examined.
    Failed,
}

/// The entries that a table stands for.
pub open spec fn table_view(table: AHashMap<Vec<char>, FileCache>) -> Map<Seq<char>, FileCacheView> {
    Map::new(|k: Seq<char>| table_entries(table).contains_key(k), |k: Seq<char>| table_entries(table)[k]@)
}

/// `acc` with every file of `entries` added in order, a later file taking
/// the place of an earlier one with the same normal form.
pub open spec fn spec_collect(
    entries: Seq<DirEntry>,
    pattern: Option<Seq<char>>,
    acc: Map<Seq<char>, FileCacheView>,
) -> Map<Seq<char>, FileCacheView>
    decreases entries,
{
    if entries.len() == 0 {
        acc
    } else {
        spec_collect_one(entries.last(), pattern, spec_collect(entries.drop_last(), pattern, acc))
    }
}

/// `acc` with what one entry of a walk contributes: a file that gives an
/// entry is added under the normal form of its path, a directory that could
/// be listed contributes what it holds, and anything else contributes nothing.
pub open spec fn spec_collect_one(
    entry: DirEntry,
    pattern: Option<Seq<char>>,
    acc: Map<Seq<char>, FileCacheView>,
) -> Map<Seq<char>, FileCacheView>
    decreases entry,
{
    match entry {
        DirEntry::File { path, file } => match spec_entry(path@, file, pattern) {
            Some(built) => acc.insert(normal_form(path@), built),
            None => acc,
        },
        DirEntry::Directory { entries: Some(below) } => spec_collect(below@, pattern, acc),
        _ => acc,
    }
}

/// Adds the files of a walk to `table`, directory by directory.
fn loop_read_dir(entries: &Vec<DirEntry>, table: &mut AHashMap<Vec<char>, FileCache>, pattern: Option<&str>)
    requires
        table_entries(*old(table)).dom().finite(),
    ensures
        table_entries(*final(table)).dom().finite(),
        table_view(*final(table)) == spec_collect(entries@, str_of(pattern), table_view(*old(table))),
    decreases entries@,
{
    let mut i: usize = 0;
    while i < entries.len()
        invariant
            i <= entries.len(),
            table_entries(*table).dom().finite(),
            table_view(*table) == spec_collect(
                entries@.take(i as int),
                str_of(pattern),
                table_view(*old(table)),
            ),
        decreases entries.len() - i,
    {
        let ghost before = table_view(*table);
        assert(entries@.take(i as int + 1).drop_last() =~= entries@.take(i as int));
        assert(entries@.take(i as int + 1).last() == entries@[i as int]);
        match &entries[i] {
            DirEntry::File { path, file } => {
                match read_file(path.as_str(), file, pattern) {
                    Some(built) => {
                        let key = normalize(path.as_str());
                        let ghost shown = built@;
                        table_insert(table, key, built);
                        assert(table_view(*table) =~= before.insert(normal_form(path@), shown));
                    },
                    None => {},
                }
            },
            DirEntry::Directory { entries: Some(below) } => {
                loop_read_dir(below, table, pattern);
            },
            _ => {},
        }
        assert(table_view(*table) == spec_collect_one(entries@[i as int], str_of(pattern), before));
        i += 1;
    }
    assert(entries@.take(i as int) =~= entries@);
}

/// A cursor over the bytes of one entry. It shares the entry's buffer and
/// copies nothing.
pub struct FileCacheReader {
    buffer: Arc<Vec<u8>>,
    bytes_read: usize,
}

/// What a `FileCacheReader` stands for.
pub struct ReaderView {
    /// All the bytes of the entry.
    pub content: Seq<u8>,
    /// How many of them have been read.
    pub position: nat,
}

impl ReaderView {
    /// The bytes that are still to be read.
    pub open spec fn rest(self) -> Seq<u8> {
        self.content.skip(self.position as int)
    }
}

impl View for FileCacheReader {
    type V = ReaderView;

    closed spec fn view(&self) -> ReaderView {
        ReaderView { content: self.buffer@, position: self.bytes_read as nat }
    }
}

impl FileCache {
    /// A reader at the start of the stored bytes.
    pub fn to_reader(&self) -> (reader: FileCacheReader)
        ensures
            reader@ == (ReaderView { content: self@.content, position: 0 }),
    {
        FileCacheReader { buffer: self.buffer.clone(), bytes_read: 0 }
    }
}

impl FileCacheReader {
    #[verifier::type_invariant]
    spec fn within(&self) -> bool {
        self.bytes_read <= self.buffer@.len()
    }

    /// How many bytes are still to be read.
    pub fn remaining(&self) -> (n: usize)
        ensures
            self@.position <= self@.content.len(),
            n == self@.content.len() - self@.position,
    {
        proof {
            use_type_invariant(self);
        }
        self.buffer.len() - self.bytes_read
    }

    /// The bytes that are still to be read.
    pub fn poll_fill_buf(&self) -> (rest: &[u8])
        ensures
            rest@ == self@.rest(),
    {
        proof {
            use_type_invariant(self);
        }
        slice_subrange(self.buffer.as_slice(), self.bytes_read, self.buffer.len())
    }

    /// Marks `amt` more bytes as read.
    pub fn consume(&mut self, amt: usize)
        requires
            old(self)@.position + amt <= old(self)@.content.len(),
        ensures
            final(self)@ == (ReaderView {
                content: old(self)@.content,
                position: old(self)@.position + amt as nat,
            }),
    {
        let total = self.buffer.len();
        assert(self.bytes_read + amt <= total);
        self.bytes_read = self.bytes_read + amt;
    }

    /// Copies the next bytes to the front of `buf`, as many as `buf` has room
    /// for, marks them as read and returns their number.
    pub fn poll_read(&mut self, buf: &mut [u8]) -> (size: usize)
        ensures
            size == if old(buf)@.len() <= old(self)@.rest().len() {
                old(buf)@.len()
            } else {
                old(self)@.rest().len()
            },
            final(buf)@ == old(self)@.rest().take(size as int) + old(buf)@.skip(size as int),
            final(self)@ == (ReaderView {
                content: old(self)@.content,
                position: old(self)@.position + size as nat,
            }),
    {
        proof {
            use_type_invariant(&*self);
        }
        let total = self.buffer.len();
        let left = total - self.bytes_read;
        let room = buf.len();
        let size = if room <= left {
            room
        } else {
            left
        };
        let start = self.bytes_read;
        let mut i: usize = 0;
        while i < size
            invariant
                i <= size <= room == buf@.len(),
                room == old(buf)@.len(),
                start + size <= total == self.buffer@.len(),
                start == self.bytes_read,
                self.buffer == old(self).buffer,
                self.bytes_read == old(self).bytes_read,
                buf@ == self.buffer@.subrange(start as int, start + i) + old(buf)@.skip(i as int),
            decreases size - i,
        {
            let byte = self.buffer[start + i];
            buf[i] = byte;
            assert(buf@ =~= self.buffer@.subrange(start as int, start + i + 1) + old(buf)@.skip(i + 1));
            i += 1;
        }
        assert(self.buffer@.subrange(start as int, start + size) =~= old(self)@.rest().take(size as int));
        self.bytes_read = start + size;
        size
    }
}

/// One complete snapshot of a directory tree, with the configuration that
/// produced it.
pub struct FileCacheStore {
    store: AHashMap<Vec<char>, FileCache>,
    index_file: FileCache,
    index_href: String,
    root_dir: String,
    regex_immutable: Option<String>,
    refreshing: bool,
}

/// What a `FileCacheStore` stands for.
pub struct StoreView {
    /// The cached files, each under the normal form of its path.
    pub entries: Map<Seq<char>, FileCacheView>,
    /// The entry that stands in for paths that lead to no file.
    pub fallback: FileCacheView,
    pub fallback_path: Seq<char>,
    pub root_dir: Seq<char>,
    /// The pattern of the paths whose files are cached forever.
    pub immutable_pattern: Option<Seq<char>>,
    /// Whether a refresh has been started and is not yet finished.
    pub refreshing: bool,
}

impl View for FileCacheStore {
    type V = StoreView;

    closed spec fn view(&self) -> StoreView {
        StoreView {
            entries: table_view(self.store),
            fallback: self.index_file@,
            fallback_path: self.index_href@,
            root_dir: self.root_dir@,
            immutable_pattern: text_of(self.regex_immutable),
            refreshing: self.refreshing,
        }
    }
}

/// A snapshot that has been built and is not yet in use.
pub struct Snapshot {
    entries: AHashMap<Vec<char>, FileCache>,
    fallback: FileCache,
}

/// What a `Snapshot` stands for.
pub struct SnapshotView {
    pub entries: Map<Seq<char>, FileCacheView>,
    pub fallback: FileCacheView,
}

impl View for Snapshot {
    type V = SnapshotView;

    closed spec fn view(&self) -> SnapshotView {
        SnapshotView { entries: table_view(self.entries), fallback: self.fallback@ }
    }
}

impl Snapshot {
    #[verifier::type_invariant]
    spec fn countable(&self) -> bool {
        table_entries(self.entries).dom().finite()
    }
}

/// The view of an optional snapshot.
pub open spec fn snapshot_of(s: Option<Snapshot>) -> Option<SnapshotView> {
    match s {
        Some(built) => Some(built@),
        None => None,
    }
}

/// The snapshot that a walk gives: the fallback entry from its own file and
/// the entries of every file found, or `None` where the fallback gives no
/// entry or the walk could not start.
pub open spec fn spec_snapshot(
    fallback_path: Seq<char>,
    pattern: Option<Seq<char>>,
    fallback: Option<RawFile>,
    tree: Option<Vec<DirEntry>>,
) -> Option<SnapshotView> {
    match (spec_entry(fallback_path, fallback, pattern), tree) {
        (Some(entry), Some(entries)) => Some(
            SnapshotView { entries: spec_collect(entries@, pattern, Map::empty()), fallback: entry },
        ),
        _ => None,
    }
}

/// Builds a snapshot off to the side. The fallback entry is built first, and
/// nothing else is done where that fails.
pub fn build_snapshot(
    fallback_path: &str,
    pattern: Option<&str>,
    fallback: &Option<RawFile>,
    tree: &Option<Vec<DirEntry>>,
) -> (snapshot: Option<Snapshot>)
    ensures
        snapshot_of(snapshot) == spec_snapshot(fallback_path@, str_of(pattern), *fallback, *tree),
{
    match read_file(fallback_path, fallback, pattern) {
        Some(entry) => match tree {
            Some(entries) => {
                let mut table = table_new();
                assert(table_view(table) =~= Map::<Seq<char>, FileCacheView>::empty());
                loop_read_dir(entries, &mut table, pattern);
                Some(Snapshot { entries: table, fallback: entry })
            },
            None => None,
        },
        None => None,
    }
}

/// Why a store could not be loaded.
#[derive(Clone, Copy, Debug, PartialEq, Eq, Structural)]
pub enum LoadError {
    /// The pattern of immutable files is no regular expression.
    InvalidPattern,
    /// The fallback file gave no entry.
    FallbackUnreadable,
    /// The walk of the root directory could not start.
    RootUnreadable,
}

/// The outcome of a lookup.
pub enum Lookup<'a> {
    /// The path leads to this entry.
    Entry(&'a FileCache),
    /// The path leads to no entry, and the fallback entry stands in.
    Fallback(&'a FileCache),
    NotFound,
}

/// What a `Lookup` stands for.
pub enum LookupView {
    Entry(FileCacheView),
    Fallback(FileCacheView),
    NotFound,
}

impl<'a> View for Lookup<'a> {
    type V = LookupView;

    open spec fn view(&self) -> LookupView {
        match *self {
            Lookup::Entry(entry) => LookupView::Entry(entry@),
            Lookup::Fallback(entry) => LookupView::Fallback(entry@),
            Lookup::NotFound => LookupView::NotFound,
        }
    }
}

/// Where `file_path` leads in a store: to the entry under its normal form,
/// else to the fallback entry where that is allowed, else nowhere.
pub open spec fn spec_lookup(store: StoreView, file_path: Seq<char>, fallback_enabled: bool) -> LookupView {
    if store.entries.contains_key(normal_form(file_path)) {
        LookupView::Entry(store.entries[normal_form(file_path)])
    } else if fallback_enabled {
        LookupView::Fallback(store.fallback)
    } else {
        LookupView::NotFound
    }
}

/// The answer for an entry, given the validation token of the request:
/// nothing to send where the token is the entry's tag, else the whole entry.
pub open spec fn spec_reply(entry: FileCacheView, token: Option<Seq<char>>) -> ResponseView {
    if spec_should_send(token, entry.tag) {
        ResponseView::Hit {
            body: entry.content,
            is_compressed: entry.is_compressed,
            is_immutable: entry.is_immutable,
            tag: entry.tag,
            mime: spec_mime(entry.extension),
        }
    } else {
        ResponseView::NotModified
    }
}

/// The answer of a store to a request for `file_path`.
pub open spec fn spec_send_cache_file(
    store: StoreView,
    file_path: Seq<char>,
    token: Option<Seq<char>>,
    fallback_enabled: bool,
) -> ResponseView {
    match spec_lookup(store, file_path, fallback_enabled) {
        LookupView::Entry(entry) => spec_reply(entry, token),
        LookupView::Fallback(entry) => spec_reply(entry, token),
        LookupView::NotFound => ResponseView::NotFound,
    }
}

impl FileCache {
    /// Answers a request for this entry.
    pub fn reply(&self, if_none_match: Option<&str>) -> (response: Response)
        ensures
            response@ == spec_reply(self@, str_of(if_none_match)),
    {
        if should_send_file(if_none_match, self.mtime.as_str()) {
            let body = self.to_reader();
            assert(body@.rest() =~= self@.content);
            Response::Hit {
                body,
                is_compressed: self.gzipped,
                is_immutable: self.cache_forever,
                tag: self.mtime.clone(),
                mime: get_mime_from_ext(as_opt_str(&self.file_ext)),
            }
        } else {
            Response::NotModified
        }
    }
}

impl FileCacheStore {
    #[verifier::type_invariant]
    spec fn sound(&self) -> bool {
        &&& table_entries(self.store).dom().finite()
        &&& spec_pattern_is_valid(text_of(self.regex_immutable))
    }

    /// The number of cached files.
    pub fn len(&self) -> (count: usize)
        ensures
            self@.entries.dom().finite(),
            count == self@.entries.len(),
    {
        proof {
            use_type_invariant(self);
            assert(table_view(self.store).dom() =~= table_entries(self.store).dom());
        }
        table_len(&self.store)
    }

    /// The directory that the snapshot was read from.
    pub fn root_dir(&self) -> (dir: &str)
        ensures
            dir@ == self@.root_dir,
    {
        self.root_dir.as_str()
    }

    /// The path of the fallback file.
    pub fn index_href(&self) -> (path: &str)
        ensures
            path@ == self@.fallback_path,
    {
        self.index_href.as_str()
    }

    /// The pattern of the paths whose files are cached forever, if any. It
    /// is a regular expression.
    pub fn regex_immutable(&self) -> (pattern: Option<&str>)
        ensures
            str_of(pattern) == self@.immutable_pattern,
            spec_pattern_is_valid(self@.immutable_pattern),
    {
        proof {
            use_type_invariant(self);
        }
        as_opt_str(&self.regex_immutable)
    }

    /// Whether a refresh has been started and is not yet finished.
    pub fn is_refreshing(&self) -> (under_way: bool)
        ensures
            under_way == self@.refreshing,
    {
        self.refreshing
    }

    /// Looks `file_path` up: by the exact normal form of the path, with the
    /// fallback entry standing in for a miss where `fallback_enabled`.
    pub fn lookup(&self, file_path: &str, fallback_enabled: bool) -> (found: Lookup<'_>)
        ensures
            found@ == spec_lookup(self@, file_path@, fallback_enabled),
    {
        let key = normalize(file_path);
        match table_get(&self.store, &key) {
            Some(entry) => Lookup::Entry(entry),
            None => {
                if fallback_enabled {
                    Lookup::Fallback(&self.index_file)
                } else {
                    Lookup::NotFound
                }
            },
        }
    }

    /// Puts a snapshot in the place of the current one, in one step, and
    /// returns the number of its entries.
    fn install(&mut self, snapshot: Snapshot) -> (count: usize)
        ensures
            final(self)@ == (StoreView {
                entries: snapshot@.entries,
                fallback: snapshot@.fallback,
                ..old(self)@
            }),
            snapshot@.entries.dom().finite(),
            count == snapshot@.entries.len(),
    {
        proof {
            use_type_invariant(&snapshot);
            use_type_invariant(&*self);
        }
        self.store = snapshot.entries;
        self.index_file = snapshot.fallback;
        self.len()
    }
}

/// Why a store cannot be loaded, if it cannot: an unusable pattern comes
/// before a fallback file that gives no entry, and that before a walk that
/// could not start.
pub open spec fn spec_load_error(
    fallback_path: Seq<char>,
    pattern: Option<Seq<char>>,
    fallback: Option<RawFile>,
    tree: Option<Vec<DirEntry>>,
) -> Option<LoadError> {
    if !spec_pattern_is_valid(pattern) {
        Some(LoadError::InvalidPattern)
    } else if spec_entry(fallback_path, fallback, pattern) is None {
        Some(LoadError::FallbackUnreadable)
    } else if tree is None {
        Some(LoadError::RootUnreadable)
    } else {
        None
    }
}

/// Loads a store: the fallback entry from its own file, which must give one,
/// and the entries of every file that the walk of `root_dir` found.
pub fn init_cache_store(
    index_href: String,
    root_dir: String,
    regex_immutable: Option<String>,
    fallback: &Option<RawFile>,
    tree: &Option<Vec<DirEntry>>,
) -> (loaded: Result<FileCacheStore, LoadError>)
    ensures
        match loaded {
            Ok(store) => spec_load_error(index_href@, text_of(regex_immutable), *fallback, *tree) is None
                && spec_snapshot(index_href@, text_of(regex_immutable), *fallback, *tree) == Some(
                SnapshotView { entries: store@.entries, fallback: store@.fallback },
            ) && store@.fallback_path == index_href@ && store@.root_dir == root_dir@
                && store@.immutable_pattern == text_of(regex_immutable) && !store@.refreshing,
            Err(error) => spec_load_error(index_href@, text_of(regex_immutable), *fallback, *tree) == Some(
                error,
            ),
        },
{
    let pattern = as_opt_str(&regex_immutable);
    if !pattern_is_valid(pattern) {
        return Err(LoadError::InvalidPattern);
    }
    match read_file(index_href.as_str(), fallback, pattern) {
        Some(index_file) => match tree {
            Some(entries) => {
                let mut store = table_new();
                assert(table_view(store) =~= Map::<Seq<char>, FileCacheView>::empty());
                loop_read_dir(entries, &mut store, pattern);
                Ok(FileCacheStore { store, index_file, index_href, root_dir, regex_immutable, refreshing: false })
            },
            None => Err(LoadError::RootUnreadable),
        },
        None => Err(LoadError::FallbackUnreadable),
    }
}

/// What a refresh needs to know of a store in order to read its files.
pub struct RefreshPlan {
    /// The path of the fallback file.
    pub index_href: String,
    /// The directory to walk.
    pub root_dir: String,
    /// The pattern of the paths whose files are cached forever.
    pub regex_immutable: Option<String>,
}

/// Tells whether a refresh is to walk the root directory: only where what
/// was read of the fallback file gives an entry, since no snapshot can be
/// built without one.
pub fn needs_walk(plan: &RefreshPlan, fallback: &Option<RawFile>) -> (walk: bool)
    ensures
        walk == spec_entry(plan.index_href@, *fallback, text_of(plan.regex_immutable)) is Some,
{
    read_file(plan.index_href.as_str(), fallback, as_opt_str(&plan.regex_immutable)).is_some()
}

/// The store once a refresh has been started, and whether it was: a refresh
/// is not started while another is under way.
pub open spec fn spec_begin_refresh(store: StoreView) -> (StoreView, bool) {
    if store.refreshing {
        (store, false)
    } else {
        (StoreView { refreshing: true, ..store }, true)
    }
}

/// The store once the refresh under way is finished: with the snapshot in
/// the place of the old one where one was built, else as it was.
pub open spec fn spec_finish_refresh(store: StoreView, built: Option<SnapshotView>) -> StoreView {
    match built {
        Some(snapshot) => StoreView {
            entries: snapshot.entries,
            fallback: snapshot.fallback,
            refreshing: false,
            ..store
        },
        None => StoreView { refreshing: false, ..store },
    }
}

/// The snapshot that a refresh puts in place: the one that the fallback
/// file and the walk give, unless another refresh is under way.
pub open spec fn spec_rebuilt(store: StoreView, fallback: Option<RawFile>, tree: Option<Vec<DirEntry>>) -> Option<
    SnapshotView,
> {
    if store.refreshing {
        None
    } else {
        spec_snapshot(store.fallback_path, store.immutable_pattern, fallback, tree)
    }
}

/// The store after a refresh: with the new snapshot in the place of the old
/// one where there is one, else as it was.
pub open spec fn spec_refresh(store: StoreView, fallback: Option<RawFile>, tree: Option<Vec<DirEntry>>) -> StoreView {
    match spec_rebuilt(store, fallback, tree) {
        Some(snapshot) => StoreView { entries: snapshot.entries, fallback: snapshot.fallback, ..store },
        None => store,
    }
}

impl FileCacheStore {
    /// Starts a refresh, unless one is under way, and says what is to be
    /// read for it. The store serves its current snapshot until the refresh
    /// is finished.
    pub fn begin_refresh(&mut self) -> (plan: Option<RefreshPlan>)
        ensures
            final(self)@ == spec_begin_refresh(old(self)@).0,
            plan is Some == spec_begin_refresh(old(self)@).1,
            plan matches Some(p) ==> p.index_href@ == old(self)@.fallback_path
                && p.root_dir@ == old(self)@.root_dir
                && text_of(p.regex_immutable) == old(self)@.immutable_pattern
                && spec_pattern_is_valid(text_of(p.regex_immutable)),
    {
        if self.refreshing {
            return None;
        }
        proof {
            use_type_invariant(&*self);
        }
        self.refreshing = true;
        Some(
            RefreshPlan {
                index_href: self.index_href.clone(),
                root_dir: self.root_dir.clone(),
                regex_immutable: clone_text(&self.regex_immutable),
            },
        )
    }

    /// Finishes the refresh under way. A snapshot that was built is put in
    /// the place of the current one, in one step, and the number of its
    /// entries is returned; without one the store stays as it was.
    pub fn finish_refresh(&mut self, built: Option<Snapshot>) -> (count: Option<usize>)
        ensures
            final(self)@ == spec_finish_refresh(old(self)@, snapshot_of(built)),
            match count {
                Some(n) => built is Some && final(self)@.entries.dom().finite()
                    && n == final(self)@.entries.len(),
                None => built is None,
            },
    {
        proof {
            use_type_invariant(&*self);
        }
        self.refreshing = false;
        match built {
            Some(snapshot) => Some(self.install(snapshot)),
            None => None,
        }
    }
}

/// Refreshes a store from a new read of its fallback file and a new walk of
/// its root directory. The new snapshot is built off to the side and put in
/// place in one step; where it cannot be built, or another refresh is under
/// way, the store stays as it was. Returns the number of entries of the new
/// snapshot, if there is one.
pub fn refresh_cache_store(store: &mut FileCacheStore, fallback: &Option<RawFile>, tree: &Option<Vec<DirEntry>>) -> (count:
    Option<usize>)
    ensures
        final(store)@ == spec_refresh(old(store)@, *fallback, *tree),
        match count {
            Some(n) => spec_rebuilt(old(store)@, *fallback, *tree) is Some && final(store)@.entries.dom().finite()
                && n == final(store)@.entries.len(),
            None => spec_rebuilt(old(store)@, *fallback, *tree) is None,
        },
{
    if store.refreshing {
        return None;
    }
    let built = build_snapshot(
        store.index_href.as_str(),
        as_opt_str(&store.regex_immutable),
        fallback,
        tree,
    );
    match built {
        Some(snapshot) => Some(store.install(snapshot)),
        None => None,
    }
}

/// Answers a request for `file_path` from a store. A path that leads to no
/// entry is answered with the fallback entry where `fallback_enabled`, and
/// is not found otherwise; an entry is sent unless `if_none_match` is its tag.
pub fn send_cache_file(
    store: &FileCacheStore,
    file_path: &str,
    if_none_match: Option<&str>,
    fallback_enabled: bool,
) -> (response: Response)
    ensures
        response@ == spec_send_cache_file(store@, file_path@, str_of(if_none_match), fallback_enabled),
{
    match store.lookup(file_path, fallback_enabled) {
        Lookup::Entry(entry) => entry.reply(if_none_match),
        Lookup::Fallback(entry) => entry.reply(if_none_match),
        Lookup::NotFound => Response::NotFound,
    }
}

/// A refresh is all or nothing. Whatever was read, the store afterwards is
/// the store as it was, or it holds the new snapshot and nothing of the old
/// one; so a lookup finds what it would find in one of the two, never a mix
/// of both. The configuration stays as it was either way.
pub proof fn lemma_refresh_is_atomic(
    store: StoreView,
    fallback: Option<RawFile>,
    tree: Option<Vec<DirEntry>>,
    file_path: Seq<char>,
    fallback_enabled: bool,
)
    ensures
        ({
            let after = spec_refresh(store, fallback, tree);
            let found = spec_lookup(after, file_path, fallback_enabled);
            match spec_rebuilt(store, fallback, tree) {
                Some(snapshot) => {
                    &&& after.entries == snapshot.entries
                    &&& after.fallback == snapshot.fallback
                    &&& found == spec_lookup(
                        StoreView { entries: snapshot.entries, fallback: snapshot.fallback, ..store },
                        file_path,
                        fallback_enabled,
                    )
                },
                None => after == store && found == spec_lookup(store, file_path, fallback_enabled),
            }
        }),
        spec_refresh(store, fallback, tree).fallback_path == store.fallback_path,
        spec_refresh(store, fallback, tree).root_dir == store.root_dir,
        spec_refresh(store, fallback, tree).immutable_pattern == store.immutable_pattern,
{
}

/// The same holds of a refresh that is started, carried out while the store
/// goes on serving, and finished: from its start to its end every lookup
/// finds what it found before the refresh, and after its end every lookup
/// finds what the new snapshot holds, or what it found before where none
/// was built.
pub proof fn lemma_refresh_in_steps_is_atomic(
    store: StoreView,
    built: Option<SnapshotView>,
    file_path: Seq<char>,
    fallback_enabled: bool,
)
    ensures
        ({
            let during = spec_begin_refresh(store).0;
            let after = spec_finish_refresh(during, built);
            &&& spec_lookup(during, file_path, fallback_enabled) == spec_lookup(store, file_path, fallback_enabled)
            &&& match built {
                Some(snapshot) => after.entries == snapshot.entries && after.fallback == snapshot.fallback,
                None => spec_lookup(after, file_path, fallback_enabled) == spec_lookup(
                    store,
                    file_path,
                    fallback_enabled,
                ),
            }
            &&& !after.refreshing
        }),
{
}

/// One refresh at a time: while a refresh is under way no other is started,
/// and a refresh that is asked for in one go changes nothing.
pub proof fn lemma_one_refresh_at_a_time(store: StoreView, fallback: Option<RawFile>, tree: Option<Vec<DirEntry>>)
    requires
        spec_begin_refresh(store).1,
    ensures
        ({
            let during = spec_begin_refresh(store).0;
            &&& !spec_begin_refresh(during).1
            &&& spec_begin_refresh(during).0 == during
            &&& spec_refresh(during, fallback, tree) == during
        }),
{
}

/// A refresh whose read of the fallback file fails builds no snapshot and
/// leaves the store as it was, entries and fallback entry alike, whatever
/// the walk found.
pub proof fn lemma_failed_fallback_keeps_store(store: StoreView, tree: Option<Vec<DirEntry>>)
    ensures
        spec_rebuilt(store, None, tree) is None,
        spec_refresh(store, None, tree) == store,
        spec_snapshot(store.fallback_path, store.immutable_pattern, None, tree) is None,
        spec_finish_refresh(spec_begin_refresh(store).0, None).entries == store.entries,
        spec_finish_refresh(spec_begin_refresh(store).0, None).fallback == store.fallback,
{
}

/// Of the bytes as read and the bytes as packed, the shorter are stored,
/// and the bytes as read where neither is shorter: an entry is marked as
/// compressed exactly where packing made it smaller.
pub proof fn lemma_compression_choice(
    path: Seq<char>,
    raw: Seq<u8>,
    packed: Seq<u8>,
    modified_secs: u64,
    immutable: bool,
)
    ensures
        ({
            let entry = spec_assemble(path, raw, packed, modified_secs, immutable);
            &&& packed.len() >= raw.len() ==> !entry.is_compressed && entry.content == raw
            &&& packed.len() < raw.len() ==> entry.is_compressed && entry.content == packed
            &&& entry.content.len() <= raw.len()
        }),
{
}

/// A request whose validation token is the tag of the entry it leads to is
/// answered without a body. Any other request that leads to an entry, with
/// another token or with none, is sent the stored bytes of that entry, with
/// the entry's tag as the validation token of the response.
pub proof fn lemma_conditional_revalidation(entry: FileCacheView, token: Option<Seq<char>>)
    ensures
        token == Some(entry.tag) ==> spec_reply(entry, token) == ResponseView::NotModified,
        token != Some(entry.tag) ==> (spec_reply(entry, token) matches ResponseView::Hit { body, tag, .. }
            && body == entry.content && tag == entry.tag),
{
}

/// Whether a walk holds a file at `path`, read as `file`, in a directory
/// that could be listed.
pub open spec fn walk_holds(entries: Seq<DirEntry>, path: Seq<char>, file: Option<RawFile>) -> bool
    decreases entries,
{
    if entries.len() == 0 {
        false
    } else {
        walk_holds(entries.drop_last(), path, file) || entry_holds(entries.last(), path, file)
    }
}

/// Whether one entry of a walk is, or holds, a file at `path`, read as `file`.
pub open spec fn entry_holds(entry: DirEntry, path: Seq<char>, file: Option<RawFile>) -> bool
    decreases entry,
{
    match entry {
        DirEntry::File { path: at, file: read } => at@ == path && read == file,
        DirEntry::Directory { entries: Some(below) } => walk_holds(below@, path, file),
        _ => false,
    }
}

/// Whether `entry` was built from a file that the walk holds at a path of
/// normal form `key`.
pub open spec fn built_from(
    entries: Seq<DirEntry>,
    entry: FileCacheView,
    key: Seq<char>,
    pattern: Option<Seq<char>>,
) -> bool {
    exists|path: Seq<char>, file: Option<RawFile>| #[trigger]
        walk_holds(entries, path, file) && normal_form(path) == key && spec_entry(path, file, pattern)
            == Some(entry)
}

spec fn entry_built_from(entry: DirEntry, built: FileCacheView, key: Seq<char>, pattern: Option<Seq<char>>) -> bool {
    exists|path: Seq<char>, file: Option<RawFile>| #[trigger]
        entry_holds(entry, path, file) && normal_form(path) == key && spec_entry(path, file, pattern)
            == Some(built)
}

/// Every entry that a walk adds under a key was built from a file that the
/// walk holds at a path with that key as its normal form.
pub proof fn lemma_collect_provenance(
    entries: Seq<DirEntry>,
    pattern: Option<Seq<char>>,
    acc: Map<Seq<char>, FileCacheView>,
    key: Seq<char>,
)
    requires
        spec_collect(entries, pattern, acc).contains_key(key),
    ensures
        (acc.contains_key(key) && spec_collect(entries, pattern, acc)[key] == acc[key]) || built_from(
            entries,
            spec_collect(entries, pattern, acc)[key],
            key,
            pattern,
        ),
    decreases entries,
{
    if entries.len() > 0 {
        let front = entries.drop_last();
        let before = spec_collect(front, pattern, acc);
        let value = spec_collect(entries, pattern, acc)[key];
        lemma_collect_one_provenance(entries.last(), pattern, before, key);
        if entry_built_from(entries.last(), value, key, pattern) {
            let (path, file) = choose|path: Seq<char>, file: Option<RawFile>| #[trigger]
                entry_holds(entries.last(), path, file) && normal_form(path) == key && spec_entry(
                    path,
                    file,
                    pattern,
                ) == Some(value);
            assert(walk_holds(entries, path, file));
        } else {
            lemma_collect_provenance(front, pattern, acc, key);
            if built_from(front, value, key, pattern) {
                let (path, file) = choose|path: Seq<char>, file: Option<RawFile>| #[trigger]
                    walk_holds(front, path, file) && normal_form(path) == key && spec_entry(
                        path,
                        file,
                        pattern,
                    ) == Some(value);
                assert(walk_holds(entries, path, file));
            }
        }
    }
}

proof fn lemma_collect_one_provenance(
    entry: DirEntry,
    pattern: Option<Seq<char>>,
    acc: Map<Seq<char>, FileCacheView>,
    key: Seq<char>,
)
    requires
        spec_collect_one(entry, pattern, acc).contains_key(key),
    ensures
        (acc.contains_key(key) && spec_collect_one(entry, pattern, acc)[key] == acc[key])
            || entry_built_from(entry, spec_collect_one(entry, pattern, acc)[key], key, pattern),
    decreases entry,
{
    let value = spec_collect_one(entry, pattern, acc)[key];
    match entry {
        DirEntry::File { path, file } => {
            if spec_entry(path@, file, pattern) is Some && normal_form(path@) == key {
                assert(entry_holds(entry, path@, file));
            }
        },
        DirEntry::Directory { entries: Some(below) } => {
            lemma_collect_provenance(below@, pattern, acc, key);
            if built_from(below@, value, key, pattern) {
                let (path, file) = choose|path: Seq<char>, file: Option<RawFile>| #[trigger]
                    walk_holds(below@, path, file) && normal_form(path) == key && spec_entry(
                        path,
                        file,
                        pattern,
                    ) == Some(value);
                assert(entry_holds(entry, path, file));
            }
        },
        _ => {},
    }
}

proof fn lemma_collect_keeps_keys(
    entries: Seq<DirEntry>,
    pattern: Option<Seq<char>>,
    acc: Map<Seq<char>, FileCacheView>,
    key: Seq<char>,
)
    requires
        acc.contains_key(key),
    ensures
        spec_collect(entries, pattern, acc).contains_key(key),
    decreases entries,
{
    if entries.len() > 0 {
        lemma_collect_keeps_keys(entries.drop_last(), pattern, acc, key);
        lemma_collect_one_keeps_keys(
            entries.last(),
            pattern,
            spec_collect(entries.drop_last(), pattern, acc),
            key,
        );
    }
}

proof fn lemma_collect_one_keeps_keys(
    entry: DirEntry,
    pattern: Option<Seq<char>>,
    acc: Map<Seq<char>, FileCacheView>,
    key: Seq<char>,
)
    requires
        acc.contains_key(key),
    ensures
        spec_collect_one(entry, pattern, acc).contains_key(key),
    decreases entry,
{
    match entry {
        DirEntry::Directory { entries: Some(below) } => {
            lemma_collect_keeps_keys(below@, pattern, acc, key);
        },
        _ => {},
    }
}

/// Every file that a walk holds and that gives an entry has an entry under
/// the normal form of its path.
pub proof fn lemma_walked_file_has_entry(
    entries: Seq<DirEntry>,
    pattern: Option<Seq<char>>,
    acc: Map<Seq<char>, FileCacheView>,
    path: Seq<char>,
    file: Option<RawFile>,
)
    requires
        walk_holds(entries, path, file),
        spec_entry(path, file, pattern) is Some,
    ensures
        spec_collect(entries, pattern, acc).contains_key(normal_form(path)),
    decreases entries,
{
    let front = entries.drop_last();
    let before = spec_collect(front, pattern, acc);
    if entry_holds(entries.last(), path, file) {
        lemma_held_file_has_entry(entries.last(), pattern, before, path, file);
    } else {
        lemma_walked_file_has_entry(front, pattern, acc, path, file);
        lemma_collect_one_keeps_keys(entries.last(), pattern, before, normal_form(path));
    }
}

proof fn lemma_held_file_has_entry(
    entry: DirEntry,
    pattern: Option<Seq<char>>,
    acc: Map<Seq<char>, FileCacheView>,
    path: Seq<char>,
    file: Option<RawFile>,
)
    requires
        entry_holds(entry, path, file),
        spec_entry(path, file, pattern) is Some,
    ensures
        spec_collect_one(entry, pattern, acc).contains_key(normal_form(path)),
    decreases entry,
{
    match entry {
        DirEntry::Directory { entries: Some(below) } => {
            lemma_walked_file_has_entry(below@, pattern, acc, path, file);
        },
        _ => {},
    }
}

/// A file is cached forever exactly where its path matches the pattern of
/// immutable files, for as long as it does. After a refresh that built a
/// snapshot, a file that the walk found at `path` and that could be read
/// has an entry; where the walk found no file under another spelling of the
/// path that the pattern treats otherwise, that entry is immutable exactly
/// where the pattern matches `path`, and every response that sends it says
/// so. A refresh keeps the pattern, so this holds after any number of
/// refreshes.
pub proof fn lemma_immutable_directive(
    store: StoreView,
    fallback: Option<RawFile>,
    tree: Option<Vec<DirEntry>>,
    path: Seq<char>,
    file: Option<RawFile>,
    token: Option<Seq<char>>,
)
    requires
        spec_rebuilt(store, fallback, tree) is Some,
        walk_holds(tree->0@, path, file),
        spec_entry(path, file, store.immutable_pattern) is Some,
        forall|other: Seq<char>, read: Option<RawFile>| #[trigger]
            walk_holds(tree->0@, other, read) && normal_form(other) == normal_form(path) ==> spec_immutable(
                store.immutable_pattern,
                other,
            ) == spec_immutable(store.immutable_pattern, path),
    ensures
        ({
            let after = spec_refresh(store, fallback, tree);
            let key = normal_form(path);
            let matched = spec_immutable(store.immutable_pattern, path);
            &&& after.immutable_pattern == store.immutable_pattern
            &&& after.entries.contains_key(key)
            &&& after.entries[key].is_immutable == matched
            &&& spec_reply(after.entries[key], token) matches ResponseView::Hit { is_immutable, .. }
                ==> is_immutable == matched
        }),
{
    let pattern = store.immutable_pattern;
    let entries = tree->0@;
    let key = normal_form(path);
    let empty = Map::<Seq<char>, FileCacheView>::empty();
    lemma_walked_file_has_entry(entries, pattern, empty, path, file);
    lemma_collect_provenance(entries, pattern, empty, key);
    let entry = spec_collect(entries, pattern, empty)[key];
    assert(built_from(entries, entry, key, pattern));
    let (other, read) = choose|other: Seq<char>, read: Option<RawFile>| #[trigger]
        walk_holds(entries, other, read) && normal_form(other) == key && spec_entry(other, read, pattern)
            == Some(entry);
    assert(spec_immutable(pattern, other) == spec_immutable(pattern, path));
}

/// Where every file was walked under the normal form of its path, every
/// entry of the snapshot is immutable exactly where the pattern matches
/// its key.
pub proof fn lemma_immutable_by_key(
    store: StoreView,
    fallback: Option<RawFile>,
    tree: Option<Vec<DirEntry>>,
    key: Seq<char>,
)
    requires
        spec_rebuilt(store, fallback, tree) matches Some(snapshot) && snapshot.entries.contains_key(key),
        forall|path: Seq<char>, file: Option<RawFile>| #[trigger]
            walk_holds(tree->0@, path, file) ==> normal_form(path) == path,
    ensures
        spec_refresh(store, fallback, tree).entries[key].is_immutable == spec_immutable(
            store.immutable_pattern,
            key,
        ),
{
    let pattern = store.immutable_pattern;
    let entries = tree->0@;
    let empty = Map::<Seq<char>, FileCacheView>::empty();
    lemma_collect_provenance(entries, pattern, empty, key);
    let entry = spec_collect(entries, pattern, empty)[key];
    assert(built_from(entries, entry, key, pattern));
    let (path, file) = choose|path: Seq<char>, file: Option<RawFile>| #[trigger]
        walk_holds(entries, path, file) && normal_form(path) == key && spec_entry(path, file, pattern)
            == Some(entry);
    assert(path == key);
}

/// Two spellings of one path lead to the same place: a lookup goes by the
/// components of the path and by nothing else of it.
pub proof fn lemma_lookup_by_components(store: StoreView, p: Seq<char>, q: Seq<char>, fallback_enabled: bool)
    requires
        components(p) == components(q),
    ensures
        spec_lookup(store, p, fallback_enabled) == spec_lookup(store, q, fallback_enabled),
{
    lemma_normal_form_by_components(p, q);
}

/// Every key of a snapshot is the normal form of a path, and so is its own
/// normal form.
pub proof fn lemma_snapshot_keys_are_normal(entries: Seq<DirEntry>, pattern: Option<Seq<char>>, key: Seq<char>)
    requires
        spec_collect(entries, pattern, Map::empty()).contains_key(key),
    ensures
        normal_form(key) == key,
{
    lemma_collect_provenance(entries, pattern, Map::empty(), key);
    let entry = spec_collect(entries, pattern, Map::empty())[key];
    let (path, file) = choose|path: Seq<char>, file: Option<RawFile>| #[trigger]
        walk_holds(entries, path, file) && normal_form(path) == key && spec_entry(path, file, pattern)
            == Some(entry);
    lemma_normal_form_keeps_components(path);
}

} // verus!
