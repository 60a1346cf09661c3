//! What the file explorer shows: the entries of a directory and of a
//! directory tree in listing order, and where the working directory of a
//! terminal's shell is to be read.

use vstd::prelude::*;
use vstd::string::StringExecFns;
use crate::error::CoreError;
use crate::listing::is_listing_of;
use crate::listing::sort_listing;
use crate::listing::Listed;
use crate::state::SessionStore;
use crate::text::decimal;
use crate::text::push_decimal;
use crate::text::same_text;

verus! {

/// The status classification of one file of a repository.
#[derive(Debug, PartialEq, Eq)]
pub struct GitStats {
    pub status: String,
}

/// One entry of a directory.
#[derive(Debug, PartialEq, Eq)]
pub struct DirectoryEntry {
    pub name: String,
    pub path: String,
    pub is_dir: bool,
}

/// One entry of a directory tree, with its depth below the root and the
/// path of the directory that holds it.
#[derive(Debug, PartialEq, Eq)]
pub struct RecursiveDirectoryEntry {
    pub name: String,
    pub path: String,
    pub is_dir: bool,
    pub depth: usize,
    pub parent_path: String,
}

impl Listed for DirectoryEntry {
    open spec fn entry_name(&self) -> Seq<char> {
        self.name@
    }

    open spec fn entry_is_dir(&self) -> bool {
        self.is_dir
    }

    fn name_text(&self) -> (r: &str) {
        self.name.as_str()
    }

    fn directory(&self) -> (r: bool) {
        self.is_dir
    }
}

impl Listed for RecursiveDirectoryEntry {
    open spec fn entry_name(&self) -> Seq<char> {
        self.name@
    }

    open spec fn entry_is_dir(&self) -> bool {
        self.is_dir
    }

    fn name_text(&self) -> (r: &str) {
        self.name.as_str()
    }

    fn directory(&self) -> (r: bool) {
        self.is_dir
    }
}

/// How deep a tree is walked when the caller sets no limit.
pub const DEFAULT_MAX_DEPTH: usize = 10;

/// How many entries of a tree are listed when the caller sets no limit.
pub const DEFAULT_MAX_FILES: usize = 10000;

/// The name shown for an entry whose file name cannot be shown.
pub const UNKNOWN_NAME: &'static str = "Unknown";

/// The limit in force: the caller's, or the default.
pub open spec fn limit_or(limit: Option<usize>, default: usize) -> usize {
    match limit {
        Some(n) => n,
        None => default,
    }
}

/// The depth to which a tree is walked.
pub fn depth_limit(max_depth: Option<usize>) -> (r: usize)
    ensures
        r == limit_or(max_depth, DEFAULT_MAX_DEPTH),
{
    match max_depth {
        Some(n) => n,
        None => DEFAULT_MAX_DEPTH,
    }
}

/// The number of entries after which a tree listing takes no more.
pub fn file_limit(max_files: Option<usize>) -> (r: usize)
    ensures
        r == limit_or(max_files, DEFAULT_MAX_FILES),
{
    match max_files {
        Some(n) => n,
        None => DEFAULT_MAX_FILES,
    }
}

/// The name under which an entry is shown: its file name, or `Unknown`
/// where it has none that is text.
pub fn display_name(file_name: Option<String>) -> (r: String)
    ensures
        r@ == (match file_name {
            Some(name) => name@,
            None => UNKNOWN_NAME@,
        }),
{
    match file_name {
        Some(name) => name,
        None => String::from_str(UNKNOWN_NAME),
    }
}

/// The path shown for the directory that holds an entry: its parent, or the
/// root of the walk where it has none.
pub fn parent_or_root(parent: Option<String>, root: &str) -> (r: String)
    ensures
        r@ == (match parent {
            Some(p) => p@,
            None => root@,
        }),
{
    match parent {
        Some(p) => p,
        None => String::from_str(root),
    }
}

/// The names of the directories that a tree walk does not enter.
pub open spec fn ignored_dir_names() -> Set<Seq<char>> {
    set![
        ".git"@,
        "node_modules"@,
        "target"@,
        "dist"@,
        "build"@,
        ".cache"@,
        ".next"@,
        ".nuxt"@,
        "__pycache__"@,
        ".venv"@,
        "venv"@,
    ]
}

/// Decides whether a directory of this name is left out of a tree walk.
pub fn is_ignored_dir(name: &str) -> (r: bool)
    ensures
        r == ignored_dir_names().contains(name@),
{
    same_text(name, ".git") || same_text(name, "node_modules") || same_text(name, "target")
        || same_text(name, "dist") || same_text(name, "build") || same_text(name, ".cache")
        || same_text(name, ".next") || same_text(name, ".nuxt") || same_text(name, "__pycache__")
        || same_text(name, ".venv") || same_text(name, "venv")
}

/// Decides whether a tree walk takes what it found and goes on below it.
/// Only a directory whose name is text and is on the list of ignored names
/// is left out, with all that is below it.
pub fn walks_into(is_dir: bool, name: Option<&str>) -> (r: bool)
    ensures
        r == !(is_dir && name is Some && ignored_dir_names().contains(name->0@)),
{
    if is_dir {
        match name {
            Some(n) => !is_ignored_dir(n),
            None => true,
        }
    } else {
        true
    }
}

/// Puts the entries of a directory into listing order: directories before
/// files, each kind by lower-cased name, entries of equal rank as found.
pub fn read_directory(entries: Vec<DirectoryEntry>) -> (out: Vec<DirectoryEntry>)
    ensures
        is_listing_of(out@, entries@),
{
    sort_listing(entries)
}

/// What a tree walk came upon.
pub enum WalkItem {
    /// Something that could not be read.
    Unreadable,
    /// An entry; `at_root` tells that it is the root of the walk itself,
    /// `symlink` that it is a symbolic link.
    Found { at_root: bool, symlink: bool, entry: RecursiveDirectoryEntry },
}

/// The items that a tree listing takes: entries that are neither the root
/// of the walk nor symbolic links.
pub open spec fn is_kept(item: WalkItem) -> bool {
    item matches WalkItem::Found { at_root, symlink, .. } && !at_root && !symlink
}

/// A tree listing after it was offered one more item: a listing that is not
/// full takes the entry of an item that is kept.
pub open spec fn offered(
    entries: Seq<RecursiveDirectoryEntry>,
    limit: usize,
    item: WalkItem,
) -> Seq<RecursiveDirectoryEntry> {
    if entries.len() < limit && is_kept(item) {
        entries.push(item->entry)
    } else {
        entries
    }
}

/// The entries of the items that a tree listing takes, in the order of the
/// items.
pub open spec fn kept_entries(items: Seq<WalkItem>) -> Seq<RecursiveDirectoryEntry> {
    items.filter(|item: WalkItem| is_kept(item)).map_values(|item: WalkItem| item->entry)
}

/// What a tree listing of the given limit holds after it was offered the
/// items: the entries of the kept items in their order, as many as the
/// limit allows.
pub open spec fn collected(items: Seq<WalkItem>, limit: usize) -> Seq<RecursiveDirectoryEntry> {
    if kept_entries(items).len() <= limit {
        kept_entries(items)
    } else {
        kept_entries(items).take(limit as int)
    }
}

/// No item, no entry.
proof fn lemma_collected_none(limit: usize)
    ensures
        collected(Seq::<WalkItem>::empty(), limit) == Seq::<RecursiveDirectoryEntry>::empty(),
{
    let keep = |item: WalkItem| is_kept(item);
    Seq::<WalkItem>::empty().lemma_filter_len(keep);
    assert(kept_entries(Seq::<WalkItem>::empty()) =~= Seq::<RecursiveDirectoryEntry>::empty());
}

/// Offering one more item to a listing that was offered `front` gives what
/// a listing holds that was offered all of them.
proof fn lemma_collected_push(front: Seq<WalkItem>, item: WalkItem, limit: usize)
    ensures
        collected(front.push(item), limit) == offered(collected(front, limit), limit, item),
{
    let keep = |item: WalkItem| is_kept(item);
    let before = kept_entries(front);
    let after = kept_entries(front.push(item));
    front.lemma_filter_push(item, keep);
    if is_kept(item) {
        assert(after =~= before.push(item->entry));
        if before.len() >= limit {
            assert(after.take(limit as int) =~= before.take(limit as int));
            assert(before.take(before.len() as int) =~= before);
        }
    } else {
        assert(after =~= before);
    }
}

/// A listing of a directory tree in the making: it is offered what the walk
/// finds, item by item, and takes entries until it is full.
pub struct TreeListing {
    entries: Vec<RecursiveDirectoryEntry>,
    limit: usize,
}

impl TreeListing {
    /// The entries taken so far, in the order in which they were offered.
    pub closed spec fn entries(&self) -> Seq<RecursiveDirectoryEntry> {
        self.entries@
    }

    /// The number of entries at which the listing is full.
    pub closed spec fn limit(&self) -> usize {
        self.limit
    }

    /// An empty listing that takes `max_files` entries, or the default
    /// number where no limit is given.
    pub fn new(max_files: Option<usize>) -> (r: Self)
        ensures
            r.entries() == Seq::<RecursiveDirectoryEntry>::empty(),
            r.limit() == limit_or(max_files, DEFAULT_MAX_FILES),
    {
        TreeListing { entries: Vec::new(), limit: file_limit(max_files) }
    }

    /// Whether the listing takes no more entries, so that the walk may end.
    pub fn is_full(&self) -> (r: bool)
        ensures
            r == (self.entries().len() >= self.limit()),
    {
        self.entries.len() >= self.limit
    }

    /// Offers the listing what the walk found. Unless the listing is full,
    /// it takes the entry of an item that is neither unreadable, nor the
    /// root of the walk, nor a symbolic link.
    pub fn offer(&mut self, item: WalkItem)
        ensures
            final(self).limit() == old(self).limit(),
            final(self).entries() == offered(old(self).entries(), old(self).limit(), item),
    {
        if self.entries.len() < self.limit {
            match item {
                WalkItem::Found { at_root, symlink, entry } => {
                    if !at_root && !symlink {
                        self.entries.push(entry);
                    }
                },
                WalkItem::Unreadable => {},
            }
        }
    }

    /// The entries taken, in listing order.
    pub fn finish(self) -> (out: Vec<RecursiveDirectoryEntry>)
        ensures
            is_listing_of(out@, self.entries()),
    {
        sort_listing(self.entries)
    }
}

/// Lists what a tree walk found: the entries that are neither the root of
/// the walk nor symbolic links, as many as the limit allows in the order of
/// the walk, put into listing order.
pub fn read_directory_recursive(items: Vec<WalkItem>, max_files: Option<usize>) -> (out: Vec<
    RecursiveDirectoryEntry,
>)
    ensures
        is_listing_of(out@, collected(items@, limit_or(max_files, DEFAULT_MAX_FILES))),
{
    let ghost all = items@;
    let ghost limit = limit_or(max_files, DEFAULT_MAX_FILES);
    let mut listing = TreeListing::new(max_files);
    proof {
        lemma_collected_none(limit);
        assert(all.take(0) =~= Seq::<WalkItem>::empty());
    }
    for item in it: items
        invariant
            it.seq() == all,
            listing.limit() == limit,
            listing.entries() == collected(all.take(it.index() as int), limit),
    {
        proof {
            let n = it.index() as int;
            assert(all.take(n + 1) =~= all.take(n).push(item));
            lemma_collected_push(all.take(n), item, limit);
        }
        listing.offer(item);
    }
    proof {
        assert(all.take(all.len() as int) =~= all);
    }
    listing.finish()
}

/// The platforms between which the core tells.
#[derive(Clone, Copy, Debug, PartialEq, Eq, Structural)]
pub enum Platform {
    /// Linux, where the working directory of a process can be read from
    /// the process filesystem.
    Linux,
    /// Any other platform.
    Other,
}

/// The symbolic link of the process filesystem that points to the working
/// directory of process `pid`.
pub open spec fn proc_cwd_link(pid: u32) -> Seq<char> {
    "/proc/"@ + decimal(pid as nat) + "/cwd"@
}

/// Tells where the working directory of a terminal's shell is to be read:
/// the link of the process filesystem to resolve. `pid` is the process
/// identifier of the session's child, if it has one.
///
/// Fails with `SessionNotFound` if `session_id` names no live session; else
/// with `ProcessIdUnavailable` if there is no process identifier; else with
/// `UnsupportedPlatform` on any platform but Linux.
pub fn get_terminal_cwd<H>(
    session_id: &str,
    pid: Option<u32>,
    platform: Platform,
    state: &SessionStore<H>,
) -> (r: Result<String, CoreError>)
    ensures
        match r {
            Ok(link) => {
                &&& state@.live.contains_key(session_id@)
                &&& platform == Platform::Linux
                &&& pid is Some
                &&& link@ == proc_cwd_link(pid->0)
            },
            Err(e) => e == (if !state@.live.contains_key(session_id@) {
                CoreError::SessionNotFound
            } else if pid is None {
                CoreError::ProcessIdUnavailable
            } else {
                CoreError::UnsupportedPlatform
            }) && !(state@.live.contains_key(session_id@) && pid is Some && platform
                == Platform::Linux),
        },
{
    if !state.contains(session_id) {
        return Err(CoreError::SessionNotFound);
    }
    match pid {
        None => Err(CoreError::ProcessIdUnavailable),
        Some(p) => match platform {
            Platform::Linux => {
                let mut link = String::from_str("/proc/");
                push_decimal(&mut link, p);
                link.append("/cwd");
                Ok(link)
            },
            Platform::Other => Err(CoreError::UnsupportedPlatform),
        },
    }
}

} // verus!
