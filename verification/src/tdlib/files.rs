//! [`FileStore`]: a per-session cache of downloaded files.
//!
//! Resolved paths are kept by file id, so that a row can look one up on bind.
//! A burst of requests for one file becomes a single download, and its path is
//! delivered to everyone who asked. Whoever asks is known by a number; the
//! download itself is outside.

use std::collections::HashMap;
use vstd::prelude::*;

verus! {

/// What is to be done for a request.
#[derive(Debug)]
pub enum Download {
    /// Nothing: there is no such file.
    Ignored,
    /// Deliver this path, once the caller is done.
    Deliver { path: String },
    /// Nothing yet: the file is on its way.
    Queued,
    /// Download the file with this priority.
    Fetch { file_id: i32, priority: i32 },
}

/// The mathematical value of a [`Download`].
pub enum DownloadView {
    Ignored,
    Deliver { path: Seq<char> },
    Queued,
    Fetch { file_id: i32, priority: i32 },
}

impl View for Download {
    type V = DownloadView;

    open spec fn view(&self) -> DownloadView {
        match *self {
            Download::Ignored => DownloadView::Ignored,
            Download::Deliver { path } => DownloadView::Deliver { path: path@ },
            Download::Queued => DownloadView::Queued,
            Download::Fetch { file_id, priority } => DownloadView::Fetch { file_id, priority },
        }
    }
}

/// The cache and the downloads under way.
pub struct FilesView {
    pub client_id: i32,
    /// Paths by file id.
    pub cache: Map<i32, Seq<char>>,
    /// Who waits for a download, by file id, in the order in which they asked.
    pub pending: Map<i32, Seq<u64>>,
}

impl FilesView {
    /// Nothing was downloaded yet.
    pub open spec fn empty(client_id: i32) -> FilesView {
        FilesView { client_id, cache: Map::empty(), pending: Map::empty() }
    }

    /// Who waits for a file.
    pub open spec fn waiting(self, file_id: i32) -> Seq<u64> {
        if self.pending.contains_key(file_id) {
            self.pending[file_id]
        } else {
            Seq::empty()
        }
    }

    /// Every download under way has someone who waits for it.
    pub open spec fn inv(self) -> bool {
        forall|f: i32| #[trigger] self.pending.contains_key(f) ==> self.pending[f].len() > 0
    }

    /// `waiter` asks for a file.
    pub open spec fn requested(self, file_id: i32, priority: i32, waiter: u64) -> (
        FilesView,
        DownloadView,
    ) {
        if file_id == 0 {
            (self, DownloadView::Ignored)
        } else if self.cache.contains_key(file_id) {
            (self, DownloadView::Deliver { path: self.cache[file_id] })
        } else {
            let waiting = self.waiting(file_id).push(waiter);
            (
                FilesView { pending: self.pending.insert(file_id, waiting), ..self },
                if waiting.len() > 1 {
                    DownloadView::Queued
                } else {
                    DownloadView::Fetch { file_id, priority }
                },
            )
        }
    }

    /// A download is over. Returns who is told the path.
    pub open spec fn resolved(self, file_id: i32, path: Option<Seq<char>>) -> (
        FilesView,
        Seq<u64>,
    ) {
        let pending = self.pending.remove(file_id);
        if path is Some && path->0.len() > 0 {
            (
                FilesView { cache: self.cache.insert(file_id, path->0), pending, ..self },
                self.waiting(file_id),
            )
        } else {
            (FilesView { pending, ..self }, Seq::empty())
        }
    }
}

/// The cache of downloaded files.
#[derive(Debug)]
pub struct FileStore {
    client_id: i32,
    cache: HashMap<i32, String>,
    pending: HashMap<i32, Vec<u64>>,
}

impl View for FileStore {
    type V = FilesView;

    closed spec fn view(&self) -> FilesView {
        FilesView {
            client_id: self.client_id,
            cache: self.cache@.map_values(|s: String| s@),
            pending: self.pending@.map_values(|v: Vec<u64>| v@),
        }
    }
}

/// What came of a download that is over.
#[derive(Debug)]
pub struct Delivery {
    /// Who is to be told, in order.
    pub waiters: Vec<u64>,
    /// The path they are told.
    pub path: String,
}

impl FileStore {
    /// An empty store for a client.
    pub fn new(client_id: i32) -> (r: FileStore)
        ensures
            r@ == FilesView::empty(client_id),
    {
        let r = FileStore { client_id, cache: HashMap::new(), pending: HashMap::new() };
        assert(r@.cache =~= Map::empty());
        assert(r@.pending =~= Map::empty());
        r
    }

    /// The client whose files these are.
    pub fn client_id(&self) -> (r: i32)
        ensures
            r == self@.client_id,
    {
        self.client_id
    }

    /// The path of a file that was downloaded.
    pub fn cached(&self, file_id: i32) -> (r: Option<String>)
        ensures
            match r {
                Some(path) => self@.cache.contains_key(file_id) && self@.cache[file_id] == path@,
                None => !self@.cache.contains_key(file_id),
            },
    {
        match self.cache.get(&file_id) {
            Some(path) => Some(path.clone()),
            None => None,
        }
    }

    /// `waiter` asks for the path of a file. `priority` is 1 to 32, higher is
    /// sooner.
    pub fn download(&mut self, file_id: i32, priority: i32, waiter: u64) -> (r: Download)
        ensures
            (final(self)@, r@) == old(self)@.requested(file_id, priority, waiter),
    {
        if file_id == 0 {
            return Download::Ignored;
        }
        match self.cached(file_id) {
            Some(path) => {
                return Download::Deliver { path };
            },
            None => {},
        }
        let mut waiting: Vec<u64> = match self.pending.remove(&file_id) {
            Some(v) => v,
            None => Vec::new(),
        };
        assert(waiting@ =~= old(self)@.waiting(file_id));
        waiting.push(waiter);
        let first: bool = waiting.len() == 1;
        self.pending.insert(file_id, waiting);
        assert(self@.pending =~= old(self)@.pending.insert(
            file_id,
            old(self)@.waiting(file_id).push(waiter),
        ));
        if first {
            Download::Fetch { file_id, priority }
        } else {
            Download::Queued
        }
    }

    /// A download is over; `path` is empty or `None` where it failed. A good
    /// path is kept and delivered to everyone who waits for it; after a failure
    /// there is nothing to show, and nobody is told.
    pub fn resolve(&mut self, file_id: i32, path: Option<String>) -> (r: Option<Delivery>)
        ensures
            ({
                let (files, told) = old(self)@.resolved(
                    file_id,
                    match path {
                        Some(p) => Some(p@),
                        None => None,
                    },
                );
                &&& final(self)@ == files
                &&& path is Some && path->0@.len() > 0 ==> r is Some && r->0.waiters@ == told
                    && r->0.path@ == path->0@
                &&& !(path is Some && path->0@.len() > 0) ==> r is None
            }),
    {
        let waiters: Vec<u64> = match self.pending.remove(&file_id) {
            Some(v) => v,
            None => Vec::new(),
        };
        assert(waiters@ =~= old(self)@.waiting(file_id));
        assert(self@.pending =~= old(self)@.pending.remove(file_id));
        match path {
            Some(path) => {
                if path.as_str().is_empty() {
                    None
                } else {
                    self.cache.insert(file_id, path.clone());
                    assert(self@.cache =~= old(self)@.cache.insert(file_id, path@));
                    Some(Delivery { waiters, path })
                }
            },
            None => None,
        }
    }
}

// --- Laws --------------------------------------------------------------------

/// Every download under way has someone who waits for it, through every step.
pub proof fn someone_always_waits(
    files: FilesView,
    file_id: i32,
    priority: i32,
    waiter: u64,
    path: Option<Seq<char>>,
)
    requires
        files.inv(),
    ensures
        FilesView::empty(files.client_id).inv(),
        files.requested(file_id, priority, waiter).0.inv(),
        files.resolved(file_id, path).0.inv(),
{
}

/// A file is downloaded once: while it is on its way no request for it starts
/// another download.
pub proof fn one_download_at_a_time(files: FilesView, file_id: i32, priority: i32, waiter: u64)
    requires
        files.inv(),
        files.pending.contains_key(file_id),
    ensures
        !(files.requested(file_id, priority, waiter).1 is Fetch),
{
}

/// Everyone who asked for a file is told its path, in the order in which they
/// asked, and is told once.
pub proof fn all_waiters_are_told(
    files: FilesView,
    file_id: i32,
    priority: i32,
    first: u64,
    second: u64,
    path: Seq<char>,
)
    requires
        file_id != 0,
        !files.cache.contains_key(file_id),
        path.len() > 0,
    ensures
        ({
            let asked = files.requested(file_id, priority, first).0.requested(
                file_id,
                priority,
                second,
            ).0;
            let (after, told) = asked.resolved(file_id, Some(path));
            &&& told == files.waiting(file_id).push(first).push(second)
            &&& after.resolved(file_id, Some(path)).1.len() == 0
        }),
{
}

/// A path that was resolved stays in the cache, and answers every later
/// request without a download.
pub proof fn resolved_path_is_kept(
    files: FilesView,
    file_id: i32,
    path: Seq<char>,
    other: i32,
    priority: i32,
    waiter: u64,
)
    requires
        file_id != 0,
        path.len() > 0,
    ensures
        ({
            let after = files.resolved(file_id, Some(path)).0;
            let later = after.requested(other, priority, waiter).0;
            &&& after.cache[file_id] == path
            &&& later.cache == after.cache
            &&& later.requested(file_id, priority, waiter).1 == DownloadView::Deliver { path }
        }),
{
}

/// A failed download leaves no trace: nobody is told, and the next request
/// tries again.
pub proof fn failed_download_is_tried_again(
    files: FilesView,
    file_id: i32,
    priority: i32,
    waiter: u64,
)
    requires
        file_id != 0,
        !files.cache.contains_key(file_id),
    ensures
        ({
            let (after, told) = files.resolved(file_id, None);
            &&& told.len() == 0
            &&& after.cache == files.cache
            &&& after.requested(file_id, priority, waiter).1 == DownloadView::Fetch {
                file_id,
                priority,
            }
        }),
{
}

/// The first request for a file downloads it, with its own priority. A file that
/// is there is handed out at once and nobody waits for it, and no file has the
/// number 0.
pub proof fn first_request_downloads(files: FilesView, file_id: i32, priority: i32, waiter: u64)
    requires
        files.inv(),
    ensures
        ({
            let (after, answer) = files.requested(file_id, priority, waiter);
            &&& file_id != 0 && !files.cache.contains_key(file_id) && !files.pending.contains_key(
                file_id,
            ) ==> answer == (DownloadView::Fetch { file_id, priority })
                && after.pending.contains_key(file_id) && after.pending[file_id] == seq![waiter]
            &&& file_id != 0 && !files.cache.contains_key(file_id) && files.pending.contains_key(
                file_id,
            ) ==> answer == DownloadView::Queued && after.pending.contains_key(file_id)
                && after.pending[file_id] == files.pending[file_id].push(waiter)
            &&& file_id != 0 && files.cache.contains_key(file_id) ==> after == files && answer == (
            DownloadView::Deliver { path: files.cache[file_id] })
            &&& file_id == 0 ==> after == files && answer == DownloadView::Ignored
            &&& after.cache == files.cache
            &&& after.client_id == files.client_id
        }),
{
    let after = files.requested(file_id, priority, waiter).0;
    if file_id != 0 && !files.cache.contains_key(file_id) && !files.pending.contains_key(file_id) {
        assert(after.pending[file_id] =~= seq![waiter]);
    }
}

/// What is asked of one file, or becomes of it, concerns no other file.
pub proof fn files_are_kept_apart(
    files: FilesView,
    file_id: i32,
    priority: i32,
    waiter: u64,
    path: Option<Seq<char>>,
    other: i32,
)
    requires
        other != file_id,
    ensures
        ({
            let asked = files.requested(file_id, priority, waiter).0;
            let done = files.resolved(file_id, path).0;
            &&& asked.waiting(other) == files.waiting(other)
            &&& done.waiting(other) == files.waiting(other)
            &&& done.cache.contains_key(other) == files.cache.contains_key(other)
            &&& files.cache.contains_key(other) ==> done.cache[other] == files.cache[other]
            &&& done.waiting(file_id).len() == 0
            &&& done.client_id == files.client_id
        }),
{
}

/// A path that says nothing is a failed download.
pub proof fn empty_path_is_a_failure(files: FilesView, file_id: i32)
    ensures
        files.resolved(file_id, Some(Seq::empty())).0.cache == files.cache,
        files.resolved(file_id, Some(Seq::empty())).1.len() == 0,
{
}

} // verus!
