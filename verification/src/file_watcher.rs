//! The file tailer's state: at most one watched path at a time, swapped by
//! tearing the old watch down before the new one is registered; a
//! generation counter marks publishes from a revoked subscription as
//! stale; and the reader's byte offset plus accumulated buffer, which only
//! ever grows by what was read past the offset.
//!
//! The OS watch registration, the timers and the file reads themselves
//! live outside this crate; these types decide what those calls must do
//! and in which order.

use vstd::prelude::*;
use vstd::string::*;

verus! {

/// Why tailing produced no content: the watch could not be registered, or
/// the file could not be read.
#[derive(Debug)]
pub enum FileWatcherError {
    Watcher(String),
    File(String),
}

impl Clone for FileWatcherError {
    fn clone(&self) -> (r: Self)
        ensures
            r == *self,
    {
        match self {
            FileWatcherError::Watcher(s) => FileWatcherError::Watcher(s.clone()),
            FileWatcherError::File(s) => FileWatcherError::File(s.clone()),
        }
    }
}

/// The inline text shown in place of file content for an error.
pub open spec fn spec_error_message(e: FileWatcherError) -> Seq<char> {
    match e {
        FileWatcherError::Watcher(s) => "Watcher error: "@ + s@,
        FileWatcherError::File(s) => "File error: "@ + s@,
    }
}

impl FileWatcherError {
    /// Renders the error as one line of text.
    pub fn message(&self) -> (r: String)
        ensures
            r@ == spec_error_message(*self),
    {
        match self {
            FileWatcherError::Watcher(s) => {
                let mut m = String::from_str("Watcher error: ");
                m.append(s.as_str());
                m
            },
            FileWatcherError::File(s) => {
                let mut m = String::from_str("File error: ");
                m.append(s.as_str());
                m
            },
        }
    }
}

/// The caller-facing handle: remembers the last requested target so that
/// requesting the same target again asks the watcher for nothing.
#[derive(Debug)]
pub struct FileWatcherHandle {
    pub file_path: Option<String>,
}

/// The handle's transition: an unchanged target is a no-op, a changed one
/// is recorded and must be forwarded.
pub open spec fn spec_set_path(cur: Option<Seq<char>>, p: Option<Seq<char>>) -> (Option<
    Seq<char>,
>, bool) {
    if cur == p {
        (cur, false)
    } else {
        (p, true)
    }
}

/// Setting the same target twice forwards at most one change: the second
/// call is a no-op, whatever the target was before the first.
pub proof fn lemma_set_path_idempotent(cur: Option<Seq<char>>, p: Option<Seq<char>>)
    ensures
        ({
            let (c1, s1) = spec_set_path(cur, p);
            let (c2, s2) = spec_set_path(c1, p);
            &&& !s2
            &&& c2 == c1
        }),
{
}

impl FileWatcherHandle {
    /// A handle with no target yet.
    pub fn new() -> (h: Self)
        ensures
            h.file_path is None,
    {
        FileWatcherHandle { file_path: None }
    }

    /// Records the target path; the result says whether the watcher must
    /// be told, which is exactly when the path changed.
    pub fn set_file_path(&mut self, file_path: Option<String>) -> (send: bool)
        ensures
            (final(self).file_path.deep_view(), send) == spec_set_path(
                old(self).file_path.deep_view(),
                file_path.deep_view(),
            ),
    {
        let same = match (&self.file_path, &file_path) {
            (None, None) => true,
            (Some(a), Some(b)) => crate::strutil::str_eq(a.as_str(), b.as_str()),
            _ => false,
        };
        if !same {
            self.file_path = file_path;
            true
        } else {
            false
        }
    }
}

/// What the watcher loop must do after a target change: tear down the old
/// watch first, then register the new one, publishing empty content at
/// once when the target was cleared. The generation tags the subscription
/// the change opens.
pub struct WatchChange {
    pub unwatch: Option<String>,
    pub watch: Option<String>,
    pub publish_empty: bool,
    pub generation: u64,
}

/// The watcher actor's state: the path whose OS watch is registered, and
/// the generation of the current subscription.
pub struct FileWatcher {
    pub watched: Option<String>,
    pub generation: u64,
}

impl FileWatcher {
    /// A watcher with nothing registered.
    pub fn new() -> (w: Self)
        ensures
            w.watched is None,
            w.generation == 0,
    {
        FileWatcher { watched: None, generation: 0 }
    }

    /// Accepts a target change: the old watch is named for teardown, the
    /// new target for registration, and the generation moves on so that
    /// any publish still in flight from the old subscription is stale.
    /// The registered path is cleared until the caller confirms the new
    /// registration succeeded.
    pub fn on_set_path(&mut self, p: Option<String>) -> (c: WatchChange)
        requires
            old(self).generation < u64::MAX,
        ensures
            c.unwatch.deep_view() == old(self).watched.deep_view(),
            c.watch.deep_view() == p.deep_view(),
            c.publish_empty == (p is None),
            c.generation == old(self).generation + 1,
            final(self).generation == old(self).generation + 1,
            final(self).watched is None,
    {
        let old_path = self.take_watched();
        self.generation = self.generation + 1;
        let publish_empty = match &p {
            None => true,
            Some(_) => false,
        };
        WatchChange { unwatch: old_path, watch: p, publish_empty, generation: self.generation }
    }

    /// Records that the watch for `p` was registered.
    pub fn confirm_watch(&mut self, p: Option<String>)
        ensures
            final(self).watched.deep_view() == p.deep_view(),
            final(self).generation == old(self).generation,
    {
        self.watched = p;
    }

    /// A publish carries the generation of its subscription; only one from
    /// the current generation may be forwarded.
    pub fn accept_publish(&self, generation: u64) -> (r: bool)
        ensures
            r == (generation == self.generation),
    {
        generation == self.generation
    }

    fn take_watched(&mut self) -> (r: Option<String>)
        ensures
            r == old(self).watched,
            final(self).watched is None,
            final(self).generation == old(self).generation,
    {
        let mut tmp: Option<String> = None;
        core::mem::swap(&mut tmp, &mut self.watched);
        tmp
    }
}

/// The reader's state for one subscription: the byte offset already
/// consumed and the text accumulated since the subscription began.
pub struct FileReader {
    pub pos: u64,
    pub content: String,
}

/// The buffer after one successful read: everything read so far, in
/// order.
pub open spec fn spec_apply_read(content: Seq<char>, chunk: Seq<char>) -> Seq<char> {
    content + chunk
}

impl FileReader {
    /// A fresh reader: offset zero, empty buffer.
    pub fn new() -> (r: Self)
        ensures
            r.pos == 0,
            r.content@ == Seq::<char>::empty(),
    {
        FileReader { pos: 0, content: String::new() }
    }

    /// Folds one successful read into the state: the chunk read at the
    /// stored offset appends to the buffer, the offset advances by the
    /// bytes consumed, and the whole buffer — not the delta — is handed
    /// back for publishing.
    pub fn apply_read(&mut self, chunk: &str, nbytes: u64) -> (out: String)
        requires
            old(self).pos + nbytes <= u64::MAX,
        ensures
            final(self).content@ == spec_apply_read(old(self).content@, chunk@),
            final(self).pos == old(self).pos + nbytes,
            out@ == final(self).content@,
    {
        self.content.append(chunk);
        self.pos = self.pos + nbytes;
        self.content.clone()
    }
}

/// Tail progression: from an empty buffer, reading `c1` and then `c2`
/// publishes `c1` and then `c1 + c2` — the first buffer is exactly the
/// prefix of the second, never lost and never duplicated, and what
/// follows it is exactly the second read.
pub proof fn lemma_tail_progression(c1: Seq<char>, c2: Seq<char>)
    ensures
        ({
            let b1 = spec_apply_read(Seq::<char>::empty(), c1);
            let b2 = spec_apply_read(b1, c2);
            &&& b1 == c1
            &&& b2 == c1 + c2
            &&& b2.subrange(0, c1.len() as int) == c1
            &&& b2.subrange(c1.len() as int, b2.len() as int) == c2
        }),
{
    let b1 = spec_apply_read(Seq::<char>::empty(), c1);
    let b2 = spec_apply_read(b1, c2);
    assert(b1 =~= c1);
    assert(b2.subrange(0, c1.len() as int) =~= c1);
    assert(b2.subrange(c1.len() as int, b2.len() as int) =~= c2);
}

} // verus!
