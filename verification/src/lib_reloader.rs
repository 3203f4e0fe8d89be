//! The reload coordinator: one opened library, and the order in which a
//! reload closes, copies, fingerprints and opens.
//!
//! The coordinator does no work on the file system and never calls the
//! loader. It hands the host one request at a time and takes the host's
//! reply; what it decides in between is all of the reload.

use crate::artifact::{
    counter_mark, law_default_copies_differ, law_templated_copies_differ, loaded_name,
    template_view, watched_and_loaded_library_paths, watched_name, Platform,
};
use crate::text::occurs_at;
use crate::error::HotReloaderError;
use crate::file_changes::{
    law_listeners_stay_well_formed, ChangeSignals, FileChangeReceiver, SignalsView,
};
use crate::fingerprint::{content_view, fingerprint_of, hash_file};
use crate::resolver::Resolved;
use vstd::prelude::*;

verus! {

/// Which reply the coordinator waits for.
#[derive(Clone, Copy, Debug, PartialEq, Eq, Structural)]
pub enum ReloadPhase {
    /// No load is under way.
    Idle,
    /// The old handle is being closed and its file deleted.
    Closing,
    /// The host tests whether the watched artifact exists.
    Probing,
    /// The watched artifact is being copied.
    Copying,
    /// The copy is being read for its fingerprint.
    Hashing,
    /// The copy is being opened.
    Opening,
}

/// What the host does next. File names are relative to the library directory.
#[derive(Debug, PartialEq)]
pub enum ReloadRequest<H> {
    /// Close `handle`, if there is one. Unless the close failed, delete
    /// `loaded_file` then, if it exists, whether or not the deletion
    /// succeeds. `Closed` reports whether the close went through; with no
    /// handle it did.
    CloseAndRemove { handle: Option<H>, loaded_file: String },
    /// Test whether `watched_file` exists.
    ProbeWatched { watched_file: String },
    /// Copy the bytes of `from` to `to`.
    Copy { from: String, to: String },
    /// Read the bytes of `loaded_file`.
    ReadCopy { loaded_file: String },
    /// Open the library at `loaded_file`.
    Open { loaded_file: String },
    /// The load is over: whether anything was due, or what failed.
    Done(Result<bool, HotReloaderError>),
    /// The reply was not the one awaited. It is handed back and nothing changed.
    Unexpected(ReloadReply<H>),
}

/// What the host found or did.
#[derive(Debug, PartialEq)]
pub enum ReloadReply<H> {
    /// Whether the handle closed without error.
    Closed { ok: bool },
    /// Whether the watched artifact exists.
    Probed { exists: bool },
    /// Whether the copy was made.
    Copied { ok: bool },
    /// The bytes of the copy, or `None` where it could not be read.
    Read { content: Option<Vec<u8>> },
    /// The handle of the opened copy, or `None` where opening failed.
    Opened { handle: Option<H> },
}

/// A request as a plain value.
pub enum RequestView<H> {
    CloseAndRemove { handle: Option<H>, loaded_file: Seq<char> },
    ProbeWatched { watched_file: Seq<char> },
    Copy { from: Seq<char>, to: Seq<char> },
    ReadCopy { loaded_file: Seq<char> },
    Open { loaded_file: Seq<char> },
    Done(Result<bool, HotReloaderError>),
    Unexpected(ReplyView<H>),
}

/// A reply as a plain value.
pub enum ReplyView<H> {
    Closed { ok: bool },
    Probed { exists: bool },
    Copied { ok: bool },
    Read { content: Option<Seq<u8>> },
    Opened { handle: Option<H> },
}

impl<H> View for ReloadReply<H> {
    type V = ReplyView<H>;

    open spec fn view(&self) -> ReplyView<H> {
        match *self {
            ReloadReply::Closed { ok } => ReplyView::Closed { ok },
            ReloadReply::Probed { exists } => ReplyView::Probed { exists },
            ReloadReply::Copied { ok } => ReplyView::Copied { ok },
            ReloadReply::Read { content } => ReplyView::Read { content: content_view(content) },
            ReloadReply::Opened { handle } => ReplyView::Opened { handle },
        }
    }
}

impl<H> View for ReloadRequest<H> {
    type V = RequestView<H>;

    open spec fn view(&self) -> RequestView<H> {
        match *self {
            ReloadRequest::CloseAndRemove { handle, loaded_file } => RequestView::CloseAndRemove {
                handle,
                loaded_file: loaded_file@,
            },
            ReloadRequest::ProbeWatched { watched_file } => RequestView::ProbeWatched {
                watched_file: watched_file@,
            },
            ReloadRequest::Copy { from, to } => RequestView::Copy { from: from@, to: to@ },
            ReloadRequest::ReadCopy { loaded_file } => RequestView::ReadCopy {
                loaded_file: loaded_file@,
            },
            ReloadRequest::Open { loaded_file } => RequestView::Open { loaded_file: loaded_file@ },
            ReloadRequest::Done(outcome) => RequestView::Done(outcome),
            ReloadRequest::Unexpected(reply) => RequestView::Unexpected(reply@),
        }
    }
}

/// The coordinator as a plain value.
pub struct ReloaderView<H> {
    /// The naming convention in use.
    pub platform: Platform,
    /// The base name of the library.
    pub lib_name: Seq<char>,
    /// The template for the name of the private copy, if the host gave one.
    pub template: Option<Seq<char>>,
    /// The number of the host process.
    pub pid: nat,
    /// The counter of the latest copy that was begun.
    pub load_counter: nat,
    /// The counter that the next copy gets.
    pub staged_counter: nat,
    /// The handle of the opened library, if one is open.
    pub lib: Option<H>,
    /// The name of the private copy that was made last; before the first
    /// copy, the name of the copy with counter 0.
    pub loaded_file: Seq<char>,
    /// Whether a copy was made under `loaded_file` that the host was not yet
    /// asked to delete.
    pub copy_made: bool,
    /// The fingerprint of the bytes that were copied last.
    pub fingerprint: u32,
    /// Whether a change was signalled and no update has taken it up yet.
    pub changed: bool,
    /// Which reply is awaited.
    pub phase: ReloadPhase,
    /// The subscribers to file changes.
    pub signals: SignalsView,
}

impl<H> ReloaderView<H> {
    /// The file name of the watched artifact.
    pub open spec fn watched_file(self) -> Seq<char> {
        watched_name(self.platform, self.lib_name)
    }

    /// The file name of the private copy with counter `counter`.
    pub open spec fn copy_file(self, counter: nat) -> Seq<char> {
        loaded_name(self.platform, self.lib_name, counter, self.pid, self.template)
    }

    /// A coordinator as it is made: nothing is loaded, no change is pending,
    /// and the host is asked whether the artifact exists. The first copy has
    /// counter 0.
    pub open spec fn initial(
        platform: Platform,
        lib_name: Seq<char>,
        pid: nat,
        template: Option<Seq<char>>,
    ) -> ReloaderView<H> {
        ReloaderView {
            platform,
            lib_name,
            template,
            pid,
            load_counter: 0,
            staged_counter: 0,
            lib: None,
            loaded_file: loaded_name(platform, lib_name, 0, pid, template),
            copy_made: false,
            fingerprint: 0,
            changed: false,
            phase: ReloadPhase::Probing,
            signals: SignalsView::empty(),
        }
    }

    /// What holds of a coordinator at every moment: while a load is under
    /// way no handle is open; a handle is open only on a copy that was made;
    /// a copy that was made has the name that the load counter gives it; none
    /// is there when the host is asked for the artifact, and one is there
    /// while it is copied, read and opened; the counter
    /// staged for the next copy is not behind the counter of the latest one;
    /// and the list of subscribers to file changes is well formed.
    pub open spec fn settled(self) -> bool {
        &&& self.phase != ReloadPhase::Idle ==> self.lib is None
        &&& self.lib is Some ==> self.copy_made
        &&& self.copy_made ==> self.loaded_file == self.copy_file(self.load_counter)
        &&& self.phase == ReloadPhase::Probing ==> !self.copy_made
        &&& self.phase == ReloadPhase::Copying || self.phase == ReloadPhase::Hashing || self.phase
            == ReloadPhase::Opening ==> self.copy_made
        &&& self.load_counter <= self.staged_counter
        &&& self.signals.well_formed()
    }

    /// The coordinator with the load over.
    pub open spec fn at_rest(self) -> ReloaderView<H> {
        ReloaderView { phase: ReloadPhase::Idle, ..self }
    }

    /// Whether content with fingerprint `current` counts as a change: it
    /// differs from what was copied last, and no change is pending.
    pub open spec fn accepts(self, current: u32) -> bool {
        current != self.fingerprint && !self.changed
    }

    /// After content with fingerprint `current` was offered as a change.
    pub open spec fn offered(self, current: u32) -> ReloaderView<H> {
        if self.accepts(current) {
            ReloaderView { changed: true, signals: self.signals.signalled(), ..self }
        } else {
            self
        }
    }

    /// What an update does first, and what it asks of the host.
    ///
    /// While a load is under way, nothing: the coordinator is in use. Without
    /// a pending change, nothing either. Else the change is taken up. Where
    /// a copy was made, the host is asked to close the handle on it, if one
    /// is open, and to delete it: also the copy of a load that failed, on
    /// which no handle is held. Where no copy is there, the host is asked
    /// whether the artifact exists.
    pub open spec fn update_step(self) -> (ReloaderView<H>, RequestView<H>) {
        if self.phase != ReloadPhase::Idle {
            (self, RequestView::Done(Err(HotReloaderError::LockContention)))
        } else if !self.changed {
            (self, RequestView::Done(Ok(false)))
        } else {
            let taken_up = ReloaderView {
                changed: false,
                staged_counter: self.load_counter + 1,
                ..self
            };
            if self.lib is Some || self.copy_made {
                (
                    ReloaderView { lib: None, phase: ReloadPhase::Closing, ..taken_up },
                    RequestView::CloseAndRemove {
                        handle: self.lib,
                        loaded_file: self.loaded_file,
                    },
                )
            } else {
                (
                    ReloaderView { phase: ReloadPhase::Probing, ..taken_up },
                    RequestView::ProbeWatched { watched_file: self.watched_file() },
                )
            }
        }
    }

    /// What the coordinator does with a reply, and what it asks next.
    ///
    /// After a clean close the old copy is gone and the host is asked
    /// whether the artifact exists; a close that failed ends the load with
    /// `LoadError`, and the old copy stays the loaded file. An artifact that
    /// is gone ends the load without error and with nothing loaded. One that
    /// is there is copied to the private copy of the staged counter: that
    /// counter becomes the load counter and that copy the loaded file, from
    /// here on and whatever comes of the load, so that the next update and
    /// the teardown name it. A failed copy ends the load with `CopyError`.
    /// The copy is read and its fingerprint stored, 0 for a copy that could
    /// not be read. Then the copy is opened: the handle is taken, or the load
    /// ends with `LoadError`. A reply that the phase does not await is handed
    /// back.
    ///
    /// The old handle is closed before the new one is known to open, so a
    /// load that fails leaves no handle, and lookups fail until a later load
    /// succeeds.
    pub open spec fn reply_step(self, reply: ReplyView<H>) -> (ReloaderView<H>, RequestView<H>) {
        match (self.phase, reply) {
            (ReloadPhase::Closing, ReplyView::Closed { ok }) => {
                if ok {
                    (
                        ReloaderView { phase: ReloadPhase::Probing, copy_made: false, ..self },
                        RequestView::ProbeWatched { watched_file: self.watched_file() },
                    )
                } else {
                    (self.at_rest(), RequestView::Done(Err(HotReloaderError::LoadError)))
                }
            },
            (ReloadPhase::Probing, ReplyView::Probed { exists }) => {
                if exists {
                    (
                        ReloaderView {
                            phase: ReloadPhase::Copying,
                            load_counter: self.staged_counter,
                            loaded_file: self.copy_file(self.staged_counter),
                            copy_made: true,
                            ..self
                        },
                        RequestView::Copy {
                            from: self.watched_file(),
                            to: self.copy_file(self.staged_counter),
                        },
                    )
                } else {
                    (self.at_rest(), RequestView::Done(Ok(true)))
                }
            },
            (ReloadPhase::Copying, ReplyView::Copied { ok }) => {
                if ok {
                    (
                        ReloaderView { phase: ReloadPhase::Hashing, ..self },
                        RequestView::ReadCopy { loaded_file: self.loaded_file },
                    )
                } else {
                    (self.at_rest(), RequestView::Done(Err(HotReloaderError::CopyError)))
                }
            },
            (ReloadPhase::Hashing, ReplyView::Read { content }) => (
                ReloaderView {
                    phase: ReloadPhase::Opening,
                    fingerprint: fingerprint_of(content),
                    ..self
                },
                RequestView::Open { loaded_file: self.loaded_file },
            ),
            (ReloadPhase::Opening, ReplyView::Opened { handle }) => {
                match handle {
                    Some(handle) => (
                        ReloaderView { phase: ReloadPhase::Idle, lib: Some(handle), ..self },
                        RequestView::Done(Ok(true)),
                    ),
                    None => (self.at_rest(), RequestView::Done(Err(HotReloaderError::LoadError))),
                }
            },
            _ => (self, RequestView::Unexpected(reply)),
        }
    }
}

/// Whether `name` can name a symbol: it holds no zero byte but, at most, as
/// its last byte.
pub open spec fn is_symbol_name(name: Seq<u8>) -> bool {
    forall|i: int| 0 <= i < name.len() - 1 ==> name[i] != 0
}

/// Tests whether `name` can name a symbol.
pub fn names_symbol(name: &[u8]) -> (valid: bool)
    ensures
        valid == is_symbol_name(name@),
{
    if name.len() == 0 {
        return true;
    }
    let last = name.len() - 1;
    let mut i: usize = 0;
    while i < last
        invariant
            i <= last,
            last == name@.len() - 1,
            forall|j: int| 0 <= j < i ==> name@[j] != 0,
        decreases last - i,
    {
        if name[i] == 0 {
            return false;
        }
        i = i + 1;
    }
    true
}

/// Manages one dynamic library: which private copy is opened, under which
/// handle, and what a reload does to both. `H` is the host's handle of an
/// opened library.
pub struct LibReloader<H> {
    platform: Platform,
    lib_name: String,
    loaded_lib_name_template: Option<String>,
    pid: u32,
    load_counter: usize,
    staged_counter: usize,
    lib: Option<H>,
    loaded_lib_file: String,
    copy_made: bool,
    lib_file_hash: u32,
    changed: bool,
    phase: ReloadPhase,
    file_change_subscribers: ChangeSignals,
}

impl<H> View for LibReloader<H> {
    type V = ReloaderView<H>;

    closed spec fn view(&self) -> ReloaderView<H> {
        ReloaderView {
            platform: self.platform,
            lib_name: self.lib_name@,
            template: template_view(self.loaded_lib_name_template),
            pid: self.pid as nat,
            load_counter: self.load_counter as nat,
            staged_counter: self.staged_counter as nat,
            lib: self.lib,
            loaded_file: self.loaded_lib_file@,
            copy_made: self.copy_made,
            fingerprint: self.lib_file_hash,
            changed: self.changed,
            phase: self.phase,
            signals: self.file_change_subscribers@,
        }
    }
}

impl<H> LibReloader<H> {
    /// Creates a coordinator for the library `lib_name`, which is the base
    /// name and not the file name, in the directory that `resolved` stands
    /// for: what [`crate::resolver::find_file_or_dir_in_parent_directories`]
    /// made of the directory that the host was given.
    ///
    /// A directory that was not found ends the construction with `NotFound`,
    /// before anything is asked of the host: nothing is copied, opened or
    /// watched. Else the host is asked whether the artifact exists. The
    /// replies go to [`Self::resume`]; when that answers `Done` the
    /// coordinator is made, with the library loaded if the artifact was
    /// there.
    pub fn new(
        resolved: Result<Resolved, HotReloaderError>,
        platform: Platform,
        lib_name: &str,
        pid: u32,
        loaded_lib_name_template: Option<String>,
    ) -> (made: Result<(Self, ReloadRequest<H>), HotReloaderError>)
        ensures
            match made {
                Ok((reloader, request)) => {
                    &&& resolved is Ok
                    &&& reloader@ == ReloaderView::<H>::initial(
                        platform,
                        lib_name@,
                        pid as nat,
                        template_view(loaded_lib_name_template),
                    )
                    &&& request@ == (RequestView::<H>::ProbeWatched {
                        watched_file: reloader@.watched_file(),
                    })
                },
                Err(e) => resolved is Err && e == HotReloaderError::NotFound,
            },
    {
        if resolved.is_err() {
            return Err(HotReloaderError::NotFound);
        }
        let (watched_file, loaded_lib_file) = watched_and_loaded_library_paths(
            platform,
            lib_name,
            0,
            pid,
            &loaded_lib_name_template,
        );
        let reloader = LibReloader {
            platform,
            lib_name: lib_name.to_owned(),
            loaded_lib_name_template,
            pid,
            load_counter: 0,
            staged_counter: 0,
            lib: None,
            loaded_lib_file,
            copy_made: false,
            lib_file_hash: 0,
            changed: false,
            phase: ReloadPhase::Probing,
            file_change_subscribers: ChangeSignals::new(),
        };
        Ok((reloader, ReloadRequest::ProbeWatched { watched_file }))
    }

    /// The names of the watched artifact and of the copy with counter `counter`.
    fn names(&self, counter: usize) -> (names: (String, String))
        ensures
            names.0@ == self@.watched_file(),
            names.1@ == self@.copy_file(counter as nat),
    {
        watched_and_loaded_library_paths(
            self.platform,
            self.lib_name.as_str(),
            counter,
            self.pid,
            &self.loaded_lib_name_template,
        )
    }

    /// Checks whether a change is pending and, if so, begins the reload.
    ///
    /// `Done(Ok(false))` says that nothing was due. Any other request is the
    /// first step of a reload, whose replies go to [`Self::resume`].
    pub fn update(&mut self) -> (request: ReloadRequest<H>)
        requires
            old(self)@.load_counter < usize::MAX,
        ensures
            (final(self)@, request@) == old(self)@.update_step(),
    {
        match self.phase {
            ReloadPhase::Idle => {},
            _ => {
                return ReloadRequest::Done(Err(HotReloaderError::LockContention));
            },
        }
        if !self.changed {
            return ReloadRequest::Done(Ok(false));
        }
        self.changed = false;
        self.staged_counter = self.load_counter + 1;
        if self.lib.is_some() || self.copy_made {
            let handle = self.lib.take();
            self.phase = ReloadPhase::Closing;
            ReloadRequest::CloseAndRemove { handle, loaded_file: self.loaded_lib_file.clone() }
        } else {
            self.phase = ReloadPhase::Probing;
            let (watched_file, _) = self.names(0);
            ReloadRequest::ProbeWatched { watched_file }
        }
    }

    /// Takes the host's reply to the last request and says what comes next.
    pub fn resume(&mut self, reply: ReloadReply<H>) -> (request: ReloadRequest<H>)
        ensures
            (final(self)@, request@) == old(self)@.reply_step(reply@),
    {
        match (self.phase, reply) {
            (ReloadPhase::Closing, ReloadReply::Closed { ok }) => {
                if ok {
                    self.phase = ReloadPhase::Probing;
                    self.copy_made = false;
                    let (watched_file, _) = self.names(0);
                    ReloadRequest::ProbeWatched { watched_file }
                } else {
                    self.phase = ReloadPhase::Idle;
                    ReloadRequest::Done(Err(HotReloaderError::LoadError))
                }
            },
            (ReloadPhase::Probing, ReloadReply::Probed { exists }) => {
                if exists {
                    self.phase = ReloadPhase::Copying;
                    self.load_counter = self.staged_counter;
                    let (from, to) = self.names(self.load_counter);
                    self.loaded_lib_file = to.clone();
                    self.copy_made = true;
                    ReloadRequest::Copy { from, to }
                } else {
                    self.phase = ReloadPhase::Idle;
                    ReloadRequest::Done(Ok(true))
                }
            },
            (ReloadPhase::Copying, ReloadReply::Copied { ok }) => {
                if ok {
                    self.phase = ReloadPhase::Hashing;
                    ReloadRequest::ReadCopy { loaded_file: self.loaded_lib_file.clone() }
                } else {
                    self.phase = ReloadPhase::Idle;
                    ReloadRequest::Done(Err(HotReloaderError::CopyError))
                }
            },
            (ReloadPhase::Hashing, ReloadReply::Read { content }) => {
                self.lib_file_hash = hash_file(&content);
                self.phase = ReloadPhase::Opening;
                ReloadRequest::Open { loaded_file: self.loaded_lib_file.clone() }
            },
            (ReloadPhase::Opening, ReloadReply::Opened { handle }) => {
                self.phase = ReloadPhase::Idle;
                match handle {
                    Some(handle) => {
                        self.lib = Some(handle);
                        ReloadRequest::Done(Ok(true))
                    },
                    None => ReloadRequest::Done(Err(HotReloaderError::LoadError)),
                }
            },
            (_, reply) => ReloadRequest::Unexpected(reply),
        }
    }

    /// Offers content with fingerprint `current` as a change. An accepted
    /// change is marked pending and signalled once to every subscriber; content
    /// that equals what was copied last, or that comes while a change is
    /// pending, is no change.
    pub fn signal_change(&mut self, current: u32) -> (accepted: bool)
        ensures
            accepted == old(self)@.accepts(current),
            final(self)@ == old(self)@.offered(current),
    {
        if current == self.lib_file_hash || self.changed {
            return false;
        }
        self.changed = true;
        self.file_change_subscribers.signal();
        true
    }

    /// Offers what the host read from the watched artifact as a change.
    pub fn file_changed(&mut self, content: &Option<Vec<u8>>) -> (accepted: bool)
        ensures
            accepted == old(self)@.accepts(fingerprint_of(content_view(*content))),
            final(self)@ == old(self)@.offered(fingerprint_of(content_view(*content))),
    {
        let current = hash_file(content);
        self.signal_change(current)
    }

    /// Subscribes to file change notifications.
    pub fn subscribe_to_file_changes(&mut self) -> (receiver: FileChangeReceiver)
        requires
            old(self)@.signals.next_id < u64::MAX,
        ensures
            final(self)@ == (ReloaderView {
                signals: old(self)@.signals.subscribed(),
                ..old(self)@
            }),
            receiver.id() == old(self)@.signals.next_id,
    {
        self.file_change_subscribers.subscribe()
    }

    /// Whether one more subscriber to file changes can be numbered.
    pub fn can_subscribe_to_file_changes(&self) -> (free: bool)
        ensures
            free == (self@.signals.next_id < u64::MAX),
    {
        self.file_change_subscribers.can_subscribe()
    }

    /// Takes one file change signal off the queue of `receiver`. Says whether
    /// there was one.
    pub fn take_file_change(&mut self, receiver: &FileChangeReceiver) -> (signalled: bool)
        ensures
            signalled == (old(self)@.signals.waiting(receiver.id()) > 0),
            final(self)@ == (ReloaderView {
                signals: old(self)@.signals.taken(receiver.id()),
                ..old(self)@
            }),
    {
        self.file_change_subscribers.take(receiver)
    }

    /// Ends a subscription to file changes.
    pub fn unsubscribe_from_file_changes(&mut self, receiver: FileChangeReceiver)
        ensures
            final(self)@ == (ReloaderView {
                signals: old(self)@.signals.disconnected(receiver.id()),
                ..old(self)@
            }),
    {
        self.file_change_subscribers.disconnect(receiver)
    }

    /// The handle in which the host looks up the symbol `name`.
    ///
    /// Before any load has succeeded there is none. A name with a zero byte
    /// before its end names no symbol.
    pub fn get_symbol(&self, name: &[u8]) -> (handle: Result<&H, HotReloaderError>)
        ensures
            match handle {
                Ok(h) => self@.lib == Some(*h) && is_symbol_name(name@),
                Err(e) => if self@.lib is None {
                    e == HotReloaderError::LibraryNotLoaded
                } else {
                    e == HotReloaderError::SymbolNotFound && !is_symbol_name(name@)
                },
            },
    {
        match &self.lib {
            None => Err(HotReloaderError::LibraryNotLoaded),
            Some(lib) => {
                if names_symbol(name) {
                    Ok(lib)
                } else {
                    Err(HotReloaderError::SymbolNotFound)
                }
            },
        }
    }

    /// Ends the coordinator: the handle for the host to close, if one is
    /// open, and the name of the private copy for the host to delete after
    /// the close. A copy is named whenever one was made that the host was
    /// not yet asked to delete, also where no handle is held on it.
    pub fn teardown(self) -> (left: (Option<H>, Option<String>))
        ensures
            left.0 == self@.lib,
            match left.1 {
                Some(copy) => self@.copy_made && copy@ == self@.loaded_file,
                None => !self@.copy_made,
            },
    {
        let copy = if self.copy_made {
            Some(self.loaded_lib_file)
        } else {
            None
        };
        (self.lib, copy)
    }

    /// Whether a private copy was made that the host was not yet asked to
    /// delete.
    pub fn has_copy(&self) -> (made: bool)
        ensures
            made == self@.copy_made,
    {
        self.copy_made
    }

    /// Whether a library is loaded.
    pub fn is_loaded(&self) -> (loaded: bool)
        ensures
            loaded == self@.lib is Some,
    {
        self.lib.is_some()
    }

    /// Whether a change is pending.
    pub fn change_pending(&self) -> (pending: bool)
        ensures
            pending == self@.changed,
    {
        self.changed
    }

    /// Which reply is awaited.
    pub fn phase(&self) -> (phase: ReloadPhase)
        ensures
            phase == self@.phase,
    {
        self.phase
    }

    /// The counter of the latest copy.
    pub fn load_counter(&self) -> (counter: usize)
        ensures
            counter == self@.load_counter,
    {
        self.load_counter
    }

    /// The name of the private copy that was made last.
    pub fn loaded_file(&self) -> (name: &str)
        ensures
            name@ == self@.loaded_file,
    {
        self.loaded_lib_file.as_str()
    }

    /// How many file change signals wait for `receiver`.
    pub fn file_changes_waiting(&self, receiver: &FileChangeReceiver) -> (waiting: usize)
        ensures
            waiting == self@.signals.waiting(receiver.id()),
    {
        self.file_change_subscribers.waiting_for(receiver)
    }

    /// The fingerprint of the bytes that were copied last.
    pub fn fingerprint(&self) -> (fingerprint: u32)
        ensures
            fingerprint == self@.fingerprint,
    {
        self.lib_file_hash
    }
}

/// What a lookup in an opened library comes to: a missing export is an error.
pub fn found_symbol<S>(found: Option<S>) -> (symbol: Result<S, HotReloaderError>)
    ensures
        symbol == match found {
            Some(s) => Ok::<S, HotReloaderError>(s),
            None => Err(HotReloaderError::SymbolNotFound),
        },
{
    match found {
        Some(s) => Ok(s),
        None => Err(HotReloaderError::SymbolNotFound),
    }
}

/// Content with the fingerprint of what was copied last is no change,
/// and neither is any content while a change is pending: nothing is
/// signalled and nothing else changes.
pub proof fn law_same_content_is_no_change<H>(reloader: ReloaderView<H>, current: u32)
    requires
        current == reloader.fingerprint || reloader.changed,
    ensures
        !reloader.accepts(current),
        reloader.offered(current) == reloader,
{
}

/// An accepted change is signalled once: a second offer, of whatever
/// content, signals nothing until an update has taken the change up.
pub proof fn law_change_is_signalled_once<H>(reloader: ReloaderView<H>, first: u32, second: u32)
    requires
        reloader.accepts(first),
    ensures
        reloader.offered(first).signals == reloader.signals.signalled(),
        reloader.offered(first).changed,
        reloader.offered(first).offered(second) == reloader.offered(first),
{
}

/// The coordinator after the replies `replies`, in their order.
pub open spec fn reload_run<H>(start: ReloaderView<H>, replies: Seq<ReplyView<H>>) -> ReloaderView<
    H,
>
    decreases replies.len(),
{
    if replies.len() == 0 {
        start
    } else {
        reload_run(start, replies.drop_last()).reply_step(replies.last()).0
    }
}

/// The replies of a load in which every step succeeds: the artifact exists,
/// the copy is made, reads as `content` and opens as `handle`.
pub open spec fn load_replies<H>(content: Option<Seq<u8>>, handle: H) -> Seq<ReplyView<H>> {
    seq![
        ReplyView::Probed { exists: true },
        ReplyView::Copied { ok: true },
        ReplyView::Read { content },
        ReplyView::Opened { handle: Some(handle) },
    ]
}

/// `settled` holds of a new coordinator and every step keeps it.
pub proof fn law_reloader_stays_settled<H>(
    reloader: ReloaderView<H>,
    reply: ReplyView<H>,
    current: u32,
    id: nat,
)
    requires
        reloader.settled(),
    ensures
        ReloaderView::<H>::initial(
            reloader.platform,
            reloader.lib_name,
            reloader.pid,
            reloader.template,
        ).settled(),
        reloader.update_step().0.settled(),
        reloader.reply_step(reply).0.settled(),
        reloader.offered(current).settled(),
        (ReloaderView { signals: reloader.signals.subscribed(), ..reloader }).settled(),
        (ReloaderView { signals: reloader.signals.taken(id), ..reloader }).settled(),
        (ReloaderView { signals: reloader.signals.disconnected(id), ..reloader }).settled(),
{
    law_listeners_stay_well_formed(reloader.signals, id);
}

/// At most one handle is open. An update gives the open handle to the host
/// to close, with the name of its private copy to delete, before anything
/// else happens; a handle that the host opened is taken only where none is
/// held; and a lookup sees a handle only between loads.
pub proof fn law_one_handle_at_a_time<H>(reloader: ReloaderView<H>, reply: ReplyView<H>)
    requires
        reloader.settled(),
    ensures
        reloader.update_step().1 matches RequestView::CloseAndRemove { handle, loaded_file } ==> {
            &&& reloader.lib == handle
            &&& loaded_file == reloader.loaded_file
            &&& reloader.update_step().0.lib is None
        },
        reloader.phase == ReloadPhase::Idle && reloader.changed && reloader.lib is Some
            ==> reloader.update_step().1 is CloseAndRemove,
        reloader.reply_step(reply).0.lib != reloader.lib ==> {
            &&& reloader.lib is None
            &&& reloader.phase == ReloadPhase::Opening
            &&& reply matches ReplyView::Opened { handle: Some(handle) }
            &&& reloader.reply_step(reply).0.lib == Some(handle)
            &&& reloader.reply_step(reply).0.phase == ReloadPhase::Idle
        },
        reloader.lib is Some ==> reloader.phase == ReloadPhase::Idle,
{
}

/// A load in which every step succeeds ends with the handle held, the copy
/// named by the staged counter, and the fingerprint of the bytes that were
/// copied. Offering those bytes again is then no change: the reload's own
/// copy does not set off another reload.
pub proof fn law_fingerprint_follows_copy<H>(
    start: ReloaderView<H>,
    content: Option<Seq<u8>>,
    handle: H,
)
    requires
        start.phase == ReloadPhase::Probing,
    ensures
        reload_run(start, load_replies(content, handle)) == (ReloaderView {
            phase: ReloadPhase::Idle,
            lib: Some(handle),
            load_counter: start.staged_counter,
            loaded_file: start.copy_file(start.staged_counter),
            copy_made: true,
            fingerprint: fingerprint_of(content),
            ..start
        }),
        !reload_run(start, load_replies(content, handle)).accepts(fingerprint_of(content)),
{
    let replies = load_replies(content, handle);
    let r1 = replies.subrange(0, 1);
    let r2 = replies.subrange(0, 2);
    let r3 = replies.subrange(0, 3);
    assert(r1.drop_last() =~= Seq::<ReplyView<H>>::empty());
    assert(r2.drop_last() =~= r1);
    assert(r3.drop_last() =~= r2);
    assert(replies.drop_last() =~= r3);
    assert(reload_run(start, r1.drop_last()) == start);
    let s1 = reload_run(start, r1);
    assert(s1 == ReloaderView {
        phase: ReloadPhase::Copying,
        load_counter: start.staged_counter,
        loaded_file: start.copy_file(start.staged_counter),
        copy_made: true,
        ..start
    });
    let s2 = reload_run(start, r2);
    assert(s2 == ReloaderView { phase: ReloadPhase::Hashing, ..s1 });
    let s3 = reload_run(start, r3);
    assert(s3 == ReloaderView {
        phase: ReloadPhase::Opening,
        fingerprint: fingerprint_of(content),
        ..s2
    });
}

/// A reload that fails leaves no handle: the old one was closed before
/// the new one was known to open, and lookups fail until a later reload
/// succeeds.
pub proof fn law_failed_reload_leaves_no_handle<H>(
    reloader: ReloaderView<H>,
    reply: ReplyView<H>,
    error: HotReloaderError,
)
    requires
        reloader.settled(),
        reloader.reply_step(reply).1 == RequestView::<H>::Done(Err(error)),
    ensures
        reloader.reply_step(reply).0.lib is None,
        reloader.reply_step(reply).0.phase == ReloadPhase::Idle,
        error == HotReloaderError::CopyError || error == HotReloaderError::LoadError,
{
}

/// The load counter never decreases, and every copy that is begun after
/// the first update has a counter of its own.
pub proof fn law_counter_names_each_copy<H>(reloader: ReloaderView<H>, reply: ReplyView<H>)
    requires
        reloader.settled(),
    ensures
        reloader.update_step().0.load_counter == reloader.load_counter,
        reloader.reply_step(reply).0.load_counter >= reloader.load_counter,
        reloader.update_step().0.phase != reloader.phase ==> reloader.update_step().0.staged_counter
            == reloader.load_counter + 1,
{
}

/// No private copy is forgotten. From the moment the host is asked to make
/// a copy, that copy is the loaded file, whatever comes of the load: also
/// after a copy or an open that failed. The teardown names it, and the next
/// update that takes a change up asks the host to delete it before another
/// copy is made, with the handle on it if one is open.
pub proof fn law_no_copy_is_forgotten<H>(reloader: ReloaderView<H>, reply: ReplyView<H>)
    requires
        reloader.settled(),
    ensures
        reloader.reply_step(reply).1 matches RequestView::Copy { from, to } ==> {
            &&& reloader.reply_step(reply).0.loaded_file == to
            &&& reloader.reply_step(reply).0.copy_made
            &&& !reloader.copy_made
        },
        reloader.copy_made && !(reloader.phase == ReloadPhase::Closing
            && reply == (ReplyView::<H>::Closed { ok: true })) ==> {
            &&& reloader.reply_step(reply).0.copy_made
            &&& reloader.reply_step(reply).0.loaded_file == reloader.loaded_file
        },
        reloader.copy_made && reloader.phase == ReloadPhase::Idle && reloader.changed
            ==> reloader.update_step().1 == (RequestView::CloseAndRemove {
            handle: reloader.lib,
            loaded_file: reloader.loaded_file,
        }),
        reloader.update_step().0.copy_made == reloader.copy_made,
        reloader.update_step().0.loaded_file == reloader.loaded_file,
{
}

/// Whether every copy carries its counter in its name: the default name
/// does, and so does a template that holds the placeholder of the load
/// counter, here at position `at`.
pub open spec fn names_carry_counter(template: Option<Seq<char>>, at: int) -> bool {
    template matches Some(t) ==> occurs_at(t, counter_mark(), at)
}

/// Copies with different counters have different names, where the names
/// carry the counter.
pub proof fn law_each_copy_has_its_name<H>(
    reloader: ReloaderView<H>,
    at: int,
    one: nat,
    other: nat,
)
    requires
        names_carry_counter(reloader.template, at),
        one != other,
    ensures
        reloader.copy_file(one) != reloader.copy_file(other),
{
    match reloader.template {
        Some(template) => {
            law_templated_copies_differ(
                reloader.platform,
                reloader.lib_name,
                reloader.pid,
                template,
                at,
                one,
                other,
            );
        },
        None => {
            law_default_copies_differ(
                reloader.platform,
                reloader.lib_name,
                reloader.pid,
                one,
                other,
            );
        },
    }
}

/// The replies of a reload in which every step succeeds: the old handle
/// closes, the artifact exists, and the copy is made, reads as `content`
/// and opens as `handle`.
pub open spec fn reload_replies<H>(content: Option<Seq<u8>>, handle: H) -> Seq<ReplyView<H>> {
    seq![
        ReplyView::Closed { ok: true },
        ReplyView::Probed { exists: true },
        ReplyView::Copied { ok: true },
        ReplyView::Read { content },
        ReplyView::Opened { handle: Some(handle) },
    ]
}

/// A reload supersedes the copy. With a library loaded and a change
/// pending, the update hands the old handle and the name of the old copy to
/// the host, to close and to delete. When every step that follows succeeds,
/// the new handle is held on the copy with the next counter, whose name
/// differs from the old copy's where the names carry the counter; the
/// fingerprint is that of the bytes copied; and the name of the watched
/// artifact is what it was.
pub proof fn law_reload_supersedes_the_copy<H>(
    reloader: ReloaderView<H>,
    old_handle: H,
    new_handle: H,
    content: Option<Seq<u8>>,
    at: int,
)
    requires
        reloader.settled(),
        reloader.phase == ReloadPhase::Idle,
        reloader.changed,
        reloader.lib == Some(old_handle),
        names_carry_counter(reloader.template, at),
    ensures
        reloader.update_step().1 == (RequestView::CloseAndRemove {
            handle: Some(old_handle),
            loaded_file: reloader.loaded_file,
        }),
        reloader.loaded_file == reloader.copy_file(reloader.load_counter),
        reload_run(reloader.update_step().0, reload_replies(content, new_handle)) == (ReloaderView {
            changed: false,
            lib: Some(new_handle),
            load_counter: reloader.load_counter + 1,
            staged_counter: reloader.load_counter + 1,
            loaded_file: reloader.copy_file(reloader.load_counter + 1),
            fingerprint: fingerprint_of(content),
            ..reloader
        }),
        reloader.copy_file(reloader.load_counter + 1) != reloader.loaded_file,
        reload_run(
            reloader.update_step().0,
            reload_replies(content, new_handle),
        ).watched_file() == reloader.watched_file(),
{
    law_each_copy_has_its_name(reloader, at, reloader.load_counter + 1, reloader.load_counter);
    let start = reloader.update_step().0;
    let replies = reload_replies(content, new_handle);
    let r1 = replies.subrange(0, 1);
    let r2 = replies.subrange(0, 2);
    let r3 = replies.subrange(0, 3);
    let r4 = replies.subrange(0, 4);
    assert(r1.drop_last() =~= Seq::<ReplyView<H>>::empty());
    assert(r2.drop_last() =~= r1);
    assert(r3.drop_last() =~= r2);
    assert(r4.drop_last() =~= r3);
    assert(replies.drop_last() =~= r4);
    assert(reload_run(start, r1.drop_last()) == start);
    let s1 = reload_run(start, r1);
    assert(s1 == ReloaderView { phase: ReloadPhase::Probing, copy_made: false, ..start });
    let s2 = reload_run(start, r2);
    assert(s2 == ReloaderView {
        phase: ReloadPhase::Copying,
        load_counter: start.staged_counter,
        loaded_file: start.copy_file(start.staged_counter),
        copy_made: true,
        ..s1
    });
    let s3 = reload_run(start, r3);
    assert(s3 == ReloaderView { phase: ReloadPhase::Hashing, ..s2 });
    let s4 = reload_run(start, r4);
    assert(s4 == ReloaderView {
        phase: ReloadPhase::Opening,
        fingerprint: fingerprint_of(content),
        ..s3
    });
}

} // verus!
