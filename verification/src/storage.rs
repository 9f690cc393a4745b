//! Backend strategies: how a storage root is located, initialized, and —
//! for journaled media — durably committed.
//!
//! Two media are covered. A plain directory on an always-durable medium
//! (`SdCardStorage`) needs no commit step: whatever is written is durable at
//! once. A journaled save-data partition (`DebugSavedataStorage`) buffers
//! writes until an explicit commit, must be mounted once before first use,
//! and keeps one storage area per user, so its working directory carries the
//! user-session identifier.

use vstd::prelude::*;
use vstd::string::StringExecFns;

use crate::error::ConfigError;
use crate::medium::AreaView;
use crate::medium::StorageArea;
use crate::next_count;
use crate::paths::dec_digits;
use crate::paths::u64_dec_string;

verus! {

/// A handle on a platform user session, as the account layer fills it in.
/// A fresh handle is blank; the platform session provider writes into it.
pub struct UserHandle {
    raw: [u64; 3],
}

impl UserHandle {
    /// Whether the handle still holds its blank, never-opened value.
    pub closed spec fn is_blank(&self) -> bool {
        forall|i: int| 0 <= i < 3 ==> self.raw[i] == 0
    }

    /// A blank handle, ready to be handed to the session provider.
    pub fn new() -> (r: UserHandle)
        ensures
            r.is_blank(),
    {
        UserHandle { raw: [0u64; 3] }
    }
}

/// A storage backend: the strategy for locating a storage root, initializing
/// it, and committing pending writes, together with the state of the medium
/// it manages.
///
/// The live state of the medium is `area_view`; `durable_view` is what the
/// medium would still hold after losing power. On a plain medium the two
/// always agree; on a journaled medium they agree right after each
/// `perform_flush`.
pub trait ConfigStorage: Sized {
    /// The backend's internal invariant.
    spec fn inv(&self) -> bool;

    /// Whether `initialize` will succeed on this backend.
    spec fn can_initialize(&self) -> bool;

    /// The medium-level base location.
    spec fn root_spec(&self) -> Seq<char>;

    /// The effective working directory for all storage operations.
    spec fn storage_spec(&self) -> Seq<char>;

    /// Whether the medium buffers writes until an explicit commit.
    spec fn flushing(&self) -> bool;

    /// Whether the medium is ready for file operations (mounted, for media
    /// that need mounting).
    spec fn ready(&self) -> bool;

    /// The live state of the storage area.
    spec fn area_view(&self) -> AreaView;

    /// The state the medium keeps across a power cut.
    spec fn durable_view(&self) -> AreaView;

    /// How many durable commits the medium has performed.
    spec fn commit_count(&self) -> u64;

    /// On a plain (non-journaled) medium, every state is durable at once.
    proof fn plain_is_durable(&self)
        requires
            self.inv(),
            !self.flushing(),
        ensures
            self.durable_view() == self.area_view(),
    ;

    /// The working directory always lies inside the root location.
    proof fn storage_under_root(&self)
        ensures
            self.storage_spec().len() >= self.root_spec().len(),
            self.storage_spec().take(self.root_spec().len() as int) == self.root_spec(),
    ;

    /// Ensures the storage root exists and the medium is ready: mounts media
    /// that need mounting (mounting again is harmless) and creates the
    /// working directory if it is absent. Callable any number of times; the
    /// state after a repeated call is the state after the first.
    fn initialize(&mut self) -> (r: Result<(), ConfigError>)
        requires
            old(self).inv(),
        ensures
            final(self).inv(),
            final(self).root_spec() == old(self).root_spec(),
            final(self).storage_spec() == old(self).storage_spec(),
            final(self).flushing() == old(self).flushing(),
            final(self).can_initialize() == old(self).can_initialize(),
            r is Ok <==> old(self).can_initialize(),
            r is Ok ==> final(self).area_view() == old(self).area_view().initialized(),
            r is Ok ==> final(self).ready(),
            r is Err ==> final(self).area_view() == old(self).area_view(),
            old(self).flushing() ==> final(self).durable_view() == old(self).durable_view(),
            final(self).commit_count() == old(self).commit_count(),
    ;

    /// The medium-level base location.
    fn root_path(&self) -> (r: String)
        ensures
            r@ == self.root_spec(),
    ;

    /// The working directory for all storage operations.
    fn storage_path(&self) -> (r: String)
        ensures
            r@ == self.storage_spec(),
    ;

    /// Whether writes must be committed explicitly to become durable.
    fn require_flushing(&self) -> (r: bool)
        ensures
            r == self.flushing(),
    ;

    /// Issues the medium's durable-commit step. Safe to call when nothing
    /// changed; a plain medium does nothing.
    fn perform_flush(&mut self)
        requires
            old(self).inv(),
        ensures
            final(self).inv(),
            final(self).root_spec() == old(self).root_spec(),
            final(self).storage_spec() == old(self).storage_spec(),
            final(self).flushing() == old(self).flushing(),
            final(self).can_initialize() == old(self).can_initialize(),
            final(self).ready() == old(self).ready(),
            final(self).area_view() == old(self).area_view(),
            final(self).durable_view() == final(self).area_view(),
            old(self).flushing() ==> final(self).commit_count() == next_count(
                old(self).commit_count(),
            ),
            !old(self).flushing() ==> final(self).commit_count() == old(self).commit_count(),
    ;

    /// How many durable commits the medium has performed so far.
    fn commit_tally(&self) -> (r: u64)
        ensures
            r == self.commit_count(),
    ;

    /// A read-only borrow of the storage area.
    fn area_ref(&self) -> (r: &StorageArea)
        requires
            self.inv(),
        ensures
            r.wf(),
            r@ == self.area_view(),
    ;

    /// A mutable borrow of the storage area. Whatever the caller does to the
    /// area is what happens to the live medium state; everything else about
    /// the backend stays as it was, and nothing gets committed by itself.
    fn area_mut(&mut self) -> (r: &mut StorageArea)
        requires
            old(self).inv(),
        ensures
            (*r).wf(),
            (*r)@ == old(self).area_view(),
            final(self).area_view() == final(r)@,
            final(r).wf() ==> final(self).inv(),
            final(self).root_spec() == old(self).root_spec(),
            final(self).storage_spec() == old(self).storage_spec(),
            final(self).flushing() == old(self).flushing(),
            final(self).can_initialize() == old(self).can_initialize(),
            final(self).ready() == old(self).ready(),
            old(self).flushing() ==> final(self).durable_view() == old(self).durable_view(),
            final(self).commit_count() == old(self).commit_count(),
    ;
}

/// Plain directory storage on an always-durable medium, under a caller-chosen
/// namespace.
pub struct SdCardStorage {
    namespace: String,
    area: StorageArea,
}

impl SdCardStorage {
    /// A backend over a fresh medium, working under the given namespace.
    pub fn new(path: String) -> (r: SdCardStorage)
        ensures
            r.inv(),
            r.can_initialize(),
            r.root_spec() == "sd:/"@,
            r.storage_spec() == "sd:/"@ + path@,
            r.area_view() == AreaView::empty(),
            r.durable_view() == AreaView::empty(),
            r.commit_count() == 0,
            !r.flushing(),
    {
        SdCardStorage { namespace: path, area: StorageArea::new() }
    }
}

impl ConfigStorage for SdCardStorage {
    closed spec fn inv(&self) -> bool {
        self.area.wf()
    }

    closed spec fn can_initialize(&self) -> bool {
        true
    }

    closed spec fn root_spec(&self) -> Seq<char> {
        "sd:/"@
    }

    closed spec fn storage_spec(&self) -> Seq<char> {
        "sd:/"@ + self.namespace@
    }

    closed spec fn flushing(&self) -> bool {
        false
    }

    closed spec fn ready(&self) -> bool {
        true
    }

    closed spec fn area_view(&self) -> AreaView {
        self.area@
    }

    closed spec fn durable_view(&self) -> AreaView {
        self.area@
    }

    closed spec fn commit_count(&self) -> u64 {
        0
    }

    proof fn plain_is_durable(&self) {
    }

    proof fn storage_under_root(&self) {
        assert(self.storage_spec().take(self.root_spec().len() as int) =~= self.root_spec());
    }

    fn initialize(&mut self) -> (r: Result<(), ConfigError>) {
        self.area.create_dir();
        Ok(())
    }

    fn root_path(&self) -> (r: String) {
        let r = "sd:/".to_owned();
        r
    }

    fn storage_path(&self) -> (r: String) {
        self.root_path().concat(self.namespace.as_str())
    }

    fn require_flushing(&self) -> (r: bool) {
        false
    }

    fn perform_flush(&mut self) {
    }

    fn commit_tally(&self) -> (r: u64) {
        0
    }

    fn area_ref(&self) -> (r: &StorageArea) {
        &self.area
    }

    fn area_mut(&mut self) -> (r: &mut StorageArea) {
        &mut self.area
    }
}

/// The configuration directory kept for one user on the journaled save-data
/// partition. The partition must be mounted once before use, and writes only
/// become durable when a commit is issued; the working directory carries the
/// two-part user-session identifier, so each user keeps their own
/// configuration.
pub struct DebugSavedataStorage {
    uid_hi: u64,
    uid_lo: u64,
    plugin_name: String,
    mounted: bool,
    area: StorageArea,
    committed: Ghost<AreaView>,
    commits: u64,
}

impl DebugSavedataStorage {
    /// The working directory for this user and plugin:
    /// `config:/<uid hi>/<uid lo>/<plugin name>`.
    pub open spec fn user_storage_spec(uid_hi: u64, uid_lo: u64, plugin_name: Seq<char>) -> Seq<
        char,
    > {
        "config:/"@ + dec_digits(uid_hi as nat) + "/"@ + dec_digits(uid_lo as nat) + "/"@
            + plugin_name
    }

    /// A backend over a fresh medium for the user with the given two-part
    /// session identifier, working under the plugin's own directory.
    pub fn new(uid_hi: u64, uid_lo: u64, plugin_name: String) -> (r: DebugSavedataStorage)
        ensures
            r.inv(),
            r.can_initialize(),
            r.root_spec() == "config:/"@,
            r.storage_spec() == Self::user_storage_spec(uid_hi, uid_lo, plugin_name@),
            r.area_view() == AreaView::empty(),
            r.durable_view() == AreaView::empty(),
            r.commit_count() == 0,
            r.flushing(),
            !r.ready(),
    {
        DebugSavedataStorage {
            uid_hi,
            uid_lo,
            plugin_name,
            mounted: false,
            area: StorageArea::new(),
            committed: Ghost(AreaView::empty()),
            commits: 0,
        }
    }

    /// Whether the save-data partition has been mounted.
    pub fn is_mounted(&self) -> (r: bool)
        ensures
            r == self.ready(),
    {
        self.mounted
    }
}

impl ConfigStorage for DebugSavedataStorage {
    closed spec fn inv(&self) -> bool {
        self.area.wf()
    }

    closed spec fn can_initialize(&self) -> bool {
        true
    }

    closed spec fn root_spec(&self) -> Seq<char> {
        "config:/"@
    }

    closed spec fn storage_spec(&self) -> Seq<char> {
        Self::user_storage_spec(self.uid_hi, self.uid_lo, self.plugin_name@)
    }

    closed spec fn flushing(&self) -> bool {
        true
    }

    closed spec fn ready(&self) -> bool {
        self.mounted
    }

    closed spec fn area_view(&self) -> AreaView {
        self.area@
    }

    closed spec fn durable_view(&self) -> AreaView {
        self.committed@
    }

    closed spec fn commit_count(&self) -> u64 {
        self.commits
    }

    proof fn plain_is_durable(&self) {
    }

    proof fn storage_under_root(&self) {
        assert(self.storage_spec().take(self.root_spec().len() as int) =~= self.root_spec());
    }

    fn initialize(&mut self) -> (r: Result<(), ConfigError>) {
        // Mounting an already-mounted partition is tolerated and ignored.
        self.mounted = true;
        self.area.create_dir();
        Ok(())
    }

    fn root_path(&self) -> (r: String) {
        let r = "config:/".to_owned();
        r
    }

    fn storage_path(&self) -> (r: String) {
        let mut r = self.root_path();
        r.append(u64_dec_string(self.uid_hi).as_str());
        r.append("/");
        r.append(u64_dec_string(self.uid_lo).as_str());
        r.append("/");
        r.append(self.plugin_name.as_str());
        r
    }

    fn require_flushing(&self) -> (r: bool) {
        true
    }

    fn perform_flush(&mut self) {
        let ghost live = self.area@;
        self.committed = Ghost(live);
        self.commits = if self.commits == u64::MAX {
            self.commits
        } else {
            self.commits + 1
        };
    }

    fn commit_tally(&self) -> (r: u64) {
        self.commits
    }

    fn area_ref(&self) -> (r: &StorageArea) {
        &self.area
    }

    fn area_mut(&mut self) -> (r: &mut StorageArea) {
        &mut self.area
    }
}

impl Drop for DebugSavedataStorage {
    /// One last commit when the backend goes away, so durability never
    /// depends on the caller remembering to flush: whatever the live state
    /// was becomes durable, at the price of exactly one commit.
    fn drop(&mut self)
        ensures
            final(self).commit_count() == next_count(old(self).commit_count()),
            final(self).durable_view() == old(self).area_view(),
        opens_invariants none
        no_unwind
    {
        let ghost live = self.area@;
        self.committed = Ghost(live);
        self.commits = if self.commits == u64::MAX {
            self.commits
        } else {
            self.commits + 1
        };
    }
}

} // verus!
