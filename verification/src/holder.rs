//! The storage holder: field, flag and directory operations over one
//! exclusively-owned backend, with a commit after every successful mutation.
//!
//! Every mutating operation that succeeds leaves the medium durable: on a
//! journaled backend it issues exactly one commit, on a plain backend none
//! is needed. Read-only operations never commit.

use vstd::prelude::*;

use crate::error::ConfigError;
use crate::medium::AreaView;
use crate::next_count;
use crate::storage::ConfigStorage;
use crate::value::ConfigValue;

verus! {

/// Field, flag and directory operations over one storage backend, owned
/// exclusively for the holder's whole lifetime.
pub struct StorageHolder<CS: ConfigStorage> {
    backend: CS,
}

impl<CS: ConfigStorage> StorageHolder<CS> {
    /// The holder's invariant: the backend's own invariant.
    pub closed spec fn inv(&self) -> bool {
        self.backend.inv()
    }

    /// The fields and flags currently in the storage area: name to content.
    pub closed spec fn files(&self) -> Map<Seq<char>, Seq<char>> {
        self.backend.area_view().files
    }

    /// Whether the working directory exists on the medium.
    pub closed spec fn dir_present(&self) -> bool {
        self.backend.area_view().present
    }

    /// The live state of the storage area.
    pub closed spec fn live(&self) -> AreaView {
        self.backend.area_view()
    }

    /// The state the medium keeps across a power cut.
    pub closed spec fn durable(&self) -> AreaView {
        self.backend.durable_view()
    }

    /// Whether everything written is durable.
    pub open spec fn synced(&self) -> bool {
        self.durable() == self.live()
    }

    /// Whether the backend's medium buffers writes until a commit.
    pub closed spec fn flushing(&self) -> bool {
        self.backend.flushing()
    }

    /// How many durable commits the backend has performed.
    pub closed spec fn commit_count(&self) -> u64 {
        self.backend.commit_count()
    }

    /// The working directory for all operations.
    pub closed spec fn storage_spec(&self) -> Seq<char> {
        self.backend.storage_spec()
    }

    /// The commit count right after one successful mutation: a journaled
    /// medium commits once, a plain medium needs no commit.
    pub open spec fn count_after_mutation(&self) -> u64 {
        if self.flushing() {
            next_count(self.commit_count())
        } else {
            self.commit_count()
        }
    }

    /// Whether `new` keeps the strategy of `self`: same working directory,
    /// same commit discipline.
    pub open spec fn same_strategy(&self, new: &Self) -> bool {
        &&& new.storage_spec() == self.storage_spec()
        &&& new.flushing() == self.flushing()
    }

    /// Whether an operation has left the storage state exactly as it found
    /// it: same live state, same durable state, not one commit issued.
    pub open spec fn untouched(&self, new: &Self) -> bool {
        &&& new.live() == self.live()
        &&& new.durable() == self.durable()
        &&& new.commit_count() == self.commit_count()
    }

    /// How many durable commits the backend has performed so far.
    pub fn commits_made(&self) -> (r: u64)
        requires
            self.inv(),
        ensures
            r == self.commit_count(),
    {
        self.backend.commit_tally()
    }

    /// Takes exclusive ownership of a backend and initializes it. A holder
    /// only ever exists over storage that is ready for use.
    pub fn new(storage: CS) -> (r: StorageHolder<CS>)
        requires
            storage.inv(),
            storage.can_initialize(),
        ensures
            r.inv(),
            r.dir_present(),
            r.files() == storage.area_view().files,
            r.flushing() == storage.flushing(),
            r.commit_count() == storage.commit_count(),
            r.storage_spec() == storage.storage_spec(),
            storage.flushing() ==> r.durable() == storage.durable_view(),
    {
        let mut storage = storage;
        let outcome = storage.initialize();
        proof {
            assert(outcome is Ok);
        }
        StorageHolder { backend: storage }
    }

    /// Creates an empty file, replacing the content of an existing one. Does
    /// not commit by itself; flag writing commits on top of this.
    fn create(&mut self, path: &str) -> (r: Result<(), ConfigError>)
        requires
            old(self).inv(),
        ensures
            final(self).inv(),
            old(self).same_strategy(final(self)),
            r is Ok <==> old(self).dir_present(),
            r is Ok ==> final(self).files() == old(self).files().insert(path@, ""@),
            r is Ok ==> final(self).dir_present(),
            r is Err ==> old(self).untouched(final(self)),
            r is Err ==> r == Err::<(), ConfigError>(ConfigError::FileError),
            final(self).commit_count() == old(self).commit_count(),
            old(self).flushing() ==> final(self).durable() == old(self).durable(),
            !old(self).flushing() ==> final(self).synced(),
    {
        proof {
            if !self.backend.flushing() {
                self.backend.plain_is_durable();
            }
        }
        let mut made = false;
        let area = self.backend.area_mut();
        if area.dir_present() {
            area.write_file(path, "");
            made = true;
        }
        proof {
            if !self.backend.flushing() {
                self.backend.plain_is_durable();
            }
            reveal_strlit("");
        }
        if made {
            Ok(())
        } else {
            Err(ConfigError::FileError)
        }
    }

    /// Deletes the file; deleting a file that is not there is an error.
    /// Commits on success.
    fn remove_file(&mut self, path: &str) -> (r: Result<(), ConfigError>)
        requires
            old(self).inv(),
        ensures
            final(self).inv(),
            old(self).same_strategy(final(self)),
            r is Ok <==> old(self).files().dom().contains(path@),
            r is Ok ==> final(self).files() == old(self).files().remove(path@),
            r is Ok ==> final(self).dir_present() == old(self).dir_present(),
            r is Ok ==> final(self).synced(),
            r is Ok ==> final(self).commit_count() == old(self).count_after_mutation(),
            r is Err ==> old(self).untouched(final(self)),
            r is Err ==> r == Err::<(), ConfigError>(ConfigError::FileError),
    {
        proof {
            if !self.backend.flushing() {
                self.backend.plain_is_durable();
            }
        }
        let mut removed = false;
        let area = self.backend.area_mut();
        if area.remove_file(path) {
            removed = true;
        }
        proof {
            if !self.backend.flushing() {
                self.backend.plain_is_durable();
            }
        }
        if removed {
            self.flush();
            Ok(())
        } else {
            Err(ConfigError::FileError)
        }
    }

    /// Renames a field or a flag to another name, replacing anything already
    /// stored under the new name. Renaming a missing name is an error.
    /// Commits on success.
    pub fn rename(&mut self, from: &str, to: &str) -> (r: Result<(), ConfigError>)
        requires
            old(self).inv(),
        ensures
            final(self).inv(),
            old(self).same_strategy(final(self)),
            r is Ok <==> old(self).files().dom().contains(from@),
            r is Ok ==> final(self).files() == old(self).files().remove(from@).insert(
                to@,
                old(self).files()[from@],
            ),
            r is Ok ==> final(self).dir_present() == old(self).dir_present(),
            r is Ok ==> final(self).synced(),
            r is Ok ==> final(self).commit_count() == old(self).count_after_mutation(),
            r is Err ==> old(self).untouched(final(self)),
            r is Err ==> r == Err::<(), ConfigError>(ConfigError::FileError),
    {
        proof {
            if !self.backend.flushing() {
                self.backend.plain_is_durable();
            }
        }
        let mut moved = false;
        let area = self.backend.area_mut();
        proof {
            area.lemma_wf_view();
        }
        let content = match area.read_file(from) {
            Some(c) => c.clone(),
            None => String::new(),
        };
        if area.remove_file(from) {
            area.write_file(to, content.as_str());
            moved = true;
        }
        proof {
            if !self.backend.flushing() {
                self.backend.plain_is_durable();
            }
        }
        if moved {
            self.flush();
            Ok(())
        } else {
            Err(ConfigError::FileError)
        }
    }

    /// The names of every entry directly under the working directory, each
    /// exactly once, or an error if the directory does not exist.
    pub fn read_dir(&self) -> (r: Result<Vec<String>, ConfigError>)
        requires
            self.inv(),
        ensures
            r is Ok <==> self.dir_present(),
            match r {
                Ok(names) => {
                    &&& names@.len() == self.files().dom().len()
                    &&& names@.map_values(|s: String| s@).no_duplicates()
                    &&& forall|k: Seq<char>| #[trigger]
                        self.files().dom().contains(k) <==> names@.map_values(
                            |s: String| s@,
                        ).contains(k)
                },
                Err(e) => e == ConfigError::FileError,
            },
    {
        let area = self.backend.area_ref();
        if area.dir_present() {
            Ok(area.file_names())
        } else {
            Err(ConfigError::FileError)
        }
    }

    /// The raw text content of a field, or an error if there is no such
    /// file to read.
    fn read_to_string(&self, path: &str) -> (r: Result<String, ConfigError>)
        requires
            self.inv(),
        ensures
            match r {
                Ok(c) => self.files().dom().contains(path@) && c@ == self.files()[path@],
                Err(e) => !self.files().dom().contains(path@) && e == ConfigError::FileError,
            },
    {
        let area = self.backend.area_ref();
        match area.read_file(path) {
            Some(c) => Ok(c.clone()),
            None => Err(ConfigError::FileError),
        }
    }

    /// Writes a file, replacing any previous content, and commits.
    fn write(&mut self, path: &str, contents: &str) -> (r: Result<(), ConfigError>)
        requires
            old(self).inv(),
        ensures
            final(self).inv(),
            old(self).same_strategy(final(self)),
            r is Ok <==> old(self).dir_present(),
            r is Ok ==> final(self).files() == old(self).files().insert(path@, contents@),
            r is Ok ==> final(self).dir_present(),
            r is Ok ==> final(self).synced(),
            r is Ok ==> final(self).commit_count() == old(self).count_after_mutation(),
            r is Err ==> old(self).untouched(final(self)),
            r is Err ==> r == Err::<(), ConfigError>(ConfigError::FileError),
    {
        proof {
            if !self.backend.flushing() {
                self.backend.plain_is_durable();
            }
        }
        let mut written = false;
        let area = self.backend.area_mut();
        if area.dir_present() {
            area.write_file(path, contents);
            written = true;
        }
        proof {
            if !self.backend.flushing() {
                self.backend.plain_is_durable();
            }
        }
        if written {
            self.flush();
            Ok(())
        } else {
            Err(ConfigError::FileError)
        }
    }

    /// The value of the field, read as `T`. A path that holds no field is
    /// `FieldMissing`; a field whose text `T` does not accept is
    /// `FromStrErr`.
    pub fn get_field<T: ConfigValue>(&self, path: &str) -> (r: Result<T, ConfigError>)
        requires
            self.inv(),
        ensures
            match r {
                Ok(v) => {
                    &&& self.files().dom().contains(path@)
                    &&& T::accepts(self.files()[path@])
                    &&& v.is_parsed_of(self.files()[path@])
                },
                Err(e) => {
                    ||| (e == ConfigError::FieldMissing && !self.files().dom().contains(path@))
                    ||| (e == ConfigError::FromStrErr && self.files().dom().contains(path@)
                        && !T::accepts(self.files()[path@]))
                },
            },
    {
        let content = match self.read_to_string(path) {
            Ok(c) => c,
            Err(_) => {
                return Err(ConfigError::FieldMissing);
            },
        };
        match T::from_field_text(content.as_str()) {
            Some(v) => Ok(v),
            None => Err(ConfigError::FromStrErr),
        }
    }

    /// Creates the field if needed and assigns it the given text, committing
    /// on success. Fails only when the working directory is missing.
    pub fn set_field(&mut self, path: &str, contents: &str) -> (r: Result<(), ConfigError>)
        requires
            old(self).inv(),
        ensures
            final(self).inv(),
            old(self).same_strategy(final(self)),
            r is Ok <==> old(self).dir_present(),
            r is Ok ==> final(self).files() == old(self).files().insert(path@, contents@),
            r is Ok ==> final(self).dir_present(),
            r is Ok ==> final(self).synced(),
            r is Ok ==> final(self).commit_count() == old(self).count_after_mutation(),
            r is Err ==> old(self).untouched(final(self)),
            r is Err ==> r == Err::<(), ConfigError>(ConfigError::FileError),
    {
        self.write(path, contents)
    }

    /// Removes the field along with its value, committing on success.
    /// Removing a field that was never written is an error, not a no-op.
    pub fn remove_field(&mut self, path: &str) -> (r: Result<(), ConfigError>)
        requires
            old(self).inv(),
        ensures
            final(self).inv(),
            old(self).same_strategy(final(self)),
            r is Ok <==> old(self).files().dom().contains(path@),
            r is Ok ==> final(self).files() == old(self).files().remove(path@),
            r is Ok ==> final(self).dir_present() == old(self).dir_present(),
            r is Ok ==> final(self).synced(),
            r is Ok ==> final(self).commit_count() == old(self).count_after_mutation(),
            r is Err ==> old(self).untouched(final(self)),
            r is Err ==> r == Err::<(), ConfigError>(ConfigError::FileError),
    {
        self.remove_file(path)
    }

    /// Whether the flag is set: a pure existence check that never fails and
    /// never commits.
    pub fn get_flag(&self, path: &str) -> (r: bool)
        requires
            self.inv(),
        ensures
            r == self.files().dom().contains(path@),
    {
        let area = self.backend.area_ref();
        area.has_file(path)
    }

    /// Sets or clears the flag, committing on success. Setting a flag that
    /// is already set succeeds; clearing one that was never set is an error.
    pub fn set_flag(&mut self, path: &str, flag: bool) -> (r: Result<(), ConfigError>)
        requires
            old(self).inv(),
        ensures
            final(self).inv(),
            old(self).same_strategy(final(self)),
            flag ==> (r is Ok <==> old(self).dir_present()),
            !flag ==> (r is Ok <==> old(self).files().dom().contains(path@)),
            r is Ok && flag ==> final(self).files() == old(self).files().insert(path@, ""@),
            r is Ok && !flag ==> final(self).files() == old(self).files().remove(path@),
            r is Ok ==> final(self).dir_present() == old(self).dir_present(),
            r is Ok ==> final(self).synced(),
            r is Ok ==> final(self).commit_count() == old(self).count_after_mutation(),
            r is Err ==> old(self).untouched(final(self)),
            r is Err ==> r == Err::<(), ConfigError>(ConfigError::FileError),
    {
        if flag {
            match self.create(path) {
                Ok(()) => {
                    self.flush();
                    Ok(())
                },
                Err(e) => Err(e),
            }
        } else {
            self.remove_file(path)
        }
    }

    /// Deletes every file directly under the working directory, then commits
    /// once for the whole sweep. The directory itself stays.
    pub fn clear_storage(&mut self)
        requires
            old(self).inv(),
            old(self).dir_present(),
        ensures
            final(self).inv(),
            old(self).same_strategy(final(self)),
            final(self).files() == Map::<Seq<char>, Seq<char>>::empty(),
            final(self).dir_present(),
            final(self).synced(),
            final(self).commit_count() == old(self).count_after_mutation(),
    {
        let area = self.backend.area_mut();
        area.clear_files();
        proof {
            if !self.backend.flushing() {
                self.backend.plain_is_durable();
            }
        }
        self.flush();
    }

    /// Removes the entire working directory and everything in it, then
    /// commits once.
    pub fn delete_storage(&mut self)
        requires
            old(self).inv(),
            old(self).dir_present(),
        ensures
            final(self).inv(),
            old(self).same_strategy(final(self)),
            final(self).files() == Map::<Seq<char>, Seq<char>>::empty(),
            !final(self).dir_present(),
            final(self).synced(),
            final(self).commit_count() == old(self).count_after_mutation(),
    {
        let area = self.backend.area_mut();
        area.remove_dir();
        proof {
            if !self.backend.flushing() {
                self.backend.plain_is_durable();
            }
        }
        self.flush();
    }

    /// An explicit commit: always safe to call, and the way to guarantee
    /// durability at the end of the holder's life. Delegates to the
    /// backend's commit step only if the medium buffers writes.
    pub fn flush(&mut self)
        requires
            old(self).inv(),
        ensures
            final(self).inv(),
            old(self).same_strategy(final(self)),
            final(self).live() == old(self).live(),
            final(self).synced(),
            final(self).commit_count() == old(self).count_after_mutation(),
    {
        if self.backend.require_flushing() {
            self.backend.perform_flush();
        } else {
            proof {
                self.backend.plain_is_durable();
            }
        }
    }
}

} // verus!
