//! Application state: the engine wrapper, the open repository location
//! and the snapshot ids it returned, with a shared, lock-guarded holder
//! and the checks every repository operation is gated on.

use vstd::prelude::*;
use vstd::rwlock::RwLock;

use crate::location::Location;
use crate::program::{clone_strings, Program};
use crate::records::contains_str;


verus! {

/// The message rejecting an engine binary path that does not exist.
pub open spec fn missing_restic_message(path: Seq<char>) -> Seq<char> {
    "Restic executable '"@ + path + "' does not exist or can not be accessed."@
}

/// The message rejecting an engine binary whose version query failed.
pub open spec fn bad_version_message(path: Seq<char>) -> Seq<char> {
    "Failed to query restic version. Is '"@ + path + "' a valid restic application?"@
}

/// The message rejecting an unknown snapshot id.
pub open spec fn unknown_snapshot_message(id: Seq<char>) -> Seq<char> {
    "Can't resolve snapshot with id "@ + id
}

/// The state one frontend session works on.
#[derive(Debug)]
pub struct AppState {
    pub restic: Program,
    pub location: Location,
    pub snapshot_ids: Vec<String>,
    pub temp_dir: String,
}

impl AppState {
    /// A fresh state for the given engine, location and preview
    /// directory; no snapshot ids are known yet.
    pub fn new(restic: Program, location: Location, temp_dir: String) -> (r: AppState)
        ensures
            r.restic == restic,
            r.location == location,
            r.temp_dir == temp_dir,
            r.snapshot_ids@ == Seq::<String>::empty(),
    {
        let snapshot_ids: Vec<String> = Vec::new();
        AppState { restic, location, snapshot_ids, temp_dir }
    }

    /// The directory preview downloads go to.
    pub fn temp_dir(&self) -> (r: &String)
        ensures
            *r == self.temp_dir,
    {
        &self.temp_dir
    }

    /// Checks that a usable engine binary is configured: a path must be
    /// set, the file behind it must exist — the caller says whether it
    /// does — and its version query must have succeeded.
    pub fn verify_restic_path(&self, restic_path_exists: bool) -> (r: Result<(), String>)
        ensures
            r is Ok <==> (self.restic.restic_path@.len() > 0 && restic_path_exists
                && self.restic.restic_version is Some),
            r matches Err(e) ==> e@ == (if self.restic.restic_path@.len() == 0 {
                "No restic executable set"@
            } else if !restic_path_exists {
                missing_restic_message(self.restic.restic_path@)
            } else {
                bad_version_message(self.restic.restic_path@)
            }),
    {
        if self.restic.restic_path.as_str().is_empty() {
            return Err("No restic executable set".to_owned());
        }
        if !restic_path_exists {
            let head = crate::text::concat_strs("Restic executable '", self.restic.restic_path.as_str());
            return Err(crate::text::concat_strs(
                head.as_str(),
                "' does not exist or can not be accessed.",
            ));
        }
        match &self.restic.restic_version {
            Some(_) => Ok(()),
            None => {
                let head = crate::text::concat_strs(
                    "Failed to query restic version. Is '",
                    self.restic.restic_path.as_str(),
                );
                Err(crate::text::concat_strs(head.as_str(), "' a valid restic application?"))
            },
        }
    }

    /// Checks that a repository is set: an empty path is the unset
    /// location and every repository operation must reject it.
    pub fn verify_location(&self) -> (r: Result<(), String>)
        ensures
            r is Ok <==> self.location.path@.len() > 0,
            r matches Err(e) ==> e@ == "No repository set"@,
    {
        if self.location.path.as_str().is_empty() {
            return Err("No repository set".to_owned());
        }
        Ok(())
    }

    /// Checks that a snapshot id was returned by the last listing, so a
    /// request cannot name a snapshot the repository never showed.
    pub fn verify_snapshot(&self, snapshot_id: &str) -> (r: Result<(), String>)
        ensures
            r is Ok <==> contains_str(self.snapshot_ids@, snapshot_id@),
            r matches Err(e) ==> e@ == unknown_snapshot_message(snapshot_id@),
    {
        if crate::records::contains_string(&self.snapshot_ids, snapshot_id) {
            Ok(())
        } else {
            Err(crate::text::concat_strs("Can't resolve snapshot with id ", snapshot_id))
        }
    }

    /// A copy of this state, field for field.
    pub fn duplicate(&self) -> (r: AppState)
        ensures
            r.restic.restic_version == self.restic.restic_version,
            r.restic.restic_path == self.restic.restic_path,
            r.restic.rclone_path == self.restic.rclone_path,
            r.location.prefix == self.location.prefix,
            r.location.path == self.location.path,
            r.location.credentials@ == self.location.credentials@,
            r.location.allow_empty_password == self.location.allow_empty_password,
            r.location.password == self.location.password,
            r.location.insecure_tls == self.location.insecure_tls,
            r.snapshot_ids@ == self.snapshot_ids@,
            r.temp_dir == self.temp_dir,
    {
        let rclone_path = match &self.restic.rclone_path {
            Some(p) => Some(p.clone()),
            None => None,
        };
        AppState {
            restic: Program {
                restic_version: self.restic.restic_version,
                restic_path: self.restic.restic_path.clone(),
                rclone_path,
            },
            location: self.location.duplicate(),
            snapshot_ids: clone_strings(&self.snapshot_ids),
            temp_dir: self.temp_dir.clone(),
        }
    }
}

/// The shared, lock-guarded application state, as held by concurrent
/// frontend call sites: the lock is held only across the copy or the
/// field update, never across a spawn or wait.
pub struct SharedAppState {
    state: RwLock<AppState, spec_fn(AppState) -> bool>,
}

impl SharedAppState {
    /// Any state may be stored: the lock guards exclusion, not a
    /// property of the value.
    #[verifier::type_invariant]
    spec fn wf(self) -> bool {
        forall|s: AppState| self.state.inv(s)
    }

    /// Shares an application state behind a reader–writer lock.
    pub fn new(app_state: AppState) -> (r: SharedAppState) {
        let state = RwLock::new(app_state, Ghost(|s: AppState| true));
        proof {
            assert(forall|s: AppState| state.inv(s));
        }
        SharedAppState { state }
    }

    /// A copy of the current state; the read lock is held only while
    /// copying.
    pub fn get(&self) -> (r: Result<AppState, String>)
        ensures
            r is Ok,
    {
        let handle = self.state.acquire_read();
        let copy = handle.borrow().duplicate();
        handle.release_read();
        Ok(copy)
    }

    /// Replaces the engine wrapper in the shared state.
    pub fn update_restic(&self, restic: Program) -> (r: Result<(), String>)
        ensures
            r is Ok,
    {
        proof {
            use_type_invariant(self);
        }
        let (mut st, write_handle) = self.state.acquire_write();
        st.restic = restic;
        write_handle.release_write(st);
        Ok(())
    }

    /// Replaces the repository location in the shared state.
    pub fn update_location(&self, location: Location) -> (r: Result<(), String>)
        ensures
            r is Ok,
    {
        proof {
            use_type_invariant(self);
        }
        let (mut st, write_handle) = self.state.acquire_write();
        st.location = location;
        write_handle.release_write(st);
        Ok(())
    }

    /// Replaces the known snapshot ids in the shared state.
    pub fn update_snapshot_ids(&self, snapshot_ids: Vec<String>) -> (r: Result<(), String>)
        ensures
            r is Ok,
    {
        proof {
            use_type_invariant(self);
        }
        let (mut st, write_handle) = self.state.acquire_write();
        st.snapshot_ids = snapshot_ids;
        write_handle.release_write(st);
        Ok(())
    }
}

} // verus!
