//! What an asset holds of its value: its status, the value, its bytes, and how its
//! persistence went; and how loading from the store, evaluating and reading the bytes change
//! it.
use vstd::prelude::*;
use crate::assets::{
    Status, PersistenceStatus, ReadExposure, spec_fast_track, spec_read_exposure, spec_classify_persistence,
    fast_track, persistence_outcome, persistence_warning, persistence_message,
};
use crate::error::Error;

verus! {

/// The value part of an asset.
pub struct HeldValue<V> {
    pub status: Status,
    pub data: Option<V>,
    pub binary: Option<Vec<u8>>,
    pub persistence: PersistenceStatus,
    pub warnings: Vec<String>,
}

/// The persistence status a save with this result leaves.
pub open spec fn spec_persistence_of(result: Result<(), Error>) -> PersistenceStatus {
    match result {
        Ok(()) => PersistenceStatus::Persisted,
        Err(e) => spec_classify_persistence(e.error_type),
    }
}

impl<V> HeldValue<V> {
    /// Nothing held yet.
    pub fn new() -> (r: Self)
        ensures
            r.status == Status::Nothing,
            r.data is None,
            r.binary is None,
            r.persistence == PersistenceStatus::Nothing,
            r.warnings@.len() == 0,
    {
        HeldValue {
            status: Status::Nothing,
            data: None,
            binary: None,
            persistence: PersistenceStatus::Nothing,
            warnings: Vec::new(),
        }
    }

    /// Forgets whatever a failed load left: no value, no bytes, no status.
    pub fn clear_fast_track_payload(&mut self)
        ensures
            final(self).status == Status::Nothing,
            final(self).data is None,
            final(self).binary is None,
            final(self).persistence == old(self).persistence,
            final(self).warnings == old(self).warnings,
    {
        self.data = None;
        self.binary = None;
        self.status = Status::Nothing;
    }

    /// Serves a stored entry, in status `stored`, with bytes `binary`, which deserialized to
    /// `value`, and whose recorded dependencies are `dependencies` (recorded version, current
    /// version when known): when it may be served, the asset holds it; otherwise the asset is
    /// reset, to be evaluated. Reports whether it was served.
    pub fn try_fast_track_with(
        &mut self,
        stored: Status,
        binary: Vec<u8>,
        value: Result<V, Error>,
        dependencies: &Vec<(u64, Option<u64>)>,
    ) -> (r: bool)
        ensures
            r == spec_fast_track(stored, value is Ok, dependencies@),
            r ==> {
                &&& final(self).status == stored
                &&& final(self).data == Some(value->Ok_0)
                &&& final(self).binary matches Some(b) && b@ == binary@
            },
            !r ==> {
                &&& final(self).status == Status::Nothing
                &&& final(self).data is None
                &&& final(self).binary is None
            },
            final(self).persistence == old(self).persistence,
            final(self).warnings == old(self).warnings,
    {
        let deserialized = value.is_ok();
        if fast_track(stored, deserialized, dependencies) {
            match value {
                Ok(v) => {
                    self.data = Some(v);
                    self.binary = Some(binary);
                    self.status = stored;
                    true
                },
                Err(_) => {
                    self.clear_fast_track_payload();
                    false
                },
            }
        } else {
            self.clear_fast_track_payload();
            false
        }
    }

    /// A failed evaluation: the asset drops its value and bytes and is in error; the error is
    /// handed back.
    pub fn fail_evaluation(&mut self, error: Error) -> (r: Result<(), Error>)
        ensures
            r == Err::<(), Error>(error),
            final(self).status == Status::Error,
            final(self).data is None,
            final(self).binary is None,
            final(self).persistence == old(self).persistence,
            final(self).warnings == old(self).warnings,
    {
        self.data = None;
        self.binary = None;
        self.status = Status::Error;
        Err(error)
    }

    /// A successful evaluation of `value`, finishing in status `ready`, whose save ended with
    /// `saved` (no save when `cancelled`). The evaluation succeeds whatever the save did: the
    /// value is kept; a failed save only records its persistence status and a warning naming
    /// `reference` and the failure.
    pub fn store_evaluation(&mut self, value: V, ready: Status, cancelled: bool, saved: Result<(), Error>, reference: &str) -> (r: Result<(), Error>)
        ensures
            r is Ok,
            final(self).data == Some(value),
            final(self).status == ready,
            final(self).binary == old(self).binary,
            cancelled ==> final(self).persistence == PersistenceStatus::Nothing && final(self).warnings == old(self).warnings,
            !cancelled ==> final(self).persistence == spec_persistence_of(saved),
            !cancelled && saved is Ok ==> final(self).warnings == old(self).warnings,
            !cancelled ==> (saved matches Err(e) ==> final(self).warnings@.len() == old(self).warnings@.len() + 1
                && final(self).warnings@.last()@ == persistence_message(
                spec_persistence_of(saved),
                reference@,
                Some(e.message@),
            ) && final(self).warnings@.drop_last() == old(self).warnings@),
    {
        self.data = Some(value);
        self.status = ready;
        if cancelled {
            self.persistence = PersistenceStatus::Nothing;
            return Ok(());
        }
        let status = persistence_outcome(&saved);
        self.persistence = status;
        match &saved {
            Ok(()) => {},
            Err(e) => {
                let w = persistence_warning(status, reference, Some(e.message.as_str()));
                match w {
                    Some(m) => {
                        let ghost before = self.warnings@;
                        self.warnings.push(m);
                        proof {
                            assert(self.warnings@.drop_last() =~= before);
                        }
                    },
                    None => {},
                }
            },
        }
        Ok(())
    }

    /// The bytes of the value whatever the status, for recovery: the cached bytes of a value
    /// or an expired value; none for a status without a value; for a value without cached
    /// bytes, its serialization by `serialize`, which is then cached, or the failure to
    /// serialize it.
    pub fn binary_any_status<F: Fn(&V) -> Result<Vec<u8>, Error>>(&mut self, serialize: F) -> (r: Result<Option<Vec<u8>>, Error>)
        requires
            old(self).data matches Some(v) ==> call_requires(serialize, (&v,)),
        ensures
            final(self).status == old(self).status,
            final(self).data == old(self).data,
            final(self).persistence == old(self).persistence,
            final(self).warnings == old(self).warnings,
            (spec_read_exposure(old(self).status) is MetadataOnly || spec_read_exposure(old(self).status) is Pending)
                ==> r == Ok::<Option<Vec<u8>>, Error>(None) && final(self).binary == old(self).binary,
            (spec_read_exposure(old(self).status) is Value || spec_read_exposure(old(self).status) is Expired) ==> {
                &&& old(self).binary matches Some(b) ==> (r matches Ok(Some(x)) && x@ == b@ && final(self).binary == old(self).binary)
                &&& old(self).binary is None && old(self).data is None ==> r == Ok::<Option<Vec<u8>>, Error>(None)
                    && final(self).binary is None
                &&& old(self).binary is None && old(self).data is Some ==> {
                    &&& r matches Err(e) ==> call_ensures(serialize, (&old(self).data->0,), Err::<Vec<u8>, Error>(e))
                        && final(self).binary is None
                    &&& r matches Ok(x) ==> (x matches Some(b) && (call_ensures(
                        serialize,
                        (&old(self).data->0,),
                        Ok::<Vec<u8>, Error>(b),
                    ) && (final(self).binary matches Some(c) && c@ == b@)))
                }
            },
    {
        match self.status.read_exposure() {
            ReadExposure::MetadataOnly | ReadExposure::Pending => {
                return Ok(None);
            },
            _ => {},
        }
        match &self.binary {
            Some(b) => {
                let c = b.clone();
                proof {
                    assert(c@ =~= b@);
                }
                return Ok(Some(c));
            },
            None => {},
        }
        match &self.data {
            None => Ok(None),
            Some(v) => {
                match serialize(v) {
                    Ok(b) => {
                        let c = b.clone();
                        proof {
                            assert(c@ =~= b@);
                        }
                        self.binary = Some(c);
                        Ok(Some(b))
                    },
                    Err(e) => Err(e),
                }
            },
        }
    }
}

} // verus!
