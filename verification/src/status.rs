//! Reading the status of a build as a stream: each status that the build
//! is seen in, until it is finished.

use crate::fault::Fault;
use crate::id::Id;
use crate::lifecycle::Status;
use crate::store::Store;
use vstd::prelude::*;

verus! {

/// A reader of the status of one build.
#[derive(Clone, Debug)]
pub struct Reader {
    pub id: Id,
    /// The status that was delivered last, if any was.
    pub last: Option<Status>,
}

impl Reader {
    /// Whether the stream has completed: the status that it delivered
    /// last is `Finished`.
    pub open spec fn done(self) -> bool {
        self.last == Some(Status::Finished)
    }

    /// Whether the stream has completed.
    pub fn is_done(&self) -> (r: bool)
        ensures
            r == self.done(),
    {
        match self.last {
            Some(status) => status.is_finished(),
            None => false,
        }
    }

    /// Delivers the status of the build if it is not the one that was
    /// delivered last, and nothing once the stream has completed.
    /// `Internal`, with the reader unchanged, when the store does not know
    /// the build.
    pub fn on_event(&mut self, store: &Store) -> (r: Result<Option<Status>, Fault>)
        requires
            store.wf(),
        ensures
            final(self).id == old(self).id,
            match r {
                Ok(delivered) => {
                    let status = store@[old(self).id@].build.status;
                    &&& store@.dom().contains(old(self).id@)
                    &&& delivered == (if old(self).done() || old(self).last == Some(status) {
                        None
                    } else {
                        Some(status)
                    })
                    &&& final(self).last == (if old(self).done() {
                        old(self).last
                    } else {
                        Some(status)
                    })
                },
                Err(e) => e == Fault::Internal && !store@.dom().contains(old(self).id@) && final(self).last
                    == old(self).last,
            },
    {
        let status: Status = match store.try_get_build_status_local(&self.id) {
            Some(status) => status,
            None => {
                return Err(Fault::Internal);
            },
        };
        if self.is_done() {
            return Ok(None);
        }
        let changed: bool = match self.last {
            Some(last) => last != status,
            None => true,
        };
        self.last = Some(status);
        if changed {
            Ok(Some(status))
        } else {
            Ok(None)
        }
    }
}

/// Opens a reader on the status of a build: `None` when the store does
/// not know the build.
pub fn try_get_build_status_local(store: &Store, id: &Id) -> (r: Option<Reader>)
    requires
        store.wf(),
    ensures
        match r {
            Some(reader) => store@.dom().contains(id@) && reader.id == *id && reader.last is None,
            None => !store@.dom().contains(id@),
        },
{
    if store.contains(id) {
        Some(Reader { id: id.duplicate(), last: None })
    } else {
        None
    }
}

} // verus!
