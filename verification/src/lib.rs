//! Publishes a household waste-collection schedule as Home Assistant MQTT
//! sensors.
//!
//! The crate holds the verified core of the integration: the calendar model,
//! the schedule normalizer, the discovery registry state machine and the
//! synchronization pass.  All transport (HTTP, MQTT, configuration files) is
//! left to the surrounding binary, which feeds plain values in and carries the
//! computed messages out.

use vstd::prelude::*;

pub mod dates;
pub mod homeassistant;
pub mod mitaffald;
pub mod settings;
pub mod text;

use crate::homeassistant::{EntityReportError, HADevice, InitializedState};
use crate::mitaffald::{
    lemma_norm_membership, norm, normalize, spec_fetch_error_message, Container, FetchError,
};
use crate::text::sanitized;

verus! {

/// Why a synchronization pass did not fully succeed.
#[derive(Debug)]
pub enum SyncError {
    /// The schedule could not be acquired; nothing was published.
    Acquisition(FetchError),
    /// The pass ran to its end, but some entity reports failed or the broker
    /// session did not terminate cleanly; the counted entities may have been
    /// partially updated.
    Partial { failed_entities: usize, succeeded_entities: usize, termination_failed: bool },
}

/// The message [`SyncError::describe`] renders.
pub open spec fn spec_sync_error_message(e: SyncError) -> Seq<char> {
    match e {
        SyncError::Acquisition(f) => spec_fetch_error_message(f),
        SyncError::Partial { failed_entities, .. } => {
            if failed_entities > 0 {
                "Failed to report all containers"@
            } else {
                "Failed to terminate the broker session"@
            }
        },
    }
}

impl SyncError {
    /// A human-readable account of the failure.
    pub fn describe(&self) -> (r: String)
        ensures
            r@ == spec_sync_error_message(*self),
    {
        match self {
            SyncError::Acquisition(f) => f.describe(),
            SyncError::Partial { failed_entities, .. } => {
                if *failed_entities > 0 {
                    String::from_str("Failed to report all containers")
                } else {
                    String::from_str("Failed to terminate the broker session")
                }
            },
        }
    }
}

/// One synchronization pass over the normalized entries.
///
/// The pass owns the normalized entry list and walks it in order.  For each
/// entry the caller asks the registry for the entry's messages, carries them
/// to the broker, and hands the delivery count to [`SyncPass::advance`]; a
/// failed entity report is recorded but the pass goes on with the remaining
/// entries.  [`SyncPass::finish`] then folds the recorded failures and the
/// session termination into the one aggregate result of the pass.
pub struct SyncPass {
    entries: Vec<Container>,
    next: usize,
    failures: usize,
}

impl SyncPass {
    /// The normalized entries of the pass, in report order.
    pub closed spec fn entries(self) -> Seq<Container> {
        self.entries@
    }

    /// How many entries have been reported so far.
    pub closed spec fn position(self) -> int {
        self.next as int
    }

    /// How many entity reports have failed so far.
    pub closed spec fn failures(self) -> int {
        self.failures as int
    }

    /// Pass invariant: the position is within the entries, the failure count
    /// within the position, and every entry carries a proper calendar date.
    pub closed spec fn wf(self) -> bool {
        &&& self.next <= self.entries@.len()
        &&& self.failures <= self.next
        &&& forall|i: int| 0 <= i < self.entries@.len() ==> (#[trigger] self.entries@[i]).date.wf()
    }

    /// Begins a pass over the raw entries: deduplicates them by entity key
    /// (earliest due date wins, first-seen key order) and stands ready to
    /// report them in that order.
    pub fn new(raw: Vec<Container>) -> (r: SyncPass)
        requires
            forall|i: int| 0 <= i < raw@.len() ==> (#[trigger] raw@[i]).date.wf(),
        ensures
            r.wf(),
            r.entries() == norm(raw@),
            r.position() == 0,
            r.failures() == 0,
    {
        let ghost raw_view = raw@;
        let entries = normalize(raw);
        proof {
            lemma_norm_membership(raw_view);
            assert forall|i: int| 0 <= i < entries@.len() implies (
            #[trigger] entries@[i]).date.wf() by {
                let j = choose|j: int|
                    0 <= j < raw_view.len() && (#[trigger] raw_view[j]) == (#[trigger] norm(
                        raw_view,
                    )[i]);
                assert(raw_view[j].date.wf());
            }
        }
        SyncPass { entries, next: 0, failures: 0 }
    }

    /// How many entries the pass reports in all.
    pub fn entry_count(&self) -> (r: usize)
        ensures
            r == self.entries().len(),
    {
        self.entries.len()
    }

    /// The entry the pass reports next; `None` once every entry is handled.
    pub fn current(&self) -> (r: Option<&Container>)
        ensures
            r is Some <==> self.position() < self.entries().len(),
            r is Some ==> *r->Some_0 == self.entries()[self.position()],
    {
        if self.next < self.entries.len() {
            Some(&self.entries[self.next])
        } else {
            None
        }
    }

    /// Commits the report of the current entry: `delivered` of its messages,
    /// counted from the front, went through.  The pass moves to the next
    /// entry whatever the outcome — one failed entity must not block the
    /// rest — and a failure is recorded for the aggregate result.
    pub fn advance(
        &mut self,
        device: &mut HADevice<InitializedState>,
        delivered: usize,
    ) -> (r: Result<(), EntityReportError>)
        requires
            old(self).wf(),
            old(device).wf(),
            old(self).position() < old(self).entries().len(),
            delivered <= old(device).pending_message_count(
                sanitized(old(self).entries()[old(self).position()].name@),
            ),
        ensures
            final(self).wf(),
            final(device).wf(),
            final(self).entries() == old(self).entries(),
            final(self).position() == old(self).position() + 1,
            ({
                let c = old(self).entries()[old(self).position()];
                let id = sanitized(c.name@);
                &&& (r is Ok <==> delivered == old(device).pending_message_count(id))
                &&& final(self).failures() == old(self).failures() + (if r is Ok {
                    0int
                } else {
                    1int
                })
                &&& final(device).has_record(id)
                &&& final(device).registered(id) == (old(device).registered(id) || delivered >= 1)
                &&& forall|other: Seq<char>|
                    other != id ==> final(device).registered(other) == old(device).registered(
                        other,
                    )
                &&& (r is Err ==> r->Err_0.entity@ == c.name@)
            }),
    {
        let n = self.entries.len();
        let result = device.report(&self.entries[self.next], delivered);
        assert(self.next < n);
        self.next = self.next + 1;
        if result.is_err() {
            self.failures = self.failures + 1;
        }
        result
    }

    /// Ends the pass once every entry is handled: success only when every
    /// entity report went through and the broker session terminated cleanly;
    /// otherwise the aggregate names how many entities failed and succeeded
    /// and whether termination failed.
    pub fn finish(self, termination_ok: bool) -> (r: Result<(), SyncError>)
        requires
            self.wf(),
            self.position() == self.entries().len(),
        ensures
            r is Ok <==> self.failures() == 0 && termination_ok,
            r is Err ==> (r->Err_0 matches SyncError::Partial {
                failed_entities,
                succeeded_entities,
                termination_failed,
            } && failed_entities as int == self.failures() && succeeded_entities as int
                == self.entries().len() - self.failures() && termination_failed
                == !termination_ok),
    {
        if self.failures == 0 && termination_ok {
            Ok(())
        } else {
            Err(
                SyncError::Partial {
                    failed_entities: self.failures,
                    succeeded_entities: self.entries.len() - self.failures,
                    termination_failed: !termination_ok,
                },
            )
        }
    }
}

} // verus!
