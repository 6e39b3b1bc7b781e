//! The certificate orchestrator: the state machine that drives
//! issuance and renewal, and the slot through which the active
//! certificate is published to the TLS layer.

use vstd::prelude::*;

verus! {

/// The orchestrator's state for one domain set.
#[derive(Clone, Copy, PartialEq, Eq, Structural, Debug)]
pub enum OrchestratorState {
    /// At start: consulting the certificate store.
    Loading,
    /// Running the issuance protocol against the directory.
    Provisioning,
    /// A certificate is published to the TLS layer.
    Active,
}

/// An event the orchestrator reacts to.
pub enum OrchestratorEvent {
    /// The store held a (non-empty) certificate record.
    CacheHit(Vec<u8>),
    /// The store held nothing for the derived key.
    CacheMiss,
    /// The store could not be read.
    CacheError,
    /// All validations succeeded and the signed certificate was
    /// obtained.
    OrderIssued(Vec<u8>),
    /// The issuance run failed: validation rejected, or a protocol
    /// or transport error.
    ProvisionFailed,
    /// An informational background event.
    Notice,
    /// An error reported by the background protocol machinery.
    ErrorNotice,
}

/// What the surrounding process must do after a step.
pub enum OrchestratorAction {
    /// Swap the record into the live TLS configuration.
    Publish(Vec<u8>),
    /// Swap the record in and persist it best-effort: a persist
    /// failure is logged and does not stop the process, since the
    /// record is still usable in memory.
    PublishAndStore(Vec<u8>),
    /// Start an issuance run against the configured directory.
    BeginProvisioning,
    /// Log the event and await the next one.
    LogAndWait,
}

/// The orchestrator's transition table. Loading moves to Active on a
/// cached certificate and to Provisioning on absence or error; a
/// completed order is published and stored; a failed run stays in
/// Provisioning for the next trigger, never halting the process;
/// everything else is logged and awaited. There is no terminal
/// state.
pub open spec fn spec_step(state: OrchestratorState, event: OrchestratorEvent) -> (
    OrchestratorState,
    OrchestratorAction,
) {
    match (state, event) {
        (OrchestratorState::Loading, OrchestratorEvent::CacheHit(record)) => (
            OrchestratorState::Active,
            OrchestratorAction::Publish(record),
        ),
        (OrchestratorState::Loading, OrchestratorEvent::CacheMiss) => (
            OrchestratorState::Provisioning,
            OrchestratorAction::BeginProvisioning,
        ),
        (OrchestratorState::Loading, OrchestratorEvent::CacheError) => (
            OrchestratorState::Provisioning,
            OrchestratorAction::BeginProvisioning,
        ),
        (OrchestratorState::Provisioning, OrchestratorEvent::OrderIssued(record)) => (
            OrchestratorState::Active,
            OrchestratorAction::PublishAndStore(record),
        ),
        (OrchestratorState::Provisioning, OrchestratorEvent::ProvisionFailed) => (
            OrchestratorState::Provisioning,
            OrchestratorAction::LogAndWait,
        ),
        (s, _) => (s, OrchestratorAction::LogAndWait),
    }
}

/// Takes one step of the orchestration state machine.
pub fn orchestrator_step(state: OrchestratorState, event: OrchestratorEvent) -> (r: (
    OrchestratorState,
    OrchestratorAction,
))
    ensures
        r == spec_step(state, event),
{
    match (state, event) {
        (OrchestratorState::Loading, OrchestratorEvent::CacheHit(record)) => (
            OrchestratorState::Active,
            OrchestratorAction::Publish(record),
        ),
        (OrchestratorState::Loading, OrchestratorEvent::CacheMiss) => (
            OrchestratorState::Provisioning,
            OrchestratorAction::BeginProvisioning,
        ),
        (OrchestratorState::Loading, OrchestratorEvent::CacheError) => (
            OrchestratorState::Provisioning,
            OrchestratorAction::BeginProvisioning,
        ),
        (OrchestratorState::Provisioning, OrchestratorEvent::OrderIssued(record)) => (
            OrchestratorState::Active,
            OrchestratorAction::PublishAndStore(record),
        ),
        (OrchestratorState::Provisioning, OrchestratorEvent::ProvisionFailed) => (
            OrchestratorState::Provisioning,
            OrchestratorAction::LogAndWait,
        ),
        (s, _) => (s, OrchestratorAction::LogAndWait),
    }
}

/// The orchestrator never halts on a failed issuance run: it stays
/// in Provisioning, awaiting the next trigger.
pub proof fn lemma_failure_is_transient()
    ensures
        spec_step(OrchestratorState::Provisioning, OrchestratorEvent::ProvisionFailed).0
            == OrchestratorState::Provisioning,
{
}

/// The slot holding the certificate that new TLS handshakes use.
/// A publish replaces its whole contents in one step, so a reader
/// sees either the prior contents or the new record, in full.
pub struct CertSlot {
    current: Option<Vec<u8>>,
}

impl View for CertSlot {
    type V = Option<Seq<u8>>;

    closed spec fn view(&self) -> Option<Seq<u8>> {
        match self.current {
            Some(ref v) => Some(v@),
            None => None,
        }
    }
}

impl CertSlot {
    /// An empty slot: no certificate is active yet, and HTTPS
    /// handshakes cannot be served.
    pub fn new() -> (r: Self)
        ensures
            r@ is None,
    {
        CertSlot { current: None }
    }

    /// Publishes a record: the slot's whole contents become exactly
    /// the new record.
    pub fn publish(&mut self, record: Vec<u8>)
        ensures
            final(self)@ == Some(record@),
    {
        self.current = Some(record);
    }

    /// Reads the active certificate: exactly the slot's whole
    /// contents, never a part of them.
    pub fn current(&self) -> (r: Option<&Vec<u8>>)
        ensures
            match self@ {
                Some(b) => r matches Some(v) && v@ == b,
                None => r is None,
            },
    {
        match &self.current {
            Some(v) => Some(v),
            None => None,
        }
    }
}

/// Atomic publish: the publish is a single swap of the slot's whole
/// contents, so an observation made entirely before it sees the
/// prior contents and one made entirely after it sees exactly the
/// new record; no observation sees a mixture of the two.
pub proof fn lemma_publish_atomic(
    before: Option<Seq<u8>>,
    after: Option<Seq<u8>>,
    record: Seq<u8>,
    observed: Option<Seq<u8>>,
)
    requires
        after == Some(record),
        observed == before || observed == after,
    ensures
        observed == before || observed == Some(record),
{
}

} // verus!
