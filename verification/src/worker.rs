use crate::codex::{client_error_text, ClientError};
use crate::quota::QuotaSnapshot;
use crate::usage::UsageSnapshot;
use std::time::SystemTime;
use vstd::prelude::*;

verus! {

/// `std::time::SystemTime`, carried as an opaque value.
#[verifier::external_type_specification]
#[verifier::external_body]
pub struct ExSystemTime(SystemTime);

/// Reads the clock (`SystemTime::now`); nothing is promised of the value.
#[verifier::external_body]
fn current_time() -> SystemTime {
    SystemTime::now()
}

/// What the refresh worker reports.
#[derive(Debug)]
pub enum WorkerEvent {
    Started,
    Finished(DashboardRead),
}

/// The outcome of one refresh: the quota and the usage history, each read
/// or failed on its own.
#[derive(Debug)]
pub struct DashboardRead {
    pub quota: Result<QuotaSnapshot, String>,
    pub usage: Result<UsageSnapshot, String>,
}

impl DashboardRead {
    /// The outcome of a refresh that could not connect: both sections fail
    /// with the same message.
    pub fn connection_failed(message: String) -> (read: Self)
        ensures
            read.quota matches Err(m) && m@ == message@,
            read.usage matches Err(m) && m@ == message@,
    {
        DashboardRead { quota: Err(message.clone()), usage: Err(message) }
    }
}

/// One section of the dashboard: the last value read, whether it is stale,
/// the last error, and when the value was read.
#[derive(Debug)]
pub struct SectionState<T> {
    pub value: Option<T>,
    pub stale: bool,
    pub error: Option<String>,
    pub updated_at: Option<SystemTime>,
}

impl<T> Default for SectionState<T> {
    fn default() -> (state: Self)
        ensures
            state.value is None,
            !state.stale,
            state.error is None,
            state.updated_at is None,
    {
        Self { value: None, stale: false, error: None, updated_at: None }
    }
}

/// A section after a refresh outcome: a value replaces the old one, fresh
/// and without error, stamped with the time of reading; an error keeps the
/// old value (stale when there is one) and its time, and is recorded.
pub open spec fn section_after<T>(before: SectionState<T>, after: SectionState<T>, result: Result<T, String>) -> bool {
    match result {
        Ok(v) => {
            &&& after.value == Some(v)
            &&& !after.stale
            &&& after.error is None
            &&& after.updated_at is Some
        },
        Err(e) => {
            &&& after.value == before.value
            &&& after.stale == before.value is Some
            &&& after.error == Some(e)
            &&& after.updated_at == before.updated_at
        },
    }
}

impl<T> SectionState<T> {
    fn finish(&mut self, result: Result<T, String>)
        ensures
            section_after(*old(self), *final(self), result),
    {
        match result {
            Ok(value) => {
                self.value = Some(value);
                self.stale = false;
                self.error = None;
                self.updated_at = Some(current_time());
            },
            Err(error) => {
                self.stale = self.value.is_some();
                self.error = Some(error);
            },
        }
    }
}

/// What the dashboard shows: the quota and usage sections, and whether a
/// refresh is running.
#[derive(Debug)]
pub struct DashboardViewState {
    pub quota: SectionState<QuotaSnapshot>,
    pub usage: SectionState<UsageSnapshot>,
    pub refreshing: bool,
}

impl Default for DashboardViewState {
    fn default() -> (state: Self)
        ensures
            state.quota.value is None && !state.quota.stale && state.quota.error is None
                && state.quota.updated_at is None,
            state.usage.value is None && !state.usage.stale && state.usage.error is None
                && state.usage.updated_at is None,
            !state.refreshing,
    {
        Self { quota: SectionState::default(), usage: SectionState::default(), refreshing: false }
    }
}

impl DashboardViewState {
    /// Takes in a worker event: a start marks a refresh as running; a finish
    /// updates both sections independently and ends the refresh.
    pub fn apply(&mut self, event: WorkerEvent)
        ensures
            match event {
                WorkerEvent::Started => {
                    &&& final(self).refreshing
                    &&& final(self).quota == old(self).quota
                    &&& final(self).usage == old(self).usage
                },
                WorkerEvent::Finished(read) => {
                    &&& !final(self).refreshing
                    &&& section_after(old(self).quota, final(self).quota, read.quota)
                    &&& section_after(old(self).usage, final(self).usage, read.usage)
                },
            },
    {
        match event {
            WorkerEvent::Started => self.refreshing = true,
            WorkerEvent::Finished(read) => {
                self.quota.finish(read.quota);
                self.usage.finish(read.usage);
                self.refreshing = false;
            },
        }
    }
}

/// What the quota ball shows: the last snapshot, whether a refresh is
/// running, whether the snapshot is stale, the last error and when the
/// snapshot was read.
#[derive(Debug)]
pub struct QuotaViewState {
    pub snapshot: Option<QuotaSnapshot>,
    pub refreshing: bool,
    pub stale: bool,
    pub error: Option<String>,
    pub updated_at: Option<SystemTime>,
}

impl Default for QuotaViewState {
    fn default() -> (state: Self)
        ensures
            state.snapshot is None,
            !state.refreshing,
            !state.stale,
            state.error is None,
            state.updated_at is None,
    {
        Self { snapshot: None, refreshing: false, stale: false, error: None, updated_at: None }
    }
}

impl QuotaViewState {
    /// Takes in a worker event: a start marks a refresh as running; a finish
    /// ends it, and either shows the new snapshot (fresh, without error) or
    /// keeps the old one, stale when there is one, and records the error.
    pub fn apply(&mut self, event: WorkerEvent)
        ensures
            match event {
                WorkerEvent::Started => {
                    &&& final(self).refreshing
                    &&& final(self).snapshot == old(self).snapshot
                    &&& final(self).stale == old(self).stale
                    &&& final(self).error == old(self).error
                    &&& final(self).updated_at == old(self).updated_at
                },
                WorkerEvent::Finished(read) => {
                    &&& !final(self).refreshing
                    &&& match read.quota {
                        Ok(snapshot) => {
                            &&& final(self).snapshot == Some(snapshot)
                            &&& !final(self).stale
                            &&& final(self).error is None
                            &&& final(self).updated_at is Some
                        },
                        Err(e) => {
                            &&& final(self).snapshot == old(self).snapshot
                            &&& final(self).stale == old(self).snapshot is Some
                            &&& final(self).error == Some(e)
                            &&& final(self).updated_at == old(self).updated_at
                        },
                    }
                },
            },
    {
        match event {
            WorkerEvent::Started => self.refreshing = true,
            WorkerEvent::Finished(read) => match read.quota {
                Ok(snapshot) => {
                    self.snapshot = Some(snapshot);
                    self.refreshing = false;
                    self.stale = false;
                    self.error = None;
                    self.updated_at = Some(current_time());
                },
                Err(error) => {
                    self.refreshing = false;
                    self.stale = self.snapshot.is_some();
                    self.error = Some(error);
                },
            },
        }
    }
}

/// Once a section has shown a value it always shows one: a failed refresh
/// keeps the old value and marks it stale, a successful one replaces it; a
/// section that has never shown a value is never marked stale.
pub proof fn lemma_section_keeps_value<T>(
    before: SectionState<T>,
    after: SectionState<T>,
    result: Result<T, String>,
)
    requires
        section_after(before, after, result),
    ensures
        before.value is Some ==> after.value is Some,
        after.stale ==> after.value is Some && result is Err,
        after.value is None ==> !after.stale,
{
}

} // verus!

verus! {

/// Where the refresh loop stands.
#[derive(Clone, Copy, Debug, PartialEq, Eq, Structural)]
pub enum WorkerPhase {
    /// Announcing that a round starts.
    Announcing,
    /// Connecting to or reading from Codex.
    Working,
    /// Reporting the outcome of the round.
    Reporting,
    /// Waiting for a refresh request or the interval.
    Waiting,
    /// Stopped for good.
    Stopped,
}

/// What the refresh loop is told: the outcome of the action it asked for.
#[derive(Debug)]
pub enum WorkerInput {
    /// An event was handed to the window.
    Published,
    /// The window is gone; events can no longer be handed over.
    PublishFailed,
    /// The app-server started and completed its handshake.
    Connected,
    /// The app-server could not be started.
    ConnectFailed(ClientError),
    /// Both reads were made on the client; `transport_failed` tells whether
    /// a failed write, read or wait made the connection unusable.
    Read {
        quota: Result<QuotaSnapshot, ClientError>,
        usage: Result<UsageSnapshot, ClientError>,
        transport_failed: bool,
    },
    /// A refresh was requested or the interval passed.
    Woken,
    /// The window dropped its side of the refresh requests.
    Disconnected,
}

/// What the refresh loop asks to be done next.
#[derive(Debug)]
pub enum WorkerAction {
    /// Start the app-server and complete its handshake.
    Connect,
    /// Read the quota and the usage history on the current client.
    Read,
    /// Hand an event to the window.
    Publish(WorkerEvent),
    /// Wait for a refresh request or the interval.
    Wait,
    /// End the loop.
    Stop,
}

/// The decisions of the background refresh: each round announces itself,
/// connects only when there is no client, reads both sections, reports the
/// outcome, and waits; a broken client is dropped so that the next round
/// connects again.
#[derive(Debug)]
pub struct RefreshLoop {
    has_client: bool,
    phase: WorkerPhase,
}

/// Whether a read failed because the account is signed out.
pub open spec fn signed_out<T>(r: Result<T, ClientError>) -> bool {
    r matches Err(ClientError::NotLoggedIn)
}

/// Whether the client is kept after a round of reads: not when the
/// connection broke, and not when Codex reported the account signed out, so
/// that the next round starts a fresh app-server (after `codex login`).
pub open spec fn keeps_client<A, B>(quota: Result<A, ClientError>, usage: Result<B, ClientError>, transport_failed: bool) -> bool {
    !transport_failed && !signed_out(quota) && !signed_out(usage)
}

/// A section as the window gets it: the value read, or the text of the
/// error.
pub open spec fn shown_section<T>(read: Result<T, ClientError>, shown: Result<T, String>) -> bool {
    match read {
        Ok(v) => shown == Ok::<T, String>(v),
        Err(e) => shown matches Err(m) && m@ == client_error_text(e),
    }
}

/// The phase and client flag after an input, and what the action must be,
/// as a relation (messages are compared by their text).
pub open spec fn refresh_step(
    phase: WorkerPhase,
    has_client: bool,
    input: WorkerInput,
    next_phase: WorkerPhase,
    next_client: bool,
    action: WorkerAction,
) -> bool {
    if phase == WorkerPhase::Stopped {
        next_phase == WorkerPhase::Stopped && next_client == has_client && action is Stop
    } else {
        match input {
            WorkerInput::Published => if phase == WorkerPhase::Announcing {
                &&& next_phase == WorkerPhase::Working
                &&& next_client == has_client
                &&& if has_client { action is Read } else { action is Connect }
            } else {
                &&& next_phase == WorkerPhase::Waiting
                &&& next_client == has_client
                &&& action is Wait
            },
            WorkerInput::PublishFailed | WorkerInput::Disconnected => {
                &&& next_phase == WorkerPhase::Stopped
                &&& next_client == has_client
                &&& action is Stop
            },
            WorkerInput::Connected => {
                &&& next_phase == WorkerPhase::Working
                &&& next_client
                &&& action is Read
            },
            WorkerInput::ConnectFailed(error) => {
                &&& next_phase == WorkerPhase::Reporting
                &&& !next_client
                &&& action matches WorkerAction::Publish(WorkerEvent::Finished(read))
                &&& read.quota matches Err(q) && q@ == client_error_text(error)
                &&& read.usage matches Err(u) && u@ == client_error_text(error)
            },
            WorkerInput::Read { quota, usage, transport_failed } => {
                &&& next_phase == WorkerPhase::Reporting
                &&& next_client == keeps_client(quota, usage, transport_failed)
                &&& action matches WorkerAction::Publish(WorkerEvent::Finished(read))
                &&& shown_section(quota, read.quota)
                &&& shown_section(usage, read.usage)
            },
            WorkerInput::Woken => {
                &&& next_phase == WorkerPhase::Announcing
                &&& next_client == has_client
                &&& action == WorkerAction::Publish(WorkerEvent::Started)
            },
        }
    }
}

fn is_signed_out<T>(r: &Result<T, ClientError>) -> (b: bool)
    ensures
        b == signed_out(*r),
{
    match r {
        Err(ClientError::NotLoggedIn) => true,
        _ => false,
    }
}

fn shown<T>(r: Result<T, ClientError>) -> (out: Result<T, String>)
    ensures
        shown_section(r, out),
{
    match r {
        Ok(v) => Ok(v),
        Err(e) => Err(e.message()),
    }
}

impl RefreshLoop {
    /// Whether the loop holds a client: the caller drops its connection
    /// whenever this turns false.
    pub fn client_kept(&self) -> (kept: bool)
        ensures
            kept == self.has_client(),
    {
        self.has_client
    }

    pub closed spec fn has_client(&self) -> bool {
        self.has_client
    }

    pub closed spec fn phase(&self) -> WorkerPhase {
        self.phase
    }

    /// A loop without a client, about to start its first round.
    pub fn new() -> (r: Self)
        ensures
            !r.has_client(),
            r.phase() == WorkerPhase::Waiting,
    {
        RefreshLoop { has_client: false, phase: WorkerPhase::Waiting }
    }

    /// Takes in the outcome of the last action and says what to do next.
    pub fn step(&mut self, input: WorkerInput) -> (action: WorkerAction)
        ensures
            refresh_step(
                old(self).phase(),
                old(self).has_client(),
                input,
                final(self).phase(),
                final(self).has_client(),
                action,
            ),
    {
        if self.phase == WorkerPhase::Stopped {
            return WorkerAction::Stop;
        }
        match input {
            WorkerInput::Published => if self.phase == WorkerPhase::Announcing {
                self.phase = WorkerPhase::Working;
                if self.has_client {
                    WorkerAction::Read
                } else {
                    WorkerAction::Connect
                }
            } else {
                self.phase = WorkerPhase::Waiting;
                WorkerAction::Wait
            },
            WorkerInput::PublishFailed | WorkerInput::Disconnected => {
                self.phase = WorkerPhase::Stopped;
                WorkerAction::Stop
            },
            WorkerInput::Connected => {
                self.has_client = true;
                self.phase = WorkerPhase::Working;
                WorkerAction::Read
            },
            WorkerInput::ConnectFailed(error) => {
                self.has_client = false;
                self.phase = WorkerPhase::Reporting;
                WorkerAction::Publish(WorkerEvent::Finished(DashboardRead::connection_failed(error.message())))
            },
            WorkerInput::Read { quota, usage, transport_failed } => {
                self.has_client = !transport_failed && !is_signed_out(&quota) && !is_signed_out(&usage);
                self.phase = WorkerPhase::Reporting;
                WorkerAction::Publish(
                    WorkerEvent::Finished(DashboardRead { quota: shown(quota), usage: shown(usage) }),
                )
            },
            WorkerInput::Woken => {
                self.phase = WorkerPhase::Announcing;
                WorkerAction::Publish(WorkerEvent::Started)
            },
        }
    }
}

/// The refresh rules over any state: a round starts by announcing itself;
/// after the announcement it connects exactly when there is no client and
/// otherwise reads; a failed connection reports both sections failed with
/// its message and leaves no client; a client whose connection broke, or
/// that reported the account signed out, is dropped, and any other kept;
/// once the window is gone the loop stops and stays stopped.
pub proof fn lemma_refresh_rules(
    phase: WorkerPhase,
    has_client: bool,
    input: WorkerInput,
    next_phase: WorkerPhase,
    next_client: bool,
    action: WorkerAction,
)
    requires
        refresh_step(phase, has_client, input, next_phase, next_client, action),
    ensures
        phase == WorkerPhase::Stopped ==> next_phase == WorkerPhase::Stopped && action is Stop,
        phase != WorkerPhase::Stopped && input is Woken ==> action == WorkerAction::Publish(
            WorkerEvent::Started,
        ),
        phase == WorkerPhase::Announcing && input is Published ==> (action is Connect <==> !has_client)
            && (action is Read <==> has_client),
        action is Connect ==> !has_client && phase == WorkerPhase::Announcing,
        phase != WorkerPhase::Stopped && input is ConnectFailed ==> !next_client,
        phase != WorkerPhase::Stopped ==> (input matches WorkerInput::Read { quota, usage, transport_failed }
            ==> (next_client <==> !transport_failed && !signed_out(quota) && !signed_out(usage))),
        (input is Disconnected || input is PublishFailed) ==> next_phase == WorkerPhase::Stopped
            && action is Stop,
{
}

/// After a round whose connection broke or that found the account signed
/// out, the next round starts a fresh app-server: reporting, waking and
/// announcing lead to `Connect`.
pub proof fn lemma_failed_round_reconnects(
    phase: WorkerPhase,
    has_client: bool,
    quota: Result<QuotaSnapshot, ClientError>,
    usage: Result<UsageSnapshot, ClientError>,
    transport_failed: bool,
    steps: Seq<(WorkerPhase, bool, WorkerAction)>,
)
    requires
        phase != WorkerPhase::Stopped,
        transport_failed || signed_out(quota) || signed_out(usage),
        steps.len() == 4,
        refresh_step(phase, has_client, WorkerInput::Read { quota, usage, transport_failed }, steps[0].0, steps[0].1, steps[0].2),
        refresh_step(steps[0].0, steps[0].1, WorkerInput::Published, steps[1].0, steps[1].1, steps[1].2),
        refresh_step(steps[1].0, steps[1].1, WorkerInput::Woken, steps[2].0, steps[2].1, steps[2].2),
        refresh_step(steps[2].0, steps[2].1, WorkerInput::Published, steps[3].0, steps[3].1, steps[3].2),
    ensures
        steps[3].2 is Connect,
{
}

} // verus!
