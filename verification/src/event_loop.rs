//! Scheduling decisions of the compositor's bounded event loop.

//!
//! Time is counted in nanoseconds on the compositor's monotonic clock.

use vstd::prelude::*;

use crate::topology::OutputId;
use crate::vec_map::{keys_distinct, seq_map, VecMap};

verus! {

/// Whether an output transaction is waiting, so that frame production must
/// pause until the current output targets drain.
pub fn output_transaction_waiting(
    ready_output_apply: bool,
    pending_output_apply: bool,
    resident_geometry_reconfigure_requested: bool,
) -> (waiting: bool)
    ensures
        waiting == (ready_output_apply || pending_output_apply
            || resident_geometry_reconfigure_requested),
{
    ready_output_apply || pending_output_apply || resident_geometry_reconfigure_requested
}


/// Background services run at 30 Hz.
pub const BACKGROUND_SERVICE_INTERVAL_NANOS: u64 = 33333333;

/// Background maintenance runs every 100 ms.
pub const BACKGROUND_MAINTENANCE_INTERVAL_NANOS: u64 = 100000000;

/// The deadline after a periodic operation ran at `now`: one interval later,
/// or `now` itself when that is past the clock's range.
pub open spec fn next_deadline(now: u64, interval: u64) -> u64 {
    if now + interval <= u64::MAX {
        (now + interval) as u64
    } else {
        now
    }
}

/// Runs a periodic operation when its deadline has come: returns whether it
/// is due and, when it is, moves the deadline one interval past `now`.
pub fn take_periodic_deadline(now: u64, deadline: &mut u64, interval: u64) -> (due: bool)
    ensures
        due == (now >= *old(deadline)),
        *final(deadline) == (if due { next_deadline(now, interval) } else { *old(deadline) }),
{
    if now < *deadline {
        return false;
    }
    *deadline = match now.checked_add(interval) {
        Some(next) => next,
        None => now,
    };
    true
}

/// The time from `now` until `deadline`, or zero once it has passed.
pub open spec fn until(now: u64, deadline: u64) -> u64 {
    if deadline > now {
        (deadline - now) as u64
    } else {
        0
    }
}

pub open spec fn min_u64(a: u64, b: u64) -> u64 {
    if a < b {
        a
    } else {
        b
    }
}

/// When background services and maintenance next run.
#[derive(Clone, Copy, Debug, PartialEq, Eq, Structural)]
pub struct OperationCadence {
    pub next_service: u64,
    pub next_maintenance: u64,
}

impl OperationCadence {
    /// Both operations are due at once.
    pub fn new(now: u64) -> (cadence: OperationCadence)
        ensures
            cadence == (OperationCadence { next_service: now, next_maintenance: now }),
    {
        OperationCadence { next_service: now, next_maintenance: now }
    }

    pub fn take_service_due(&mut self, now: u64) -> (due: bool)
        ensures
            due == (now >= old(self).next_service),
            final(self).next_maintenance == old(self).next_maintenance,
            final(self).next_service == (if due {
                next_deadline(now, BACKGROUND_SERVICE_INTERVAL_NANOS)
            } else {
                old(self).next_service
            }),
    {
        take_periodic_deadline(now, &mut self.next_service, BACKGROUND_SERVICE_INTERVAL_NANOS)
    }

    pub fn take_maintenance_due(&mut self, now: u64) -> (due: bool)
        ensures
            due == (now >= old(self).next_maintenance),
            final(self).next_service == old(self).next_service,
            final(self).next_maintenance == (if due {
                next_deadline(now, BACKGROUND_MAINTENANCE_INTERVAL_NANOS)
            } else {
                old(self).next_maintenance
            }),
    {
        take_periodic_deadline(now, &mut self.next_maintenance, BACKGROUND_MAINTENANCE_INTERVAL_NANOS)
    }

    /// Shortens a dispatch timeout so that the loop wakes for the next
    /// service or maintenance run.
    pub fn limit_dispatch_timeout(&self, now: u64, timeout: u64) -> (limited: u64)
        ensures
            limited == min_u64(min_u64(timeout, until(now, self.next_service)), until(now, self.next_maintenance)),
    {
        let service = if self.next_service > now { self.next_service - now } else { 0 };
        let maintenance = if self.next_maintenance > now { self.next_maintenance - now } else { 0 };
        let limited = if timeout < service { timeout } else { service };
        if limited < maintenance { limited } else { maintenance }
    }
}

/// A cadence that just ran an operation does not run it again before the
/// interval has passed, and never sleeps past the operation's next run.
pub proof fn law_due_operation_waits_one_interval(now: u64, deadline: u64, interval: u64, later: u64, timeout: u64)
    requires
        now >= deadline,
        now + interval <= u64::MAX,
        now <= later < now + interval,
    ensures
        !(later >= next_deadline(now, interval)),
        until(later, next_deadline(now, interval)) == now + interval - later,
        min_u64(timeout, until(now, next_deadline(now, interval))) <= interval,
{
}

/// Whether shell actions, shortcut launches or window events wait to be
/// serviced, counted by how many of each are queued.
pub fn interactive_service_work_pending(shell_actions: usize, shortcut_launches: usize, window_events: usize) -> (pending: bool)
    ensures
        pending == (shell_actions > 0 || shortcut_launches > 0 || window_events > 0),
{
    shell_actions != 0 || shortcut_launches != 0 || window_events != 0
}

/// Whether a background slice begun at `started` has used up `slice`, so
/// that the loop dispatches pending events before it goes on.
pub fn dispatch_when_background_slice_expires(started: u64, now: u64, slice: u64) -> (expired: bool)
    ensures
        expired == (now >= started && now - started >= slice),
{
    now >= started && now - started >= slice
}

/// The fingerprint reader is polled at least every 20 ms.
pub const FINGERPRINT_POLL_NANOS: u64 = 20000000;

/// The final dispatch timeout, from the one every scheduler has limited:
/// at most 20 ms while a fingerprint scan runs, zero while input or Flutter
/// events wait, and never past the run's deadline. `None` once the deadline
/// has passed.
pub fn dispatch_timeout(now: u64, limited: u64, fingerprint_active: bool, input_pending: bool, deadline: Option<u64>) -> (timeout: Option<u64>)
    ensures
        ({
            let polled = if fingerprint_active { min_u64(limited, FINGERPRINT_POLL_NANOS) } else { limited };
            let urgent = if input_pending { 0 } else { polled };
            timeout == match deadline {
                Some(deadline) => if now >= deadline { None } else { Some(min_u64(urgent, (deadline - now) as u64)) },
                None => Some(urgent),
            }
        }),
{
    let mut timeout = limited;
    if fingerprint_active && FINGERPRINT_POLL_NANOS < timeout {
        timeout = FINGERPRINT_POLL_NANOS;
    }
    if input_pending {
        timeout = 0;
    }
    match deadline {
        Some(deadline) => if now >= deadline {
            None
        } else {
            let remaining = deadline - now;
            Some(if timeout < remaining { timeout } else { remaining })
        },
        None => Some(timeout),
    }
}

/// The topology work the event loop has been asked for.
#[derive(Clone, Copy, Debug, PartialEq, Eq, Structural)]
pub struct TopologyFlags {
    /// The output topology may have changed (hotplug, reconnect).
    pub topology_dirty: bool,
    /// A full KMS reconfiguration was requested.
    pub kms_reconfigure_requested: bool,
    /// Output geometry must be reapplied to the existing targets.
    pub resident_geometry_reconfigure_requested: bool,
    /// Output control clients must be told about a change.
    pub output_control_dirty: bool,
}

/// Why the topology is reconfigured now.
#[derive(Clone, Copy, Debug, PartialEq, Eq, Structural)]
pub struct TopologyReconfigurationRequest {
    pub scanout_rebased: bool,
    pub kms_reconfigure_requested: bool,
    pub resident_geometry_reconfigure_requested: bool,
}

/// Takes the pending topology work: the explicit requests are consumed, and
/// when anything at all asks for a rescan the dirty mark is cleared and the
/// reasons are returned.
pub fn take_topology_reconfiguration_request(scanout_rebased: bool, flags: &mut TopologyFlags) -> (request: Option<TopologyReconfigurationRequest>)
    ensures
        final(flags).kms_reconfigure_requested == false,
        final(flags).resident_geometry_reconfigure_requested == false,
        final(flags).output_control_dirty == old(flags).output_control_dirty,
        ({
            let wanted = old(flags).topology_dirty || scanout_rebased || old(flags).kms_reconfigure_requested
                || old(flags).resident_geometry_reconfigure_requested;
            &&& wanted ==> request == Some(TopologyReconfigurationRequest {
                scanout_rebased,
                kms_reconfigure_requested: old(flags).kms_reconfigure_requested,
                resident_geometry_reconfigure_requested: old(flags).resident_geometry_reconfigure_requested,
            }) && final(flags).topology_dirty == false
            &&& !wanted ==> request is None && final(flags).topology_dirty == old(flags).topology_dirty
        }),
{
    let kms_reconfigure_requested = flags.kms_reconfigure_requested;
    flags.kms_reconfigure_requested = false;
    let resident_geometry_reconfigure_requested = flags.resident_geometry_reconfigure_requested;
    flags.resident_geometry_reconfigure_requested = false;
    if !flags.topology_dirty && !scanout_rebased && !kms_reconfigure_requested && !resident_geometry_reconfigure_requested {
        return None;
    }
    flags.topology_dirty = false;
    Some(TopologyReconfigurationRequest { scanout_rebased, kms_reconfigure_requested, resident_geometry_reconfigure_requested })
}

impl TopologyReconfigurationRequest {
    /// Whether the rescan must not wait behind a DPMS connector grace period:
    /// a rebase, an explicit request or a changed output is authoritative.
    pub fn bypasses_dpms_debounce(&self, observed_output_changed: bool) -> (bypassed: bool)
        ensures
            bypassed == (self.scanout_rebased || self.kms_reconfigure_requested
                || self.resident_geometry_reconfigure_requested || observed_output_changed),
    {
        self.scanout_rebased || self.kms_reconfigure_requested || self.resident_geometry_reconfigure_requested
            || observed_output_changed
    }
}

/// What a topology rescan found.
#[derive(Clone, Copy, Debug, PartialEq, Eq, Structural)]
pub enum TopologyObservation {
    /// Nothing to reconfigure.
    Stable,
    /// No output is connected; wait and rescan. `newly_disconnected` when this
    /// is the first such rescan, so outputs are hidden and clients told.
    WaitingForOutputs { newly_disconnected: bool },
    /// Reconfigure; `changed` when the outputs themselves changed.
    Reconfigure { changed: bool },
}

/// The decision of a topology rescan, from what it observed: how many
/// outputs are connected, whether any changed, whether a missing output is
/// held back by a DPMS grace period, and whether all outputs were gone.
pub fn observe_topology(
    request: TopologyReconfigurationRequest,
    connected: usize,
    scanouts: usize,
    observed_output_changed: bool,
    topology_deferred: bool,
    outputs_disconnected: &mut bool,
    flags: &mut TopologyFlags,
) -> (observation: TopologyObservation)
    ensures
        final(flags).kms_reconfigure_requested == old(flags).kms_reconfigure_requested,
        final(flags).resident_geometry_reconfigure_requested == old(flags).resident_geometry_reconfigure_requested,
        connected == 0 && !topology_deferred ==> {
            &&& observation == (TopologyObservation::WaitingForOutputs { newly_disconnected: !*old(outputs_disconnected) })
            &&& *final(outputs_disconnected)
            &&& final(flags).topology_dirty
            &&& final(flags).output_control_dirty == (old(flags).output_control_dirty || !*old(outputs_disconnected))
        },
        !(connected == 0 && !topology_deferred) ==> {
            let changed = !topology_deferred && (connected != scanouts || observed_output_changed);
            &&& *final(outputs_disconnected) == (*old(outputs_disconnected) && topology_deferred)
            &&& final(flags).topology_dirty == old(flags).topology_dirty
            &&& final(flags).output_control_dirty == (old(flags).output_control_dirty || !topology_deferred)
            &&& observation == (if changed || request.scanout_rebased || request.kms_reconfigure_requested
                || request.resident_geometry_reconfigure_requested {
                TopologyObservation::Reconfigure { changed }
            } else {
                TopologyObservation::Stable
            })
        },
{
    if connected == 0 && !topology_deferred {
        let newly_disconnected = !*outputs_disconnected;
        if newly_disconnected {
            *outputs_disconnected = true;
            flags.output_control_dirty = true;
        }
        flags.topology_dirty = true;
        return TopologyObservation::WaitingForOutputs { newly_disconnected };
    }
    if !topology_deferred {
        *outputs_disconnected = false;
        flags.output_control_dirty = true;
    }
    let changed = !topology_deferred && (connected != scanouts || observed_output_changed);
    if changed || request.scanout_rebased || request.kms_reconfigure_requested || request.resident_geometry_reconfigure_requested {
        TopologyObservation::Reconfigure { changed }
    } else {
        TopologyObservation::Stable
    }
}

/// How an observed topology change is applied.
#[derive(Clone, Copy, Debug, PartialEq, Eq, Structural)]
pub enum TopologyApplyPlan {
    /// Old-topology frames are still in flight: put the request back and
    /// drain them first.
    Drain,
    /// Only geometry changed: reapply it to the resident output targets.
    ResidentGeometry,
    /// Rebuild the KMS topology.
    Hotplug,
}

/// Chooses how to apply an observed topology. A geometry-only request waits
/// while some output target is unavailable (or no runtime is there to ask);
/// anything but a rebase waits while scanout work is pending.
pub fn plan_topology_apply(
    request: TopologyReconfigurationRequest,
    changed: bool,
    pending_scanout_work: bool,
    some_target_unavailable: bool,
    flags: &mut TopologyFlags,
) -> (plan: TopologyApplyPlan)
    ensures
        ({
            let geometry_only = request.resident_geometry_reconfigure_requested && !changed && !request.kms_reconfigure_requested;
            let busy = geometry_only && some_target_unavailable;
            if !request.scanout_rebased && (pending_scanout_work || busy) {
                &&& plan == TopologyApplyPlan::Drain
                &&& *final(flags) == (TopologyFlags {
                    topology_dirty: true,
                    kms_reconfigure_requested: request.kms_reconfigure_requested,
                    resident_geometry_reconfigure_requested: request.resident_geometry_reconfigure_requested,
                    output_control_dirty: old(flags).output_control_dirty,
                })
            } else {
                &&& *final(flags) == *old(flags)
                &&& plan == (if geometry_only && !request.scanout_rebased {
                    TopologyApplyPlan::ResidentGeometry
                } else {
                    TopologyApplyPlan::Hotplug
                })
            }
        }),
{
    let geometry_only = request.resident_geometry_reconfigure_requested && !changed && !request.kms_reconfigure_requested;
    let busy = geometry_only && some_target_unavailable;
    if !request.scanout_rebased && (pending_scanout_work || busy) {
        flags.topology_dirty = true;
        flags.kms_reconfigure_requested = request.kms_reconfigure_requested;
        flags.resident_geometry_reconfigure_requested = request.resident_geometry_reconfigure_requested;
        return TopologyApplyPlan::Drain;
    }
    if geometry_only && !request.scanout_rebased {
        TopologyApplyPlan::ResidentGeometry
    } else {
        TopologyApplyPlan::Hotplug
    }
}

/// Whether a failed KMS rebuild is retried after a pause: only after a
/// rebase with the runtime alive, when a monitor may still be training its
/// link. Retrying marks the topology dirty and keeps the rebase pending.
pub fn retry_failed_hotplug(scanout_rebased: bool, runtime_present: bool, flags: &mut TopologyFlags) -> (retry: bool)
    ensures
        retry == (scanout_rebased && runtime_present),
        retry ==> *final(flags) == (TopologyFlags { topology_dirty: true, ..*old(flags) }),
        !retry ==> *final(flags) == *old(flags),
{
    if scanout_rebased && runtime_present {
        flags.topology_dirty = true;
        true
    } else {
        false
    }
}


/// An applied output configuration that reverts unless confirmed in time.
pub struct ActiveOutputConfirmation<C, P> {
    pub token: u64,
    /// When it reverts, on the monotonic clock.
    pub deadline: u64,
    pub rollback_configuration: C,
    /// The power state each output had before, to request again.
    pub rollback_power: Vec<(OutputId, bool)>,
    /// Persistence prepared for the new configuration, committed on keep.
    pub prepared_persistence: Option<P>,
}

/// What a client asks of a pending output configuration.
#[derive(Clone, Copy, Debug, PartialEq, Eq, Structural)]
pub enum ConfirmationAction {
    Keep,
    Rollback,
}

/// Why a confirmation request does not apply.
#[derive(Clone, Copy, Debug, PartialEq, Eq, Structural)]
pub enum StaleConfirmation {
    /// No output configuration awaits confirmation.
    NothingPending,
    /// The token names an older configuration.
    StaleToken,
}

/// How a claimed confirmation ended.
#[derive(Clone, Copy, Debug, PartialEq, Eq, Structural)]
pub enum ConfirmationOutcome {
    Kept,
    RolledBack,
    /// Keeping failed to persist; the configuration was rolled back.
    PersistenceFailed,
}

/// The power state to restore on rollback: each scanout's output once, the
/// last scanout of an output deciding.
pub open spec fn spec_rollback_power(scanouts: Seq<(OutputId, bool)>) -> Map<u64, bool>
    decreases scanouts.len(),
{
    if scanouts.len() == 0 {
        Map::empty()
    } else {
        spec_rollback_power(scanouts.drop_last()).insert(scanouts.last().0.0, scanouts.last().1)
    }
}

pub open spec fn power_entries(power: Seq<(OutputId, bool)>) -> Seq<(u64, bool)> {
    power.map_values(|entry: (OutputId, bool)| (entry.0.0, entry.1))
}

/// What a confirmation needs to roll back: the scanouts' power states and
/// the timeout, when the applied configuration asks for confirmation.
pub fn prepare_output_confirmation_rollback(
    confirmation_timeout_milliseconds: Option<u64>,
    scanouts: &Vec<(OutputId, bool)>,
) -> (rollback: Option<(Vec<(OutputId, bool)>, u64)>)
    ensures
        match confirmation_timeout_milliseconds {
            None => rollback is None,
            Some(timeout) => rollback matches Some((power, t)) && t == timeout
                && keys_distinct(power_entries(power@)) && seq_map(power_entries(power@)) == spec_rollback_power(scanouts@),
        },
{
    let timeout = match confirmation_timeout_milliseconds {
        Some(timeout) => timeout,
        None => {
            return None;
        },
    };
    let mut power: VecMap<u64, bool> = VecMap::new();
    let mut i: usize = 0;
    while i < scanouts.len()
        invariant
            power.wf(),
            i <= scanouts@.len(),
            power@ == spec_rollback_power(scanouts@.subrange(0, i as int)),
        decreases scanouts@.len() - i,
    {
        let (output, powered) = scanouts[i];
        power.insert(output.0, powered);
        proof {
            assert(scanouts@.subrange(0, i + 1).drop_last() =~= scanouts@.subrange(0, i as int));
        }
        i = i + 1;
    }
    proof {
        assert(scanouts@.subrange(0, scanouts@.len() as int) =~= scanouts@);
    }
    let entries = power.entries();
    proof {
        power.lemma_view();
    }
    let mut listed: Vec<(OutputId, bool)> = Vec::new();
    let mut j: usize = 0;
    while j < entries.len()
        invariant
            j <= entries@.len(),
            power_entries(listed@) == entries@.subrange(0, j as int),
        decreases entries@.len() - j,
    {
        let (raw, powered) = entries[j];
        let ghost before = listed@;
        listed.push((OutputId(raw), powered));
        proof {
            assert(power_entries(before).len() == before.len());
            assert(power_entries(listed@) =~= entries@.subrange(0, j + 1));
        }
        j = j + 1;
    }
    proof {
        assert(entries@.subrange(0, entries@.len() as int) =~= entries@);
    }
    Some((listed, timeout))
}

/// The power requests once `power` is requested in order: each output's
/// request replaces an earlier one for the same output.
pub open spec fn spec_requested_power(requests: Map<u64, bool>, power: Seq<(OutputId, bool)>) -> Map<u64, bool>
    decreases power.len(),
{
    if power.len() == 0 {
        requests
    } else {
        spec_requested_power(requests, power.drop_last()).insert(power.last().0.0, power.last().1)
    }
}

fn request_power(power_requests: &mut VecMap<u64, bool>, power: &Vec<(OutputId, bool)>)
    requires
        old(power_requests).wf(),
    ensures
        final(power_requests).wf(),
        final(power_requests)@ == spec_requested_power(old(power_requests)@, power@),
{
    let mut i: usize = 0;
    while i < power.len()
        invariant
            power_requests.wf(),
            i <= power@.len(),
            power_requests@ == spec_requested_power(old(power_requests)@, power@.subrange(0, i as int)),
        decreases power@.len() - i,
    {
        let (output, powered) = power[i];
        power_requests.insert(output.0, powered);
        proof {
            assert(power@.subrange(0, i + 1).drop_last() =~= power@.subrange(0, i as int));
        }
        i = i + 1;
    }
    proof {
        assert(power@.subrange(0, power@.len() as int) =~= power@);
    }
}

/// Reverts to the rollback configuration: the old configuration comes back,
/// the old power states are requested, and geometry and clients are updated.
fn roll_back_output_configuration<C, P>(
    pending: ActiveOutputConfirmation<C, P>,
    configuration: &mut C,
    power_requests: &mut VecMap<u64, bool>,
    flags: &mut TopologyFlags,
)
    requires
        old(power_requests).wf(),
    ensures
        final(power_requests).wf(),
        *final(configuration) == pending.rollback_configuration,
        final(power_requests)@ == spec_requested_power(old(power_requests)@, pending.rollback_power@),
        *final(flags) == (TopologyFlags {
            resident_geometry_reconfigure_requested: true,
            output_control_dirty: true,
            ..*old(flags)
        }),
{
    let ActiveOutputConfirmation { rollback_configuration, rollback_power, .. } = pending;
    *configuration = rollback_configuration;
    request_power(power_requests, &rollback_power);
    flags.resident_geometry_reconfigure_requested = true;
    flags.output_control_dirty = true;
}

/// Rolls back a pending configuration whose deadline has passed. Returns the
/// expired token.
pub fn expire_output_confirmation<C, P>(
    now: u64,
    active: &mut Option<ActiveOutputConfirmation<C, P>>,
    configuration: &mut C,
    power_requests: &mut VecMap<u64, bool>,
    flags: &mut TopologyFlags,
) -> (expired: Option<u64>)
    requires
        old(power_requests).wf(),
    ensures
        final(power_requests).wf(),
        match *old(active) {
            Some(pending) if now >= pending.deadline => {
                &&& expired == Some(pending.token)
                &&& *final(active) is None
                &&& *final(configuration) == pending.rollback_configuration
                &&& final(power_requests)@ == spec_requested_power(old(power_requests)@, pending.rollback_power@)
                &&& *final(flags) == (TopologyFlags {
                    resident_geometry_reconfigure_requested: true,
                    output_control_dirty: true,
                    ..*old(flags)
                })
            },
            _ => {
                &&& expired is None
                &&& *final(active) == *old(active)
                &&& *final(configuration) == *old(configuration)
                &&& final(power_requests)@ == old(power_requests)@
                &&& *final(flags) == *old(flags)
            },
        },
{
    let due = match active {
        Some(pending) => now >= pending.deadline,
        None => false,
    };
    if !due {
        return None;
    }
    match active.take() {
        Some(pending) => {
            let token = pending.token;
            roll_back_output_configuration(pending, configuration, power_requests, flags);
            Some(token)
        },
        None => None,
    }
}

/// Claims the pending configuration a confirmation request names: taken when
/// the token matches, left in place when it is stale.
pub fn claim_output_confirmation<C, P>(
    active: &mut Option<ActiveOutputConfirmation<C, P>>,
    token: u64,
) -> (claimed: Result<ActiveOutputConfirmation<C, P>, StaleConfirmation>)
    ensures
        match *old(active) {
            None => claimed == Err::<ActiveOutputConfirmation<C, P>, StaleConfirmation>(StaleConfirmation::NothingPending)
                && *final(active) is None,
            Some(pending) => if pending.token == token {
                claimed == Ok::<ActiveOutputConfirmation<C, P>, StaleConfirmation>(pending) && *final(active) is None
            } else {
                claimed == Err::<ActiveOutputConfirmation<C, P>, StaleConfirmation>(StaleConfirmation::StaleToken)
                    && *final(active) == *old(active)
            },
        },
{
    let matches = match active {
        Some(pending) => pending.token == token,
        None => {
            return Err(StaleConfirmation::NothingPending);
        },
    };
    if !matches {
        return Err(StaleConfirmation::StaleToken);
    }
    match active.take() {
        Some(pending) => Ok(pending),
        None => Err(StaleConfirmation::NothingPending),
    }
}

/// Ends a claimed confirmation. Keeping stands when the prepared persistence
/// committed (or there was none to commit); otherwise, and on an explicit
/// rollback, the old configuration comes back.
pub fn finish_output_confirmation<C, P>(
    pending: ActiveOutputConfirmation<C, P>,
    action: ConfirmationAction,
    persisted: bool,
    configuration: &mut C,
    power_requests: &mut VecMap<u64, bool>,
    flags: &mut TopologyFlags,
) -> (outcome: ConfirmationOutcome)
    requires
        old(power_requests).wf(),
    ensures
        final(power_requests).wf(),
        outcome == (match action {
            ConfirmationAction::Keep => if persisted {
                ConfirmationOutcome::Kept
            } else {
                ConfirmationOutcome::PersistenceFailed
            },
            ConfirmationAction::Rollback => ConfirmationOutcome::RolledBack,
        }),
        outcome == ConfirmationOutcome::Kept ==> {
            &&& *final(configuration) == *old(configuration)
            &&& final(power_requests)@ == old(power_requests)@
            &&& *final(flags) == (TopologyFlags { output_control_dirty: true, ..*old(flags) })
        },
        outcome != ConfirmationOutcome::Kept ==> {
            &&& *final(configuration) == pending.rollback_configuration
            &&& final(power_requests)@ == spec_requested_power(old(power_requests)@, pending.rollback_power@)
            &&& *final(flags) == (TopologyFlags {
                resident_geometry_reconfigure_requested: true,
                output_control_dirty: true,
                ..*old(flags)
            })
        },
{
    match action {
        ConfirmationAction::Keep => {
            if persisted {
                flags.output_control_dirty = true;
                ConfirmationOutcome::Kept
            } else {
                roll_back_output_configuration(pending, configuration, power_requests, flags);
                ConfirmationOutcome::PersistenceFailed
            }
        },
        ConfirmationAction::Rollback => {
            roll_back_output_configuration(pending, configuration, power_requests, flags);
            ConfirmationOutcome::RolledBack
        },
    }
}


/// The background operations one event-loop iteration runs.
#[derive(Clone, Copy, Debug, PartialEq, Eq, Structural)]
pub struct BackgroundWork {
    pub services: bool,
    pub maintenance: bool,
}

/// Decides the background work of an iteration at `now`. Services run on
/// their cadence or as soon as Flutter or interactive work queues some;
/// maintenance runs on its cadence or once the idle policy's deadline has
/// come. The cadence advances only for an operation that was due by it.
pub fn take_background_work(
    cadence: &mut OperationCadence,
    now: u64,
    flutter_background_event: bool,
    interactive_work_pending: bool,
    idle_deadline: Option<u64>,
) -> (work: BackgroundWork)
    ensures
        work == (BackgroundWork {
            services: now >= old(cadence).next_service || flutter_background_event || interactive_work_pending,
            maintenance: now >= old(cadence).next_maintenance || (idle_deadline matches Some(deadline) && now >= deadline),
        }),
        final(cadence).next_service == (if now >= old(cadence).next_service {
            next_deadline(now, BACKGROUND_SERVICE_INTERVAL_NANOS)
        } else {
            old(cadence).next_service
        }),
        final(cadence).next_maintenance == (if now >= old(cadence).next_maintenance {
            next_deadline(now, BACKGROUND_MAINTENANCE_INTERVAL_NANOS)
        } else {
            old(cadence).next_maintenance
        }),
{
    let service_due = cadence.take_service_due(now);
    let maintenance_due = cadence.take_maintenance_due(now);
    let idle_due = match idle_deadline {
        Some(deadline) => now >= deadline,
        None => false,
    };
    BackgroundWork {
        services: service_due || flutter_background_event || interactive_work_pending,
        maintenance: maintenance_due || idle_due,
    }
}

/// Why a compositor session ends.
#[derive(Clone, Copy, Debug, PartialEq, Eq, Structural)]
pub enum SessionEnd {
    /// A shutdown was requested.
    Shutdown,
    /// The session's run time is up.
    DeadlineReached,
    /// The requested number of frames has been rendered.
    FrameLimitReached,
    /// The DRM device went away; this ends the session with an error.
    DeviceRemoved,
}

/// Whether the session ends in this iteration, checked in this order: a
/// shutdown request, the run deadline, the frame limit, a removed device.
pub fn session_end(
    shutdown_requested: bool,
    now: u64,
    deadline: Option<u64>,
    raster_frames: u64,
    frame_limit: Option<u64>,
    device_removed: bool,
) -> (end: Option<SessionEnd>)
    ensures
        end == (if shutdown_requested {
            Some(SessionEnd::Shutdown)
        } else if deadline matches Some(deadline) && now >= deadline {
            Some(SessionEnd::DeadlineReached)
        } else if frame_limit matches Some(limit) && raster_frames >= limit {
            Some(SessionEnd::FrameLimitReached)
        } else if device_removed {
            Some(SessionEnd::DeviceRemoved)
        } else {
            None
        }),
{
    if shutdown_requested {
        return Some(SessionEnd::Shutdown);
    }
    if let Some(deadline) = deadline {
        if now >= deadline {
            return Some(SessionEnd::DeadlineReached);
        }
    }
    if let Some(limit) = frame_limit {
        if raster_frames >= limit {
            return Some(SessionEnd::FrameLimitReached);
        }
    }
    if device_removed {
        return Some(SessionEnd::DeviceRemoved);
    }
    None
}

/// The session's deadline, `duration` after `started`; an error when that
/// lies past the clock's range.
pub fn session_deadline(started: u64, duration: Option<u64>) -> (deadline: Result<Option<u64>, ()>)
    ensures
        deadline == (match duration {
            None => Ok(None),
            Some(duration) => if started + duration <= u64::MAX {
                Ok(Some((started + duration) as u64))
            } else {
                Err(())
            },
        }),
{
    match duration {
        None => Ok(None),
        Some(duration) => match started.checked_add(duration) {
            Some(deadline) => Ok(Some(deadline)),
            None => Err(()),
        },
    }
}


/// Admits an output configuration request only when it was made against the
/// current configuration serial; a stale one is refused and the topology is
/// rescanned so the client sees the current state.
pub fn admit_output_apply_serial(requested: u64, current: u64, flags: &mut TopologyFlags) -> (admitted: bool)
    ensures
        admitted == (requested == current),
        admitted ==> *final(flags) == *old(flags),
        !admitted ==> *final(flags) == (TopologyFlags { topology_dirty: true, ..*old(flags) }),
{
    if requested != current {
        flags.topology_dirty = true;
        return false;
    }
    true
}

} // verus!
