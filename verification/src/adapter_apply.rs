//! Applying a configuration change to a worker whose configuration is its
//! adapter alone (the cron and pub/sub workers): the new value is read; an
//! unchanged adapter only replaces the snapshot; a changed one is built
//! first and swapped in only once it is built. An inactive worker applies
//! nothing.

use vstd::prelude::*;
use crate::adapter::{same_adapter, same_effective_adapter, AdapterEntry};

verus! {

/// Where the application of a change stands.
#[derive(Debug)]
pub enum AdapterApplyPhase {
    Idle,
    /// The stored configuration is being read.
    Fetching,
    /// The adapter `pending` selects is being built.
    Resolving { pending: Option<AdapterEntry> },
}

/// The live adapter selection, the backend serving it (by the id the worker
/// gave it), and whether the worker is active (not destroyed, and for the
/// pub/sub worker, started).
#[derive(Debug)]
pub struct AdapterApplyState {
    pub adapter: Option<AdapterEntry>,
    pub backend: u64,
    pub active: bool,
    pub phase: AdapterApplyPhase,
}

#[derive(Debug)]
pub enum AdapterApplyEvent {
    /// A configuration change was announced.
    Requested,
    /// Reading the configuration ended with its adapter selection, or an
    /// error.
    Fetched(Result<Option<AdapterEntry>, String>),
    /// Building the adapter ended with the new backend's id, or an error.
    Resolved(Result<u64, String>),
    /// The worker became active.
    Activated,
    /// The worker was destroyed.
    Deactivated,
}

#[derive(Debug)]
pub enum AdapterApplyFailure {
    Fetch(String),
    Resolve(String),
}

#[derive(Debug)]
pub enum AdapterApplyAction {
    Nothing,
    /// Read the stored configuration.
    Fetch,
    /// Build the adapter the pending selection names.
    ResolveAdapter,
    /// The new selection is live. With `swapped`, move the live jobs or
    /// subscriptions to the new backend and retire the old one; otherwise
    /// only the snapshot was replaced.
    Commit { swapped: bool },
    Fail(AdapterApplyFailure),
}

pub open spec fn with_phase(s: AdapterApplyState, phase: AdapterApplyPhase) -> AdapterApplyState {
    AdapterApplyState { adapter: s.adapter, backend: s.backend, active: s.active, phase }
}

/// One step of applying a change to an adapter-only configuration, with
/// `default_name` the adapter an absent selection means.
pub open spec fn adapter_next(
    s: AdapterApplyState,
    ev: AdapterApplyEvent,
    default_name: Seq<char>,
) -> (AdapterApplyState, AdapterApplyAction) {
    match ev {
        AdapterApplyEvent::Activated => (
            AdapterApplyState {
                adapter: s.adapter,
                backend: s.backend,
                active: true,
                phase: s.phase,
            },
            AdapterApplyAction::Nothing,
        ),
        AdapterApplyEvent::Deactivated => (
            AdapterApplyState {
                adapter: s.adapter,
                backend: s.backend,
                active: false,
                phase: AdapterApplyPhase::Idle,
            },
            AdapterApplyAction::Nothing,
        ),
        AdapterApplyEvent::Requested => if s.active && s.phase is Idle {
            (with_phase(s, AdapterApplyPhase::Fetching), AdapterApplyAction::Fetch)
        } else {
            (s, AdapterApplyAction::Nothing)
        },
        AdapterApplyEvent::Fetched(res) => if s.active && s.phase is Fetching {
            match res {
                Err(e) => (
                    with_phase(s, AdapterApplyPhase::Idle),
                    AdapterApplyAction::Fail(AdapterApplyFailure::Fetch(e)),
                ),
                Ok(new) => if same_effective_adapter(s.adapter, new, default_name) {
                    (
                        AdapterApplyState {
                            adapter: new,
                            backend: s.backend,
                            active: s.active,
                            phase: AdapterApplyPhase::Idle,
                        },
                        AdapterApplyAction::Commit { swapped: false },
                    )
                } else {
                    (
                        with_phase(s, AdapterApplyPhase::Resolving { pending: new }),
                        AdapterApplyAction::ResolveAdapter,
                    )
                },
            }
        } else {
            (s, AdapterApplyAction::Nothing)
        },
        AdapterApplyEvent::Resolved(res) => if s.active && s.phase is Resolving {
            match res {
                Err(e) => (
                    with_phase(s, AdapterApplyPhase::Idle),
                    AdapterApplyAction::Fail(AdapterApplyFailure::Resolve(e)),
                ),
                Ok(b) => (
                    AdapterApplyState {
                        adapter: s.phase->pending,
                        backend: b,
                        active: s.active,
                        phase: AdapterApplyPhase::Idle,
                    },
                    AdapterApplyAction::Commit { swapped: true },
                ),
            }
        } else {
            (s, AdapterApplyAction::Nothing)
        },
    }
}

/// One step of applying a change to an adapter-only configuration (see
/// `adapter_next`).
pub fn adapter_apply_step(s: AdapterApplyState, ev: AdapterApplyEvent, default_name: &str) -> (r: (
    AdapterApplyState,
    AdapterApplyAction,
))
    ensures
        r == adapter_next(s, ev, default_name@),
{
    let AdapterApplyState { adapter, backend, active, phase } = s;
    match ev {
        AdapterApplyEvent::Activated => (
            AdapterApplyState { adapter, backend, active: true, phase },
            AdapterApplyAction::Nothing,
        ),
        AdapterApplyEvent::Deactivated => (
            AdapterApplyState { adapter, backend, active: false, phase: AdapterApplyPhase::Idle },
            AdapterApplyAction::Nothing,
        ),
        AdapterApplyEvent::Requested => match phase {
            AdapterApplyPhase::Idle => if active {
                (
                    AdapterApplyState {
                        adapter,
                        backend,
                        active,
                        phase: AdapterApplyPhase::Fetching,
                    },
                    AdapterApplyAction::Fetch,
                )
            } else {
                (
                    AdapterApplyState { adapter, backend, active, phase: AdapterApplyPhase::Idle },
                    AdapterApplyAction::Nothing,
                )
            },
            other => (
                AdapterApplyState { adapter, backend, active, phase: other },
                AdapterApplyAction::Nothing,
            ),
        },
        AdapterApplyEvent::Fetched(res) => match phase {
            AdapterApplyPhase::Fetching => if !active {
                (
                    AdapterApplyState {
                        adapter,
                        backend,
                        active,
                        phase: AdapterApplyPhase::Fetching,
                    },
                    AdapterApplyAction::Nothing,
                )
            } else {
                match res {
                    Err(e) => (
                        AdapterApplyState {
                            adapter,
                            backend,
                            active,
                            phase: AdapterApplyPhase::Idle,
                        },
                        AdapterApplyAction::Fail(AdapterApplyFailure::Fetch(e)),
                    ),
                    Ok(new) => if same_adapter(&adapter, &new, default_name) {
                        (
                            AdapterApplyState {
                                adapter: new,
                                backend,
                                active,
                                phase: AdapterApplyPhase::Idle,
                            },
                            AdapterApplyAction::Commit { swapped: false },
                        )
                    } else {
                        (
                            AdapterApplyState {
                                adapter,
                                backend,
                                active,
                                phase: AdapterApplyPhase::Resolving { pending: new },
                            },
                            AdapterApplyAction::ResolveAdapter,
                        )
                    },
                }
            },
            other => (
                AdapterApplyState { adapter, backend, active, phase: other },
                AdapterApplyAction::Nothing,
            ),
        },
        AdapterApplyEvent::Resolved(res) => match phase {
            AdapterApplyPhase::Resolving { pending } => if !active {
                (
                    AdapterApplyState {
                        adapter,
                        backend,
                        active,
                        phase: AdapterApplyPhase::Resolving { pending },
                    },
                    AdapterApplyAction::Nothing,
                )
            } else {
                match res {
                    Err(e) => (
                        AdapterApplyState {
                            adapter,
                            backend,
                            active,
                            phase: AdapterApplyPhase::Idle,
                        },
                        AdapterApplyAction::Fail(AdapterApplyFailure::Resolve(e)),
                    ),
                    Ok(b) => (
                        AdapterApplyState {
                            adapter: pending,
                            backend: b,
                            active,
                            phase: AdapterApplyPhase::Idle,
                        },
                        AdapterApplyAction::Commit { swapped: true },
                    ),
                }
            },
            other => (
                AdapterApplyState { adapter, backend, active, phase: other },
                AdapterApplyAction::Nothing,
            ),
        },
    }
}

/// An inactive worker applies nothing: no announced change or step result
/// changes its state or asks for work.
pub proof fn law_inactive_applies_nothing(
    s: AdapterApplyState,
    ev: AdapterApplyEvent,
    default_name: Seq<char>,
)
    requires
        !s.active,
        !(ev is Activated),
        !(ev is Deactivated),
    ensures
        adapter_next(s, ev, default_name) == (s, AdapterApplyAction::Nothing),
{
}

/// All or nothing: a failed read or build leaves the adapter selection and
/// backend as they were; only a commit changes them, and the backend
/// changes only on a swap.
pub proof fn law_adapter_apply_all_or_nothing(
    s: AdapterApplyState,
    ev: AdapterApplyEvent,
    default_name: Seq<char>,
)
    ensures
        ({
            let (t, a) = adapter_next(s, ev, default_name);
            &&& a is Fail ==> t.adapter == s.adapter && t.backend == s.backend
            &&& (t.adapter != s.adapter || t.backend != s.backend) ==> a is Commit
            &&& t.backend != s.backend ==> (a matches AdapterApplyAction::Commit { swapped } && swapped)
        }),
{
}

/// An unchanged adapter selection only replaces the snapshot: the backend
/// stays and nothing is built.
pub proof fn law_unchanged_adapter_is_snapshot_swap(
    s: AdapterApplyState,
    new: Option<AdapterEntry>,
    default_name: Seq<char>,
)
    requires
        s.active,
        s.phase is Fetching,
        same_effective_adapter(s.adapter, new, default_name),
    ensures
        adapter_next(s, AdapterApplyEvent::Fetched(Ok(new)), default_name) == (
            AdapterApplyState {
                adapter: new,
                backend: s.backend,
                active: s.active,
                phase: AdapterApplyPhase::Idle,
            },
            AdapterApplyAction::Commit { swapped: false },
        ),
{
}

/// A swap installs the backend that was built for the pending selection,
/// and only once it was built.
pub proof fn law_swap_after_build(s: AdapterApplyState, ev: AdapterApplyEvent, default_name: Seq<char>)
    requires
        adapter_next(s, ev, default_name).1 matches AdapterApplyAction::Commit { swapped } && swapped,
    ensures
        ev matches AdapterApplyEvent::Resolved(Ok(b)) && adapter_next(s, ev, default_name).0.backend
            == b,
        s.phase matches AdapterApplyPhase::Resolving { pending } && adapter_next(
            s,
            ev,
            default_name,
        ).0.adapter == pending,
{
}

} // verus!
