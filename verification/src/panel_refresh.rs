//! Panel refresh coordinator.
//!
//! Every normal UI and game frame shares one partial-refresh counter. A
//! global base refresh is forced on wake, manual ghost cleanup and safety
//! fallback, and happens periodically once the counter reaches the limit.
use vstd::prelude::*;

verus! {

/// Periodic ghost-cleanup cadence shared by menus, Reader screens and games.
pub const PANEL_PARTIAL_REFRESH_LIMIT: u8 = 32;

#[derive(Clone, Copy, Debug, PartialEq, Eq, Structural)]
pub enum PanelRefreshRequest {
    Normal,
    AfterWake,
    ManualGhostCleanup,
    SafetyFallback,
}

#[derive(Clone, Copy, Debug, PartialEq, Eq, Structural)]
pub enum PanelGlobalReason {
    InitialBoot,
    AfterWake,
    ManualGhostCleanup,
    PeriodicCleanup,
    SafetyFallback,
    SleepImage,
}

pub open spec fn reason_marker(reason: PanelGlobalReason) -> Seq<char> {
    match reason {
        PanelGlobalReason::InitialBoot => "initial-boot"@,
        PanelGlobalReason::AfterWake => "after-wake"@,
        PanelGlobalReason::ManualGhostCleanup => "manual-ghost-cleanup"@,
        PanelGlobalReason::PeriodicCleanup => "ghost-cleanup-threshold"@,
        PanelGlobalReason::SafetyFallback => "safety-fallback"@,
        PanelGlobalReason::SleepImage => "sleep-image"@,
    }
}

impl PanelGlobalReason {
    pub fn marker(self) -> (marker: &'static str)
        ensures
            marker@ == reason_marker(self),
    {
        match self {
            PanelGlobalReason::InitialBoot => "initial-boot",
            PanelGlobalReason::AfterWake => "after-wake",
            PanelGlobalReason::ManualGhostCleanup => "manual-ghost-cleanup",
            PanelGlobalReason::PeriodicCleanup => "ghost-cleanup-threshold",
            PanelGlobalReason::SafetyFallback => "safety-fallback",
            PanelGlobalReason::SleepImage => "sleep-image",
        }
    }
}

#[derive(Clone, Copy, Debug, PartialEq, Eq, Structural)]
pub enum PanelRefreshPlan {
    PartialFullscreen { partial_count: u8 },
    GlobalBase { reason: PanelGlobalReason },
}

/// The global refresh that a request forces regardless of the counter, if any.
pub open spec fn forced_reason(request: PanelRefreshRequest) -> Option<PanelGlobalReason> {
    match request {
        PanelRefreshRequest::Normal => None,
        PanelRefreshRequest::AfterWake => Some(PanelGlobalReason::AfterWake),
        PanelRefreshRequest::ManualGhostCleanup => Some(PanelGlobalReason::ManualGhostCleanup),
        PanelRefreshRequest::SafetyFallback => Some(PanelGlobalReason::SafetyFallback),
    }
}

/// The plan chosen for `request` when `count` partial refreshes have run
/// since the last global refresh, and the counter afterwards.
pub open spec fn plan_step(count: u8, request: PanelRefreshRequest) -> (PanelRefreshPlan, u8) {
    match forced_reason(request) {
        Some(reason) => (PanelRefreshPlan::GlobalBase { reason }, 0u8),
        None => if count >= PANEL_PARTIAL_REFRESH_LIMIT {
            (PanelRefreshPlan::GlobalBase { reason: PanelGlobalReason::PeriodicCleanup }, 0u8)
        } else {
            let next: u8 = (count + 1) as u8;
            (PanelRefreshPlan::PartialFullscreen { partial_count: next }, next)
        },
    }
}

/// Counter after `n` consecutive normal requests starting from `count`.
pub open spec fn count_after_normals(count: u8, n: nat) -> u8
    decreases n,
{
    if n == 0 {
        count
    } else {
        plan_step(count_after_normals(count, (n - 1) as nat), PanelRefreshRequest::Normal).1
    }
}

/// One counter for every normal UI and game refresh.
#[derive(Clone, Copy, Debug, PartialEq, Eq, Structural)]
pub struct PanelRefreshCoordinator {
    partial_count: u8,
}

impl View for PanelRefreshCoordinator {
    type V = u8;

    closed spec fn view(&self) -> u8 {
        self.partial_count
    }
}

impl Default for PanelRefreshCoordinator {
    fn default() -> (coordinator: Self)
        ensures
            coordinator@ == 0,
    {
        PanelRefreshCoordinator { partial_count: 0 }
    }
}

impl PanelRefreshCoordinator {
    pub fn partial_count(self) -> (count: u8)
        ensures
            count == self@,
    {
        self.partial_count
    }

    pub fn reset_after_external_global(&mut self, _reason: PanelGlobalReason)
        ensures
            final(self)@ == 0,
    {
        self.partial_count = 0;
    }

    pub fn plan(&mut self, request: PanelRefreshRequest) -> (plan: PanelRefreshPlan)
        ensures
            (plan, final(self)@) == plan_step(old(self)@, request),
    {
        let forced = match request {
            PanelRefreshRequest::Normal => None,
            PanelRefreshRequest::AfterWake => Some(PanelGlobalReason::AfterWake),
            PanelRefreshRequest::ManualGhostCleanup => Some(PanelGlobalReason::ManualGhostCleanup),
            PanelRefreshRequest::SafetyFallback => Some(PanelGlobalReason::SafetyFallback),
        };
        if let Some(reason) = forced {
            self.partial_count = 0;
            return PanelRefreshPlan::GlobalBase { reason };
        }
        if self.partial_count >= PANEL_PARTIAL_REFRESH_LIMIT {
            self.partial_count = 0;
            return PanelRefreshPlan::GlobalBase { reason: PanelGlobalReason::PeriodicCleanup };
        }
        self.partial_count = self.partial_count + 1;
        PanelRefreshPlan::PartialFullscreen { partial_count: self.partial_count }
    }
}

/// Wake, manual ghost cleanup and safety fallback always force a global base
/// refresh with their own reason and restart the partial counter.
pub proof fn lemma_forced_requests_reset(count: u8, request: PanelRefreshRequest)
    requires
        request != PanelRefreshRequest::Normal,
    ensures
        plan_step(count, request).1 == 0,
        plan_step(count, request).0 == (PanelRefreshPlan::GlobalBase {
            reason: forced_reason(request)->0,
        }),
{
}

/// The partial counter never exceeds the limit: planning from a counter
/// within the limit leaves it within the limit.
pub proof fn lemma_counter_stays_bounded(count: u8, request: PanelRefreshRequest)
    requires
        count <= PANEL_PARTIAL_REFRESH_LIMIT,
    ensures
        plan_step(count, request).1 <= PANEL_PARTIAL_REFRESH_LIMIT,
{
}

/// After a global refresh, the first `n <= 32` normal requests are partial
/// refreshes numbered `1..=n`.
pub proof fn lemma_normals_count_up(n: nat)
    requires
        n <= PANEL_PARTIAL_REFRESH_LIMIT,
    ensures
        count_after_normals(0, n) == n,
    decreases n,
{
    if n > 0 {
        lemma_normals_count_up((n - 1) as nat);
    }
}

/// After a global refresh, the request following 32 normal partial refreshes
/// is a periodic global cleanup, which restarts the counter.
pub proof fn lemma_periodic_cleanup_after_limit()
    ensures
        plan_step(count_after_normals(0, 32), PanelRefreshRequest::Normal) == (
            PanelRefreshPlan::GlobalBase { reason: PanelGlobalReason::PeriodicCleanup },
            0u8,
        ),
{
    lemma_normals_count_up(32);
}

} // verus!
