use rustmix_wave::panel_refresh::{
    PanelGlobalReason, PanelRefreshCoordinator, PanelRefreshPlan, PanelRefreshRequest,
    PANEL_PARTIAL_REFRESH_LIMIT,
};

#[test]
fn normal_routes_share_one_partial_counter_before_periodic_cleanup() {
    let mut coordinator = PanelRefreshCoordinator::default();
    for partial_count in 1..=PANEL_PARTIAL_REFRESH_LIMIT {
        assert_eq!(
            coordinator.plan(PanelRefreshRequest::Normal),
            PanelRefreshPlan::PartialFullscreen { partial_count }
        );
    }
    assert_eq!(
        coordinator.plan(PanelRefreshRequest::Normal),
        PanelRefreshPlan::GlobalBase {
            reason: PanelGlobalReason::PeriodicCleanup
        }
    );
}

#[test]
fn wake_manual_and_safety_requests_force_global_base() {
    let mut coordinator = PanelRefreshCoordinator::default();
    let _ = coordinator.plan(PanelRefreshRequest::Normal);
    assert_eq!(
        coordinator.plan(PanelRefreshRequest::AfterWake),
        PanelRefreshPlan::GlobalBase {
            reason: PanelGlobalReason::AfterWake
        }
    );
    assert_eq!(coordinator.partial_count(), 0);
    assert_eq!(
        coordinator.plan(PanelRefreshRequest::ManualGhostCleanup),
        PanelRefreshPlan::GlobalBase {
            reason: PanelGlobalReason::ManualGhostCleanup
        }
    );
    assert_eq!(
        coordinator.plan(PanelRefreshRequest::SafetyFallback),
        PanelRefreshPlan::GlobalBase {
            reason: PanelGlobalReason::SafetyFallback
        }
    );
}

#[test]
fn counter_restarts_after_periodic_cleanup_and_external_global() {
    let mut coordinator = PanelRefreshCoordinator::default();
    for _ in 0..=PANEL_PARTIAL_REFRESH_LIMIT {
        let _ = coordinator.plan(PanelRefreshRequest::Normal);
    }
    assert_eq!(coordinator.partial_count(), 0);
    assert_eq!(
        coordinator.plan(PanelRefreshRequest::Normal),
        PanelRefreshPlan::PartialFullscreen { partial_count: 1 }
    );
    coordinator.reset_after_external_global(PanelGlobalReason::SleepImage);
    assert_eq!(coordinator.partial_count(), 0);
}

#[test]
fn global_reason_markers() {
    assert_eq!(PanelGlobalReason::InitialBoot.marker(), "initial-boot");
    assert_eq!(PanelGlobalReason::AfterWake.marker(), "after-wake");
    assert_eq!(
        PanelGlobalReason::ManualGhostCleanup.marker(),
        "manual-ghost-cleanup"
    );
    assert_eq!(
        PanelGlobalReason::PeriodicCleanup.marker(),
        "ghost-cleanup-threshold"
    );
    assert_eq!(PanelGlobalReason::SafetyFallback.marker(), "safety-fallback");
    assert_eq!(PanelGlobalReason::SleepImage.marker(), "sleep-image");
}
