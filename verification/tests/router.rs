use rustmix_wave::router::{ScreenRoute, ScreenRouter};

#[test]
fn router_exposes_static_parent_hierarchy() {
    assert_eq!(ScreenRoute::Files.parent(), Some(ScreenRoute::Tools));
    assert_eq!(ScreenRoute::Display.parent(), Some(ScreenRoute::Settings));
    assert_eq!(ScreenRoute::PowerKeyMenu.parent(), Some(ScreenRoute::Home));
    assert_eq!(
        ScreenRoute::Calendar.parent(),
        Some(ScreenRoute::Productivity)
    );
    assert_eq!(
        ScreenRoute::CalendarAgenda.parent(),
        Some(ScreenRoute::Calendar)
    );
    assert_eq!(
        ScreenRoute::CalendarEventDetails.parent(),
        Some(ScreenRoute::CalendarAgenda)
    );
    assert_eq!(
        ScreenRoute::CalendarEventEditor.parent(),
        Some(ScreenRoute::CalendarAgenda)
    );
    assert_eq!(
        ScreenRoute::CalendarDeleteConfirmation.parent(),
        Some(ScreenRoute::CalendarEventDetails)
    );
    assert_eq!(
        ScreenRoute::UnitConverter.parent(),
        Some(ScreenRoute::Tools)
    );
    assert!(!ScreenRoute::UnitConverter.is_placeholder());
    assert!(!ScreenRoute::Dictionary.is_placeholder());
    assert_eq!(ScreenRoute::AudioDetails.parent(), Some(ScreenRoute::Audio));
    assert_eq!(
        ScreenRoute::DeviceInfoRuntime.parent(),
        Some(ScreenRoute::DeviceInfoBoard)
    );
    assert_eq!(ScreenRoute::Reader.parent(), Some(ScreenRoute::Home));
    assert_eq!(ScreenRoute::LuaApps.parent(), Some(ScreenRoute::Games));
    assert_eq!(ScreenRoute::LuaGame.parent(), Some(ScreenRoute::LuaApps));
    assert_eq!(
        ScreenRoute::LuaGameError.parent(),
        Some(ScreenRoute::LuaApps)
    );
    assert_eq!(
        ScreenRoute::WifiTransfer.parent(),
        Some(ScreenRoute::Network)
    );
    assert_eq!(ScreenRoute::WifiSetup.parent(), Some(ScreenRoute::Network));
    assert_eq!(ScreenRoute::Home.parent(), None);
}

#[test]
fn back_returns_details_to_overview_then_category_then_home() {
    let mut router = ScreenRouter::default();
    router.navigate_to(ScreenRoute::Settings);
    router.navigate_to(ScreenRoute::Audio);
    router.navigate_to(ScreenRoute::AudioDetails);
    router.back();
    assert_eq!(router.current(), ScreenRoute::Audio);
    router.back();
    assert_eq!(router.current(), ScreenRoute::Settings);
    router.back();
    assert_eq!(router.current(), ScreenRoute::Home);
}

#[test]
fn back_from_home_stays_home() {
    let mut router = ScreenRouter::default();
    assert_eq!(router.current(), ScreenRoute::Home);
    router.back();
    assert_eq!(router.current(), ScreenRoute::Home);
}

#[test]
fn back_home_returns_to_home_from_any_depth() {
    let mut router = ScreenRouter::default();
    router.navigate_to(ScreenRoute::CalendarDeleteConfirmation);
    router.back_home();
    assert_eq!(router.current(), ScreenRoute::Home);
}

#[test]
fn five_backs_reach_home_from_the_deepest_route() {
    let mut router = ScreenRouter::default();
    router.navigate_to(ScreenRoute::CalendarDeleteConfirmation);
    for _ in 0..5 {
        router.back();
    }
    assert_eq!(router.current(), ScreenRoute::Home);
}

#[test]
fn categories_sit_directly_under_home() {
    for route in [
        ScreenRoute::Reader,
        ScreenRoute::Productivity,
        ScreenRoute::Games,
        ScreenRoute::Tools,
        ScreenRoute::Settings,
    ] {
        assert!(route.is_category());
        assert_eq!(route.parent(), Some(ScreenRoute::Home));
    }
    assert!(!ScreenRoute::Home.is_category());
    assert!(!ScreenRoute::Audio.is_category());
}

#[test]
fn route_labels_markers_and_live_status() {
    assert_eq!(ScreenRoute::Home.label(), "Home");
    assert_eq!(ScreenRoute::Home.marker(), "home");
    assert_eq!(ScreenRoute::Settings.label(), "Settings");
    assert_eq!(ScreenRoute::Tools.marker(), "tools");
    assert!(ScreenRoute::Clock.uses_live_status());
    assert!(ScreenRoute::WifiSetup.uses_live_status());
    assert!(!ScreenRoute::Home.uses_live_status());
    assert_eq!(ScreenRoute::default(), ScreenRoute::Home);
}
