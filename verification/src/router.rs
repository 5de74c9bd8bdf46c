//! Hierarchical screen router for the portrait product UI shell.
//!
//! Every screen except `Home` has exactly one parent; the parent relation
//! forms a tree of depth at most five rooted at `Home`, so "back" always
//! reaches `Home` after a bounded number of steps.
use vstd::prelude::*;

verus! {

/// Product screens exposed by the shell.
#[derive(Clone, Copy, Debug, PartialEq, Eq, Structural)]
pub enum ScreenRoute {
    Home,
    Reader,
    Productivity,
    Games,
    Tools,
    Settings,
    ContinueReading,
    Library,
    Bookmarks,
    ReaderBookmarks,
    ReaderLoading,
    ReaderPage,
    ReaderOptions,
    ReaderPreferences,
    ReaderToc,
    Calendar,
    CalendarAgenda,
    CalendarEventDetails,
    CalendarEventEditor,
    CalendarDeleteConfirmation,
    VoiceNotes,
    VoiceNoteDetails,
    VoiceNoteRecording,
    GamesTbd,
    LuaApps,
    LuaGame,
    LuaGameError,
    Files,
    Dictionary,
    UnitConverter,
    Alarms,
    Audio,
    AudioDetails,
    Clock,
    ClockDetails,
    Display,
    PowerKeyMenu,
    DeviceInfo,
    DeviceInfoBoard,
    DeviceInfoRuntime,
    Environment,
    EnvironmentDetails,
    Motion,
    MotionEvents,
    MotionDetails,
    Network,
    NetworkDetails,
    WifiTransfer,
    WifiSetup,
    Weather,
    WeatherDetails,
}

impl Default for ScreenRoute {
    fn default() -> (r: Self)
        ensures
            r == ScreenRoute::Home,
    {
        ScreenRoute::Home
    }
}

/// Human-readable title of a screen.
pub open spec fn route_label(route: ScreenRoute) -> Seq<char> {
    match route {
        ScreenRoute::Home => "Home"@,
        ScreenRoute::Reader => "Reader"@,
        ScreenRoute::Productivity => "Productivity"@,
        ScreenRoute::Games => "Games"@,
        ScreenRoute::Tools => "Tools"@,
        ScreenRoute::Settings => "Settings"@,
        ScreenRoute::ContinueReading => "Continue Reading"@,
        ScreenRoute::Library => "Library"@,
        ScreenRoute::Bookmarks => "Bookmarks"@,
        ScreenRoute::ReaderBookmarks => "Reader Bookmarks"@,
        ScreenRoute::ReaderLoading => "Opening Book"@,
        ScreenRoute::ReaderPage => "Reader Page"@,
        ScreenRoute::ReaderOptions => "Reader Options"@,
        ScreenRoute::ReaderPreferences => "Reading Preferences"@,
        ScreenRoute::ReaderToc => "Table of Contents"@,
        ScreenRoute::Calendar => "Calendar"@,
        ScreenRoute::CalendarAgenda => "Daily Agenda"@,
        ScreenRoute::CalendarEventDetails => "Calendar Event"@,
        ScreenRoute::CalendarEventEditor => "Edit Calendar Event"@,
        ScreenRoute::CalendarDeleteConfirmation => "Delete Calendar Event"@,
        ScreenRoute::VoiceNotes => "Voice Notes"@,
        ScreenRoute::VoiceNoteDetails => "Voice Note"@,
        ScreenRoute::VoiceNoteRecording => "Record Voice Note"@,
        ScreenRoute::GamesTbd => "TBD"@,
        ScreenRoute::LuaApps => "SD Lua Apps"@,
        ScreenRoute::LuaGame => "Lua App"@,
        ScreenRoute::LuaGameError => "Lua App Error"@,
        ScreenRoute::Files => "File Browser"@,
        ScreenRoute::Dictionary => "Dictionary"@,
        ScreenRoute::UnitConverter => "Unit Converter"@,
        ScreenRoute::Alarms => "Alarms"@,
        ScreenRoute::Audio => "Audio"@,
        ScreenRoute::AudioDetails => "Audio details"@,
        ScreenRoute::Clock => "Clock"@,
        ScreenRoute::ClockDetails => "RTC details"@,
        ScreenRoute::Display => "Display"@,
        ScreenRoute::PowerKeyMenu => "Power Key Menu"@,
        ScreenRoute::DeviceInfo => "Device Info"@,
        ScreenRoute::DeviceInfoBoard => "Board services"@,
        ScreenRoute::DeviceInfoRuntime => "Runtime services"@,
        ScreenRoute::Environment => "Environment"@,
        ScreenRoute::EnvironmentDetails => "Sensor details"@,
        ScreenRoute::Motion => "Motion"@,
        ScreenRoute::MotionEvents => "Motion events"@,
        ScreenRoute::MotionDetails => "Motion details"@,
        ScreenRoute::Network => "Network"@,
        ScreenRoute::NetworkDetails => "Provisioning details"@,
        ScreenRoute::WifiTransfer => "Wi-Fi Transfer"@,
        ScreenRoute::WifiSetup => "Configure Wi-Fi"@,
        ScreenRoute::Weather => "Weather"@,
        ScreenRoute::WeatherDetails => "Weather details"@,
    }
}

/// Stable machine-readable marker of a screen, used in serial logs.
pub open spec fn route_marker(route: ScreenRoute) -> Seq<char> {
    match route {
        ScreenRoute::Home => "home"@,
        ScreenRoute::Reader => "reader"@,
        ScreenRoute::Productivity => "productivity"@,
        ScreenRoute::Games => "games"@,
        ScreenRoute::Tools => "tools"@,
        ScreenRoute::Settings => "settings"@,
        ScreenRoute::ContinueReading => "continue-reading"@,
        ScreenRoute::Library => "library"@,
        ScreenRoute::Bookmarks => "bookmarks"@,
        ScreenRoute::ReaderBookmarks => "reader-bookmarks"@,
        ScreenRoute::ReaderLoading => "reader-loading"@,
        ScreenRoute::ReaderPage => "reader-page"@,
        ScreenRoute::ReaderOptions => "reader-options"@,
        ScreenRoute::ReaderPreferences => "reader-preferences"@,
        ScreenRoute::ReaderToc => "reader-toc"@,
        ScreenRoute::Calendar => "calendar"@,
        ScreenRoute::CalendarAgenda => "calendar-agenda"@,
        ScreenRoute::CalendarEventDetails => "calendar-event-details"@,
        ScreenRoute::CalendarEventEditor => "calendar-event-editor"@,
        ScreenRoute::CalendarDeleteConfirmation => "calendar-delete-confirmation"@,
        ScreenRoute::VoiceNotes => "voice-notes"@,
        ScreenRoute::VoiceNoteDetails => "voice-note-details"@,
        ScreenRoute::VoiceNoteRecording => "voice-note-recording"@,
        ScreenRoute::GamesTbd => "games-tbd"@,
        ScreenRoute::LuaApps => "lua-apps"@,
        ScreenRoute::LuaGame => "lua-game"@,
        ScreenRoute::LuaGameError => "lua-game-error"@,
        ScreenRoute::Files => "file-browser"@,
        ScreenRoute::Dictionary => "dictionary"@,
        ScreenRoute::UnitConverter => "unit-converter"@,
        ScreenRoute::Alarms => "alarms"@,
        ScreenRoute::Audio => "audio"@,
        ScreenRoute::AudioDetails => "audio-details"@,
        ScreenRoute::Clock => "clock"@,
        ScreenRoute::ClockDetails => "rtc-details"@,
        ScreenRoute::Display => "display"@,
        ScreenRoute::PowerKeyMenu => "power-key-menu"@,
        ScreenRoute::DeviceInfo => "device-info"@,
        ScreenRoute::DeviceInfoBoard => "device-info-board"@,
        ScreenRoute::DeviceInfoRuntime => "device-info-runtime"@,
        ScreenRoute::Environment => "environment"@,
        ScreenRoute::EnvironmentDetails => "environment-details"@,
        ScreenRoute::Motion => "motion"@,
        ScreenRoute::MotionEvents => "motion-events"@,
        ScreenRoute::MotionDetails => "motion-details"@,
        ScreenRoute::Network => "network"@,
        ScreenRoute::NetworkDetails => "network-details"@,
        ScreenRoute::WifiTransfer => "wifi-transfer"@,
        ScreenRoute::WifiSetup => "wifi-setup"@,
        ScreenRoute::Weather => "weather"@,
        ScreenRoute::WeatherDetails => "weather-details"@,
    }
}

/// The five top-level categories directly under `Home`.
pub open spec fn route_is_category(route: ScreenRoute) -> bool {
    match route {
        ScreenRoute::Reader | ScreenRoute::Productivity | ScreenRoute::Games | ScreenRoute::Tools
        | ScreenRoute::Settings => true,
        _ => false,
    }
}

/// Screens whose content depends on live device status and so are redrawn periodically.
pub open spec fn route_uses_live_status(route: ScreenRoute) -> bool {
    match route {
        ScreenRoute::Clock | ScreenRoute::ClockDetails | ScreenRoute::Environment
        | ScreenRoute::EnvironmentDetails | ScreenRoute::Motion | ScreenRoute::MotionDetails
        | ScreenRoute::Network | ScreenRoute::NetworkDetails | ScreenRoute::WifiTransfer
        | ScreenRoute::WifiSetup | ScreenRoute::Alarms | ScreenRoute::Calendar
        | ScreenRoute::CalendarAgenda | ScreenRoute::ReaderLoading
        | ScreenRoute::VoiceNoteRecording => true,
        _ => false,
    }
}

/// The static parent of each screen; only `Home` has none.
pub open spec fn route_parent(route: ScreenRoute) -> Option<ScreenRoute> {
    match route {
        ScreenRoute::Home => None,
        ScreenRoute::Reader | ScreenRoute::Productivity | ScreenRoute::Games | ScreenRoute::Tools
        | ScreenRoute::Settings => Some(ScreenRoute::Home),
        ScreenRoute::ContinueReading | ScreenRoute::Library | ScreenRoute::Bookmarks => Some(
            ScreenRoute::Reader,
        ),
        ScreenRoute::ReaderBookmarks => Some(ScreenRoute::ReaderOptions),
        ScreenRoute::ReaderLoading | ScreenRoute::ReaderPage => Some(ScreenRoute::Library),
        ScreenRoute::ReaderOptions => Some(ScreenRoute::ReaderPage),
        ScreenRoute::ReaderPreferences => Some(ScreenRoute::ReaderOptions),
        ScreenRoute::ReaderToc => Some(ScreenRoute::ReaderOptions),
        ScreenRoute::Calendar | ScreenRoute::VoiceNotes => Some(ScreenRoute::Productivity),
        ScreenRoute::CalendarAgenda => Some(ScreenRoute::Calendar),
        ScreenRoute::CalendarEventDetails => Some(ScreenRoute::CalendarAgenda),
        ScreenRoute::CalendarEventEditor => Some(ScreenRoute::CalendarAgenda),
        ScreenRoute::CalendarDeleteConfirmation => Some(ScreenRoute::CalendarEventDetails),
        ScreenRoute::VoiceNoteDetails | ScreenRoute::VoiceNoteRecording => Some(
            ScreenRoute::VoiceNotes,
        ),
        ScreenRoute::GamesTbd | ScreenRoute::LuaApps => Some(ScreenRoute::Games),
        ScreenRoute::LuaGame | ScreenRoute::LuaGameError => Some(ScreenRoute::LuaApps),
        ScreenRoute::Files | ScreenRoute::Dictionary | ScreenRoute::UnitConverter => Some(
            ScreenRoute::Tools,
        ),
        ScreenRoute::PowerKeyMenu => Some(ScreenRoute::Home),
        ScreenRoute::Alarms | ScreenRoute::Audio | ScreenRoute::Clock | ScreenRoute::Display
        | ScreenRoute::DeviceInfo | ScreenRoute::Environment | ScreenRoute::Motion
        | ScreenRoute::Network | ScreenRoute::Weather => Some(ScreenRoute::Settings),
        ScreenRoute::AudioDetails => Some(ScreenRoute::Audio),
        ScreenRoute::ClockDetails => Some(ScreenRoute::Clock),
        ScreenRoute::DeviceInfoBoard => Some(ScreenRoute::DeviceInfo),
        ScreenRoute::DeviceInfoRuntime => Some(ScreenRoute::DeviceInfoBoard),
        ScreenRoute::EnvironmentDetails => Some(ScreenRoute::Environment),
        ScreenRoute::MotionEvents => Some(ScreenRoute::Motion),
        ScreenRoute::MotionDetails => Some(ScreenRoute::MotionEvents),
        ScreenRoute::NetworkDetails | ScreenRoute::WifiTransfer | ScreenRoute::WifiSetup => Some(
            ScreenRoute::Network,
        ),
        ScreenRoute::WeatherDetails => Some(ScreenRoute::Weather),
    }
}

/// Where one "back" step leads: the parent, or `Home` when there is none.
pub open spec fn route_back(route: ScreenRoute) -> ScreenRoute {
    match route_parent(route) {
        Some(parent) => parent,
        None => ScreenRoute::Home,
    }
}

/// Number of "back" steps from a screen to `Home`.
pub open spec fn route_depth(route: ScreenRoute) -> nat {
    match route {
        ScreenRoute::Home => 0,
        ScreenRoute::Reader | ScreenRoute::Productivity | ScreenRoute::Games | ScreenRoute::Tools
        | ScreenRoute::Settings | ScreenRoute::PowerKeyMenu => 1,
        ScreenRoute::ContinueReading | ScreenRoute::Library | ScreenRoute::Bookmarks
        | ScreenRoute::Calendar | ScreenRoute::VoiceNotes | ScreenRoute::GamesTbd
        | ScreenRoute::LuaApps | ScreenRoute::Files | ScreenRoute::Dictionary
        | ScreenRoute::UnitConverter | ScreenRoute::Alarms | ScreenRoute::Audio
        | ScreenRoute::Clock | ScreenRoute::Display | ScreenRoute::DeviceInfo
        | ScreenRoute::Environment | ScreenRoute::Motion | ScreenRoute::Network
        | ScreenRoute::Weather => 2,
        ScreenRoute::ReaderLoading | ScreenRoute::ReaderPage | ScreenRoute::CalendarAgenda
        | ScreenRoute::VoiceNoteDetails | ScreenRoute::VoiceNoteRecording | ScreenRoute::LuaGame
        | ScreenRoute::LuaGameError | ScreenRoute::AudioDetails | ScreenRoute::ClockDetails
        | ScreenRoute::DeviceInfoBoard | ScreenRoute::EnvironmentDetails
        | ScreenRoute::MotionEvents | ScreenRoute::NetworkDetails | ScreenRoute::WifiTransfer
        | ScreenRoute::WifiSetup | ScreenRoute::WeatherDetails => 3,
        ScreenRoute::ReaderOptions | ScreenRoute::CalendarEventDetails
        | ScreenRoute::CalendarEventEditor | ScreenRoute::DeviceInfoRuntime
        | ScreenRoute::MotionDetails => 4,
        ScreenRoute::ReaderBookmarks | ScreenRoute::ReaderPreferences | ScreenRoute::ReaderToc
        | ScreenRoute::CalendarDeleteConfirmation => 5,
    }
}

/// The screen reached after `steps` consecutive "back" steps.
pub open spec fn route_back_steps(route: ScreenRoute, steps: nat) -> ScreenRoute
    decreases steps,
{
    if steps == 0 {
        route
    } else {
        route_back_steps(route_back(route), (steps - 1) as nat)
    }
}

impl ScreenRoute {
    pub fn label(self) -> (label: &'static str)
        ensures
            label@ == route_label(self),
    {
        match self {
            ScreenRoute::Home => "Home",
            ScreenRoute::Reader => "Reader",
            ScreenRoute::Productivity => "Productivity",
            ScreenRoute::Games => "Games",
            ScreenRoute::Tools => "Tools",
            ScreenRoute::Settings => "Settings",
            ScreenRoute::ContinueReading => "Continue Reading",
            ScreenRoute::Library => "Library",
            ScreenRoute::Bookmarks => "Bookmarks",
            ScreenRoute::ReaderBookmarks => "Reader Bookmarks",
            ScreenRoute::ReaderLoading => "Opening Book",
            ScreenRoute::ReaderPage => "Reader Page",
            ScreenRoute::ReaderOptions => "Reader Options",
            ScreenRoute::ReaderPreferences => "Reading Preferences",
            ScreenRoute::ReaderToc => "Table of Contents",
            ScreenRoute::Calendar => "Calendar",
            ScreenRoute::CalendarAgenda => "Daily Agenda",
            ScreenRoute::CalendarEventDetails => "Calendar Event",
            ScreenRoute::CalendarEventEditor => "Edit Calendar Event",
            ScreenRoute::CalendarDeleteConfirmation => "Delete Calendar Event",
            ScreenRoute::VoiceNotes => "Voice Notes",
            ScreenRoute::VoiceNoteDetails => "Voice Note",
            ScreenRoute::VoiceNoteRecording => "Record Voice Note",
            ScreenRoute::GamesTbd => "TBD",
            ScreenRoute::LuaApps => "SD Lua Apps",
            ScreenRoute::LuaGame => "Lua App",
            ScreenRoute::LuaGameError => "Lua App Error",
            ScreenRoute::Files => "File Browser",
            ScreenRoute::Dictionary => "Dictionary",
            ScreenRoute::UnitConverter => "Unit Converter",
            ScreenRoute::Alarms => "Alarms",
            ScreenRoute::Audio => "Audio",
            ScreenRoute::AudioDetails => "Audio details",
            ScreenRoute::Clock => "Clock",
            ScreenRoute::ClockDetails => "RTC details",
            ScreenRoute::Display => "Display",
            ScreenRoute::PowerKeyMenu => "Power Key Menu",
            ScreenRoute::DeviceInfo => "Device Info",
            ScreenRoute::DeviceInfoBoard => "Board services",
            ScreenRoute::DeviceInfoRuntime => "Runtime services",
            ScreenRoute::Environment => "Environment",
            ScreenRoute::EnvironmentDetails => "Sensor details",
            ScreenRoute::Motion => "Motion",
            ScreenRoute::MotionEvents => "Motion events",
            ScreenRoute::MotionDetails => "Motion details",
            ScreenRoute::Network => "Network",
            ScreenRoute::NetworkDetails => "Provisioning details",
            ScreenRoute::WifiTransfer => "Wi-Fi Transfer",
            ScreenRoute::WifiSetup => "Configure Wi-Fi",
            ScreenRoute::Weather => "Weather",
            ScreenRoute::WeatherDetails => "Weather details",
        }
    }

    pub fn marker(self) -> (marker: &'static str)
        ensures
            marker@ == route_marker(self),
    {
        match self {
            ScreenRoute::Home => "home",
            ScreenRoute::Reader => "reader",
            ScreenRoute::Productivity => "productivity",
            ScreenRoute::Games => "games",
            ScreenRoute::Tools => "tools",
            ScreenRoute::Settings => "settings",
            ScreenRoute::ContinueReading => "continue-reading",
            ScreenRoute::Library => "library",
            ScreenRoute::Bookmarks => "bookmarks",
            ScreenRoute::ReaderBookmarks => "reader-bookmarks",
            ScreenRoute::ReaderLoading => "reader-loading",
            ScreenRoute::ReaderPage => "reader-page",
            ScreenRoute::ReaderOptions => "reader-options",
            ScreenRoute::ReaderPreferences => "reader-preferences",
            ScreenRoute::ReaderToc => "reader-toc",
            ScreenRoute::Calendar => "calendar",
            ScreenRoute::CalendarAgenda => "calendar-agenda",
            ScreenRoute::CalendarEventDetails => "calendar-event-details",
            ScreenRoute::CalendarEventEditor => "calendar-event-editor",
            ScreenRoute::CalendarDeleteConfirmation => "calendar-delete-confirmation",
            ScreenRoute::VoiceNotes => "voice-notes",
            ScreenRoute::VoiceNoteDetails => "voice-note-details",
            ScreenRoute::VoiceNoteRecording => "voice-note-recording",
            ScreenRoute::GamesTbd => "games-tbd",
            ScreenRoute::LuaApps => "lua-apps",
            ScreenRoute::LuaGame => "lua-game",
            ScreenRoute::LuaGameError => "lua-game-error",
            ScreenRoute::Files => "file-browser",
            ScreenRoute::Dictionary => "dictionary",
            ScreenRoute::UnitConverter => "unit-converter",
            ScreenRoute::Alarms => "alarms",
            ScreenRoute::Audio => "audio",
            ScreenRoute::AudioDetails => "audio-details",
            ScreenRoute::Clock => "clock",
            ScreenRoute::ClockDetails => "rtc-details",
            ScreenRoute::Display => "display",
            ScreenRoute::PowerKeyMenu => "power-key-menu",
            ScreenRoute::DeviceInfo => "device-info",
            ScreenRoute::DeviceInfoBoard => "device-info-board",
            ScreenRoute::DeviceInfoRuntime => "device-info-runtime",
            ScreenRoute::Environment => "environment",
            ScreenRoute::EnvironmentDetails => "environment-details",
            ScreenRoute::Motion => "motion",
            ScreenRoute::MotionEvents => "motion-events",
            ScreenRoute::MotionDetails => "motion-details",
            ScreenRoute::Network => "network",
            ScreenRoute::NetworkDetails => "network-details",
            ScreenRoute::WifiTransfer => "wifi-transfer",
            ScreenRoute::WifiSetup => "wifi-setup",
            ScreenRoute::Weather => "weather",
            ScreenRoute::WeatherDetails => "weather-details",
        }
    }

    pub fn is_category(self) -> (category: bool)
        ensures
            category == route_is_category(self),
    {
        match self {
            ScreenRoute::Reader | ScreenRoute::Productivity | ScreenRoute::Games
            | ScreenRoute::Tools | ScreenRoute::Settings => true,
            _ => false,
        }
    }

    pub fn is_placeholder(self) -> (placeholder: bool)
        ensures
            placeholder == (self == ScreenRoute::GamesTbd),
    {
        match self {
            ScreenRoute::GamesTbd => true,
            _ => false,
        }
    }

    pub fn parent(self) -> (parent: Option<ScreenRoute>)
        ensures
            parent == route_parent(self),
            parent is None <==> self == ScreenRoute::Home,
            parent matches Some(screen) ==> route_lists(screen, self),
    {
        proof {
            if let Some(screen) = route_parent(self) {
                lemma_parent_is_the_listing_screen(self, screen);
            }
        }
        match self {
            ScreenRoute::Home => None,
            ScreenRoute::Reader | ScreenRoute::Productivity | ScreenRoute::Games
            | ScreenRoute::Tools | ScreenRoute::Settings => Some(ScreenRoute::Home),
            ScreenRoute::ContinueReading | ScreenRoute::Library | ScreenRoute::Bookmarks => Some(
                ScreenRoute::Reader,
            ),
            ScreenRoute::ReaderBookmarks => Some(ScreenRoute::ReaderOptions),
            ScreenRoute::ReaderLoading | ScreenRoute::ReaderPage => Some(ScreenRoute::Library),
            ScreenRoute::ReaderOptions => Some(ScreenRoute::ReaderPage),
            ScreenRoute::ReaderPreferences => Some(ScreenRoute::ReaderOptions),
            ScreenRoute::ReaderToc => Some(ScreenRoute::ReaderOptions),
            ScreenRoute::Calendar | ScreenRoute::VoiceNotes => Some(ScreenRoute::Productivity),
            ScreenRoute::CalendarAgenda => Some(ScreenRoute::Calendar),
            ScreenRoute::CalendarEventDetails => Some(ScreenRoute::CalendarAgenda),
            ScreenRoute::CalendarEventEditor => Some(ScreenRoute::CalendarAgenda),
            ScreenRoute::CalendarDeleteConfirmation => Some(ScreenRoute::CalendarEventDetails),
            ScreenRoute::VoiceNoteDetails | ScreenRoute::VoiceNoteRecording => Some(
                ScreenRoute::VoiceNotes,
            ),
            ScreenRoute::GamesTbd | ScreenRoute::LuaApps => Some(ScreenRoute::Games),
            ScreenRoute::LuaGame | ScreenRoute::LuaGameError => Some(ScreenRoute::LuaApps),
            ScreenRoute::Files | ScreenRoute::Dictionary | ScreenRoute::UnitConverter => Some(
                ScreenRoute::Tools,
            ),
            ScreenRoute::PowerKeyMenu => Some(ScreenRoute::Home),
            ScreenRoute::Alarms | ScreenRoute::Audio | ScreenRoute::Clock | ScreenRoute::Display
            | ScreenRoute::DeviceInfo | ScreenRoute::Environment | ScreenRoute::Motion
            | ScreenRoute::Network | ScreenRoute::Weather => Some(ScreenRoute::Settings),
            ScreenRoute::AudioDetails => Some(ScreenRoute::Audio),
            ScreenRoute::ClockDetails => Some(ScreenRoute::Clock),
            ScreenRoute::DeviceInfoBoard => Some(ScreenRoute::DeviceInfo),
            ScreenRoute::DeviceInfoRuntime => Some(ScreenRoute::DeviceInfoBoard),
            ScreenRoute::EnvironmentDetails => Some(ScreenRoute::Environment),
            ScreenRoute::MotionEvents => Some(ScreenRoute::Motion),
            ScreenRoute::MotionDetails => Some(ScreenRoute::MotionEvents),
            ScreenRoute::NetworkDetails | ScreenRoute::WifiTransfer | ScreenRoute::WifiSetup => Some(
                ScreenRoute::Network,
            ),
            ScreenRoute::WeatherDetails => Some(ScreenRoute::Weather),
        }
    }

    pub fn uses_live_status(self) -> (live: bool)
        ensures
            live == route_uses_live_status(self),
    {
        match self {
            ScreenRoute::Clock | ScreenRoute::ClockDetails | ScreenRoute::Environment
            | ScreenRoute::EnvironmentDetails | ScreenRoute::Motion | ScreenRoute::MotionDetails
            | ScreenRoute::Network | ScreenRoute::NetworkDetails | ScreenRoute::WifiTransfer
            | ScreenRoute::WifiSetup | ScreenRoute::Alarms | ScreenRoute::Calendar
            | ScreenRoute::CalendarAgenda | ScreenRoute::ReaderLoading
            | ScreenRoute::VoiceNoteRecording => true,
            _ => false,
        }
    }
}

/// The currently shown screen, navigated by explicit selection or by "back".
#[derive(Clone, Copy, Debug, PartialEq, Eq, Structural)]
pub struct ScreenRouter {
    current: ScreenRoute,
}

impl Default for ScreenRouter {
    fn default() -> (router: Self)
        ensures
            router@ == ScreenRoute::Home,
    {
        ScreenRouter { current: ScreenRoute::Home }
    }
}

impl View for ScreenRouter {
    type V = ScreenRoute;

    closed spec fn view(&self) -> ScreenRoute {
        self.current
    }
}

impl ScreenRouter {
    pub fn current(self) -> (route: ScreenRoute)
        ensures
            route == self@,
    {
        self.current
    }

    pub fn navigate_to(&mut self, route: ScreenRoute)
        ensures
            final(self)@ == route,
    {
        self.current = route;
    }

    pub fn back(&mut self)
        ensures
            final(self)@ == route_back(old(self)@),
            old(self)@ != ScreenRoute::Home ==> route_lists(final(self)@, old(self)@),
    {
        self.current =
            match self.current.parent() {
                Some(parent) => parent,
                None => ScreenRoute::Home,
            };
    }

    pub fn back_home(&mut self)
        ensures
            final(self)@ == ScreenRoute::Home,
    {
        self.current = ScreenRoute::Home;
    }
}

/// The screens that each screen lists or opens: its menu rows, and for the
/// Library the book it opens (first the loading screen, then the page).
pub open spec fn route_lists(screen: ScreenRoute, child: ScreenRoute) -> bool {
    match screen {
        ScreenRoute::Home => child == ScreenRoute::Reader || child == ScreenRoute::Productivity
            || child == ScreenRoute::Games || child == ScreenRoute::Tools || child
            == ScreenRoute::Settings || child == ScreenRoute::PowerKeyMenu,
        ScreenRoute::Reader => child == ScreenRoute::ContinueReading || child
            == ScreenRoute::Library || child == ScreenRoute::Bookmarks,
        ScreenRoute::Library => child == ScreenRoute::ReaderLoading || child
            == ScreenRoute::ReaderPage,
        ScreenRoute::ReaderPage => child == ScreenRoute::ReaderOptions,
        ScreenRoute::ReaderOptions => child == ScreenRoute::ReaderBookmarks || child
            == ScreenRoute::ReaderPreferences || child == ScreenRoute::ReaderToc,
        ScreenRoute::Productivity => child == ScreenRoute::Calendar || child
            == ScreenRoute::VoiceNotes,
        ScreenRoute::Calendar => child == ScreenRoute::CalendarAgenda,
        ScreenRoute::CalendarAgenda => child == ScreenRoute::CalendarEventDetails || child
            == ScreenRoute::CalendarEventEditor,
        ScreenRoute::CalendarEventDetails => child == ScreenRoute::CalendarDeleteConfirmation,
        ScreenRoute::VoiceNotes => child == ScreenRoute::VoiceNoteDetails || child
            == ScreenRoute::VoiceNoteRecording,
        ScreenRoute::Games => child == ScreenRoute::GamesTbd || child == ScreenRoute::LuaApps,
        ScreenRoute::LuaApps => child == ScreenRoute::LuaGame || child
            == ScreenRoute::LuaGameError,
        ScreenRoute::Tools => child == ScreenRoute::Files || child == ScreenRoute::Dictionary
            || child == ScreenRoute::UnitConverter,
        ScreenRoute::Settings => child == ScreenRoute::Alarms || child == ScreenRoute::Audio
            || child == ScreenRoute::Clock || child == ScreenRoute::Display || child
            == ScreenRoute::DeviceInfo || child == ScreenRoute::Environment || child
            == ScreenRoute::Motion || child == ScreenRoute::Network || child
            == ScreenRoute::Weather,
        ScreenRoute::Audio => child == ScreenRoute::AudioDetails,
        ScreenRoute::Clock => child == ScreenRoute::ClockDetails,
        ScreenRoute::DeviceInfo => child == ScreenRoute::DeviceInfoBoard,
        ScreenRoute::DeviceInfoBoard => child == ScreenRoute::DeviceInfoRuntime,
        ScreenRoute::Environment => child == ScreenRoute::EnvironmentDetails,
        ScreenRoute::Motion => child == ScreenRoute::MotionEvents,
        ScreenRoute::MotionEvents => child == ScreenRoute::MotionDetails,
        ScreenRoute::Network => child == ScreenRoute::NetworkDetails || child
            == ScreenRoute::WifiTransfer || child == ScreenRoute::WifiSetup,
        ScreenRoute::Weather => child == ScreenRoute::WeatherDetails,
        _ => false,
    }
}

/// Each screen's parent is exactly the screen that lists it: "back" from a
/// screen returns to the menu it was chosen from (a book page and the book
/// loading screen return to the Library), and only `Home` is listed by none.
pub proof fn lemma_parent_is_the_listing_screen(child: ScreenRoute, screen: ScreenRoute)
    ensures
        route_parent(child) == Some(screen) <==> route_lists(screen, child),
        route_parent(child) is None <==> (forall|s: ScreenRoute| !#[trigger] route_lists(s, child)),
{
    match route_parent(child) {
        Some(p) => assert(route_lists(p, child)),
        None => {},
    }
}

/// "Back" from a screen leads to the screen that lists it.
pub proof fn lemma_back_returns_to_the_listing_screen(child: ScreenRoute)
    requires
        child != ScreenRoute::Home,
    ensures
        route_lists(route_back(child), child),
{
    lemma_parent_is_the_listing_screen(child, route_back(child));
}

/// Each "back" step from a screen other than `Home` moves exactly one level
/// closer to `Home`, and "back" on `Home` stays on `Home`.
pub proof fn lemma_back_moves_one_level_up(route: ScreenRoute)
    ensures
        route != ScreenRoute::Home ==> route_depth(route_back(route)) + 1 == route_depth(route),
        route == ScreenRoute::Home ==> route_back(route) == ScreenRoute::Home,
        route_depth(route) == 0 <==> route == ScreenRoute::Home,
        route_depth(route) <= 5,
{
}

/// A screen is a top-level category exactly when its parent is `Home` and it
/// is not the power-key menu overlay.
pub proof fn lemma_categories_sit_under_home(route: ScreenRoute)
    ensures
        route_is_category(route) <==> (route_parent(route) == Some(ScreenRoute::Home) && route
            != ScreenRoute::PowerKeyMenu),
{
}

/// Repeated "back" from any screen reaches `Home` after exactly as many
/// steps as the screen's depth, and stays there afterwards.
pub proof fn lemma_back_reaches_home(route: ScreenRoute, steps: nat)
    requires
        steps >= route_depth(route),
    ensures
        route_back_steps(route, steps) == ScreenRoute::Home,
    decreases steps,
{
    if steps > 0 {
        lemma_back_moves_one_level_up(route);
        lemma_back_reaches_home(route_back(route), (steps - 1) as nat);
    }
}

/// Five "back" presses bring every screen home.
pub proof fn lemma_five_backs_reach_home(route: ScreenRoute)
    ensures
        route_back_steps(route, 5) == ScreenRoute::Home,
{
    lemma_back_moves_one_level_up(route);
    lemma_back_reaches_home(route, 5);
}

} // verus!
