use radar::geo::GeoPoint;
use radar::track::AircraftAddress;
use radar::track::PositionFrame;
use radar::track::ResolvedPosition;
use radar::track::TrackStore;
use radar::view::clamp_selection;
use radar::view::Key;
use radar::view::Tab;
use radar::view::ViewSettings;
use radar::view::ViewState;
use radar::view::DEFAULT_SCALE;

fn home() -> GeoPoint {
    GeoPoint { latitude: 40_000_000, longitude: -74_000_000 }
}

fn store_of(count: u32) -> TrackStore {
    let mut store = TrackStore::new();
    for code in 0..count {
        store.record_message_count(AircraftAddress { code }, 0);
    }
    store
}

#[test]
fn initial_view() {
    let view = ViewState::new(home());
    assert_eq!(view.tab, Tab::MapPlot);
    assert_eq!(
        view.settings,
        ViewSettings { scale: 1_200_000, center_latitude: 40_000_000, center_longitude: -74_000_000 }
    );
    assert_eq!(view.selection, None);
    assert_eq!(view.home, home());
    assert_eq!(DEFAULT_SCALE, 1_200_000);
}

#[test]
fn next_tab_cycles() {
    assert_eq!(Tab::MapPlot.next_tab(), Tab::Coverage);
    assert_eq!(Tab::Coverage.next_tab(), Tab::Airplanes);
    assert_eq!(Tab::Airplanes.next_tab(), Tab::MapPlot);
    assert_eq!(Tab::MapPlot.index(), 0);
    assert_eq!(Tab::Coverage.index(), 1);
    assert_eq!(Tab::Airplanes.index(), 2);
}

#[test]
fn cycle_tab_three_times_returns_to_map() {
    let store = TrackStore::new();
    let mut view = ViewState::new(home());
    let start = view;
    assert!(!view.handle_key(Key::Tab, &store));
    assert_eq!(view.tab, Tab::Coverage);
    assert!(!view.handle_key(Key::Tab, &store));
    assert_eq!(view.tab, Tab::Airplanes);
    assert!(!view.handle_key(Key::Tab, &store));
    assert_eq!(view, start);
}

#[test]
fn function_keys_jump_to_tabs() {
    let store = TrackStore::new();
    let mut view = ViewState::new(home());
    view.handle_key(Key::Function(3), &store);
    assert_eq!(view.tab, Tab::Airplanes);
    view.handle_key(Key::Function(2), &store);
    assert_eq!(view.tab, Tab::Coverage);
    view.handle_key(Key::Function(1), &store);
    assert_eq!(view.tab, Tab::MapPlot);
    let before = view;
    view.handle_key(Key::Function(4), &store);
    assert_eq!(view, before);
}

#[test]
fn quit_key_only_asks_to_quit() {
    let store = TrackStore::new();
    for tab in [Tab::MapPlot, Tab::Coverage, Tab::Airplanes] {
        let mut view = ViewState::new(home());
        view.tab = tab;
        let before = view;
        assert!(view.handle_key(Key::Char('q'), &store));
        assert_eq!(view, before);
        assert!(!view.handle_key(Key::Char('x'), &store));
        assert!(!view.handle_key(Key::Other, &store));
        assert_eq!(view, before);
    }
}

#[test]
fn zoom_out_and_in_by_one_step() {
    let store = TrackStore::new();
    let mut view = ViewState::new(home());
    view.handle_key(Key::Char('-'), &store);
    assert_eq!(view.settings.scale, 1_300_000);
    view.handle_key(Key::Char('+'), &store);
    view.handle_key(Key::Char('+'), &store);
    assert_eq!(view.settings.scale, 1_100_000);
    view.tab = Tab::Coverage;
    view.handle_key(Key::Char('-'), &store);
    assert_eq!(view.settings.scale, 1_200_000);
}

#[test]
fn zoom_in_stops_at_the_floor() {
    let store = TrackStore::new();
    let mut view = ViewState::new(home());
    for _ in 0..30 {
        view.handle_key(Key::Char('+'), &store);
    }
    assert_eq!(view.settings.scale, 200_000);
    view.settings.scale = 200_001;
    view.handle_key(Key::Char('+'), &store);
    assert_eq!(view.settings.scale, 100_001);
    view.handle_key(Key::Char('+'), &store);
    assert_eq!(view.settings.scale, 100_001);
}

#[test]
fn zoom_out_stops_at_the_largest_scale() {
    let store = TrackStore::new();
    let mut view = ViewState::new(home());
    view.settings.scale = u32::MAX - 5;
    view.handle_key(Key::Char('-'), &store);
    assert_eq!(view.settings.scale, u32::MAX);
}

#[test]
fn zoom_keys_do_nothing_on_the_table() {
    let store = TrackStore::new();
    let mut view = ViewState::new(home());
    view.tab = Tab::Airplanes;
    let before = view;
    view.handle_key(Key::Char('-'), &store);
    view.handle_key(Key::Char('+'), &store);
    assert_eq!(view, before);
}

#[test]
fn pan_steps() {
    let store = TrackStore::new();
    let mut view = ViewState::new(home());
    view.handle_key(Key::Up, &store);
    assert_eq!(view.settings.center_latitude, 40_005_000);
    view.handle_key(Key::Down, &store);
    view.handle_key(Key::Down, &store);
    assert_eq!(view.settings.center_latitude, 39_995_000);
    view.handle_key(Key::Left, &store);
    assert_eq!(view.settings.center_longitude, -74_030_000);
    view.handle_key(Key::Right, &store);
    view.handle_key(Key::Right, &store);
    assert_eq!(view.settings.center_longitude, -73_970_000);
    assert_eq!(view.settings.scale, 1_200_000);
    assert_eq!(view.tab, Tab::MapPlot);
}

#[test]
fn pan_stops_at_the_range_of_the_coordinates() {
    let store = TrackStore::new();
    let mut view = ViewState::new(home());
    view.settings.center_latitude = i32::MAX - 1;
    view.settings.center_longitude = i32::MIN + 1;
    view.handle_key(Key::Up, &store);
    view.handle_key(Key::Left, &store);
    assert_eq!(view.settings.center_latitude, i32::MAX);
    assert_eq!(view.settings.center_longitude, i32::MIN);
}

#[test]
fn enter_on_a_plot_resets_the_view() {
    let store = TrackStore::new();
    let mut view = ViewState::new(home());
    view.tab = Tab::Coverage;
    view.handle_key(Key::Up, &store);
    view.handle_key(Key::Right, &store);
    view.handle_key(Key::Char('-'), &store);
    view.handle_key(Key::Enter, &store);
    assert_eq!(
        view.settings,
        ViewSettings { scale: 1_200_000, center_latitude: 40_000_000, center_longitude: -74_000_000 }
    );
    assert_eq!(view.tab, Tab::Coverage);
}

#[test]
fn clamp_selection_cases() {
    assert_eq!(clamp_selection(None, 0), None);
    assert_eq!(clamp_selection(None, 5), None);
    assert_eq!(clamp_selection(Some(0), 0), None);
    assert_eq!(clamp_selection(Some(4), 5), Some(4));
    assert_eq!(clamp_selection(Some(5), 5), Some(4));
    assert_eq!(clamp_selection(Some(usize::MAX), 1), Some(0));
}

#[test]
fn selection_clamps_from_four_to_one_when_two_tracks_remain() {
    assert_eq!(clamp_selection(Some(4), 5), Some(4));
    assert_eq!(clamp_selection(Some(4), 2), Some(1));
    let mut view = ViewState::new(home());
    view.selection = Some(4);
    view.reclamp(2);
    assert_eq!(view.selection, Some(1));
}

#[test]
fn selection_moves_within_the_table() {
    let store = store_of(3);
    let mut view = ViewState::new(home());
    view.tab = Tab::Airplanes;
    view.handle_key(Key::Down, &store);
    assert_eq!(view.selection, Some(0));
    view.handle_key(Key::Down, &store);
    view.handle_key(Key::Down, &store);
    assert_eq!(view.selection, Some(2));
    view.handle_key(Key::Down, &store);
    assert_eq!(view.selection, Some(2));
    view.handle_key(Key::Up, &store);
    assert_eq!(view.selection, Some(1));
    view.handle_key(Key::Up, &store);
    view.handle_key(Key::Up, &store);
    assert_eq!(view.selection, Some(0));
    let mut fresh = ViewState::new(home());
    fresh.tab = Tab::Airplanes;
    fresh.handle_key(Key::Up, &store);
    assert_eq!(fresh.selection, Some(0));
}

#[test]
fn selection_in_an_empty_table_stays_unset() {
    let store = TrackStore::new();
    let mut view = ViewState::new(home());
    view.tab = Tab::Airplanes;
    view.handle_key(Key::Down, &store);
    assert_eq!(view.selection, None);
    view.handle_key(Key::Up, &store);
    assert_eq!(view.selection, None);
    view.selection = Some(3);
    view.handle_key(Key::Enter, &store);
    assert_eq!(view.selection, None);
    assert_eq!(view.tab, Tab::Airplanes);
}

#[test]
fn stale_selection_is_clamped_before_it_moves() {
    let store = store_of(2);
    let mut view = ViewState::new(home());
    view.tab = Tab::Airplanes;
    view.selection = Some(4);
    view.handle_key(Key::Up, &store);
    assert_eq!(view.selection, Some(0));
    view.selection = Some(4);
    view.handle_key(Key::Down, &store);
    assert_eq!(view.selection, Some(1));
}

#[test]
fn confirm_jumps_to_the_selected_aircraft() {
    let mut store = store_of(2);
    store.apply_position(
        AircraftAddress { code: 1 },
        PositionFrame { odd: false, lat_cpr: 0, lon_cpr: 0 },
        Some(ResolvedPosition { latitude: 41_500_000, longitude: -73_250_000, altitude: 30_000 }),
        1,
    );
    let mut view = ViewState::new(home());
    view.tab = Tab::Airplanes;
    view.settings.scale = 700_000;
    view.selection = Some(1);
    assert!(!view.handle_key(Key::Enter, &store));
    assert_eq!(view.tab, Tab::MapPlot);
    assert_eq!(
        view.settings,
        ViewSettings { scale: 700_000, center_latitude: 41_500_000, center_longitude: -73_250_000 }
    );
    assert_eq!(view.selection, Some(1));
}

#[test]
fn confirm_without_position_changes_nothing() {
    let mut store = store_of(2);
    store.apply_position(
        AircraftAddress { code: 1 },
        PositionFrame { odd: false, lat_cpr: 0, lon_cpr: 0 },
        Some(ResolvedPosition { latitude: 41_500_000, longitude: -73_250_000, altitude: 30_000 }),
        1,
    );
    let mut view = ViewState::new(home());
    view.tab = Tab::Airplanes;
    view.selection = Some(0);
    let before = view;
    assert!(!view.handle_key(Key::Enter, &store));
    assert_eq!(view, before);
}

#[test]
fn confirm_without_selection_changes_nothing() {
    let store = store_of(2);
    let mut view = ViewState::new(home());
    view.tab = Tab::Airplanes;
    let before = view;
    view.handle_key(Key::Enter, &store);
    assert_eq!(view, before);
}
