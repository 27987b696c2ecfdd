use radar::geo::GeoPoint;
use radar::geo::PlotPoint;
use radar::render::Color;
use radar::render::DrawInstruction;
use radar::ingest::screen_read;
use radar::ingest::LineOutcome;
use radar::session::feed_of;
use radar::session::Feed;
use radar::session::Frame;
use radar::session::QuitReason;
use radar::session::Session;
use radar::session::DEFAULT_STALENESS_THRESHOLD;
use radar::track::AircraftAddress;
use radar::track::PositionFrame;
use radar::track::Report;
use radar::track::ResolvedPosition;
use radar::view::Key;
use radar::view::Tab;
use radar::view::ViewState;

fn home() -> GeoPoint {
    GeoPoint { latitude: 40_000_000, longitude: -74_000_000 }
}

fn addr(code: u32) -> AircraftAddress {
    AircraftAddress { code }
}

fn position(latitude: i32, longitude: i32) -> Report {
    Report::Position {
        frame: PositionFrame { odd: true, lat_cpr: 7, lon_cpr: 8 },
        resolved: Some(ResolvedPosition { latitude, longitude, altitude: 10_000 }),
    }
}

#[test]
fn new_session() {
    let session = Session::new(home(), DEFAULT_STALENESS_THRESHOLD);
    assert_eq!(DEFAULT_STALENESS_THRESHOLD, 60_000);
    assert!(session.store().is_empty());
    assert!(session.coverage().is_empty());
    assert_eq!(session.view(), ViewState::new(home()));
    assert_eq!(session.quit_reason(), None);
}

#[test]
fn quit_messages() {
    assert_eq!(QuitReason::UserRequest.message(), "user requested quit");
    assert_eq!(QuitReason::FeedClosed.message(), "TCP connection aborted, quitting radar tui");
}

#[test]
fn closed_feed_ends_the_session_and_changes_nothing_else() {
    let mut session = Session::new(home(), 100);
    session.advance(Feed::Report(addr(1), position(1, 2)), 0);
    session.advance(Feed::Closed, 1_000_000);
    assert_eq!(session.quit_reason(), Some(QuitReason::FeedClosed));
    assert_eq!(session.store().len(), 1);
    assert_eq!(session.coverage().len(), 1);
}

#[test]
fn quit_key_ends_the_session() {
    let mut session = Session::new(home(), 100);
    session.handle_key(Key::Char('x'));
    assert_eq!(session.quit_reason(), None);
    session.handle_key(Key::Char('q'));
    assert_eq!(session.quit_reason(), Some(QuitReason::UserRequest));
    assert_eq!(session.view(), ViewState::new(home()));
}

#[test]
fn silent_feed_updates_no_track() {
    let mut session = Session::new(home(), 100);
    session.advance(Feed::Report(addr(1), Report::Other), 10);
    session.advance(Feed::Silent, 20);
    let t = session.store().get(addr(1)).unwrap();
    assert_eq!(t.message_count, 1);
    assert_eq!(t.last_seen, 10);
}

#[test]
fn coverage_grows_by_every_resolved_position_each_tick() {
    let mut session = Session::new(home(), 1_000);
    session.advance(Feed::Report(addr(1), position(1, 2)), 0);
    session.advance(Feed::Report(addr(2), Report::Other), 1);
    session.advance(Feed::Report(addr(3), position(5, 6)), 2);
    session.advance(Feed::Silent, 3);
    let first = GeoPoint { latitude: 1, longitude: 2 };
    let third = GeoPoint { latitude: 5, longitude: 6 };
    assert_eq!(session.coverage(), &vec![first, first, first, third, first, third]);
}

#[test]
fn coverage_is_sampled_before_pruning_and_outlives_the_tracks() {
    let mut session = Session::new(home(), 10);
    session.advance(Feed::Report(addr(1), position(1, 2)), 0);
    session.advance(Feed::Silent, 11);
    assert!(session.store().is_empty());
    assert_eq!(session.coverage().len(), 2);
    session.advance(Feed::Silent, 12);
    assert_eq!(session.coverage().len(), 2);
}

#[test]
fn report_is_applied_before_pruning() {
    let mut session = Session::new(home(), 10);
    session.advance(Feed::Report(addr(1), Report::Other), 0);
    session.advance(Feed::Report(addr(1), Report::Other), 100);
    let t = session.store().get(addr(1)).unwrap();
    assert_eq!(t.message_count, 2);
    assert_eq!(t.last_seen, 100);
}

#[test]
fn pruning_from_five_tracks_to_two_moves_the_selection_to_the_last_row() {
    let mut session = Session::new(home(), 10);
    session.advance(Feed::Report(addr(1), Report::Other), 100);
    session.advance(Feed::Report(addr(2), Report::Other), 90);
    session.advance(Feed::Report(addr(3), Report::Other), 100);
    session.advance(Feed::Report(addr(4), Report::Other), 91);
    session.advance(Feed::Report(addr(5), Report::Other), 92);
    session.handle_key(Key::Function(3));
    for _ in 0..5 {
        session.handle_key(Key::Down);
    }
    assert_eq!(session.view().selection, Some(4));
    session.advance(Feed::Silent, 105);
    assert_eq!(session.store().len(), 2);
    assert_eq!(session.view().selection, Some(1));
    session.advance(Feed::Silent, 200);
    assert_eq!(session.store().len(), 0);
    assert_eq!(session.view().selection, None);
}

#[test]
fn confirm_jumps_to_the_map_at_the_selected_aircraft() {
    let mut session = Session::new(home(), 1_000);
    session.advance(Feed::Report(addr(1), Report::Other), 0);
    session.advance(Feed::Report(addr(2), position(41_000_000, -73_000_000)), 0);
    session.handle_key(Key::Function(3));
    session.handle_key(Key::Down);
    session.handle_key(Key::Enter);
    assert_eq!(session.view().tab, Tab::Airplanes);
    assert_eq!(session.view().settings, ViewState::new(home()).settings);
    session.handle_key(Key::Down);
    session.handle_key(Key::Enter);
    assert_eq!(session.view().tab, Tab::MapPlot);
    assert_eq!(session.view().settings.center_latitude, 41_000_000);
    assert_eq!(session.view().settings.center_longitude, -73_000_000);
    assert_eq!(session.view().settings.scale, 1_200_000);
}

#[test]
fn frame_follows_the_tab() {
    let mut session = Session::new(home(), 1_000);
    session.advance(Feed::Report(addr(0xABC), position(40_600_000, -74_000_000)), 0);
    let dot = DrawInstruction::Points { at: PlotPoint { x: 0, y: 200 }, color: Color::White };
    match session.frame(&Vec::new(), true) {
        Frame::Plot(instructions) => {
            assert_eq!(instructions.len(), 4);
            assert_eq!(instructions[0], dot);
            assert_eq!(
                instructions[1],
                DrawInstruction::Text {
                    at: PlotPoint { x: 3, y: 200 },
                    text: "000abc".to_string(),
                    color: Color::White,
                }
            );
        }
        Frame::Table(_) => panic!("the map tab draws a plot"),
    }
    session.advance(Feed::Silent, 1);
    session.handle_key(Key::Tab);
    match session.frame(&Vec::new(), true) {
        Frame::Plot(instructions) => {
            assert_eq!(instructions.len(), 4);
            assert_eq!(instructions[0], dot);
            assert_eq!(instructions[1], dot);
        }
        Frame::Table(_) => panic!("the coverage tab draws a plot"),
    }
    session.handle_key(Key::Tab);
    session.handle_key(Key::Down);
    match session.frame(&Vec::new(), true) {
        Frame::Table(table) => {
            assert_eq!(table.title, "Airplanes(1)");
            assert_eq!(table.rows.len(), 1);
            assert_eq!(table.rows[0][0], "000abc");
            assert_eq!(table.highlighted, Some(0));
        }
        Frame::Plot(_) => panic!("the aircraft tab draws a table"),
    }
}

#[test]
fn feed_event_of_a_judged_read() {
    let answer = || Some((addr(1), Report::Other));
    assert_eq!(feed_of(&LineOutcome::Closed, None), Feed::Closed);
    assert_eq!(feed_of(&LineOutcome::Closed, answer()), Feed::Closed);
    assert_eq!(feed_of(&LineOutcome::Skipped, None), Feed::Silent);
    assert_eq!(feed_of(&LineOutcome::Skipped, answer()), Feed::Silent);
    assert_eq!(feed_of(&LineOutcome::Payload(vec![1]), None), Feed::Silent);
    assert_eq!(
        feed_of(&LineOutcome::Payload(vec![1]), answer()),
        Feed::Report(addr(1), Report::Other)
    );
}

#[test]
fn all_zero_line_updates_no_track() {
    let mut session = Session::new(home(), 1_000);
    session.advance(Feed::Report(addr(1), Report::Other), 10);
    let line = b"*0000000000000000000000000000;\n";
    let outcome = screen_read(Some(line.len()), line);
    assert_eq!(outcome, LineOutcome::Skipped);
    session.advance(feed_of(&outcome, Some((addr(1), Report::Other))), 20);
    session.advance(feed_of(&outcome, Some((addr(2), Report::Other))), 30);
    assert_eq!(session.store().len(), 1);
    let t = session.store().get(addr(1)).unwrap();
    assert_eq!(t.message_count, 1);
    assert_eq!(t.last_seen, 10);
}
