//! One session of the display: the state that the main loop owns and the
//! three steps of each tick that change or read it.
//!
//! Each tick the caller reads the feed and hands over what came of it, draws
//! the frame, then polls the keyboard and hands over the key, if any.

use crate::city::City;
use crate::geo::GeoPoint;
use crate::ingest::all_zero;
use crate::ingest::framed_text;
use crate::ingest::hex_bytes;
use crate::ingest::is_hex_text;
use crate::ingest::judges;
use crate::ingest::payload;
use crate::ingest::LineOutcome;
use crate::render::build_tab_airplanes;
use crate::render::build_tab_coverage;
use crate::render::build_tab_map;
use crate::render::coverage_scene;
use crate::render::map_scene;
use crate::render::marks;
use crate::render::row_text;
use crate::render::table_title;
use crate::render::texts;
use crate::render::AirplaneTable;
use crate::render::DrawInstruction;
use crate::track::applied;
use crate::track::lemma_pruned_exact;
use crate::track::pruned;
use crate::track::resolved_positions;
use crate::track::AircraftAddress;
use crate::track::AircraftTrack;
use crate::track::Report;
use crate::track::ResolvedPosition;
use crate::track::TrackStore;
use crate::view::clamped;
use crate::view::lemma_key_keeps_view_usable;
use crate::view::selection_fits;
use crate::view::Key;
use crate::view::Tab;
use crate::view::ViewState;
use vstd::prelude::*;

verus! {

/// Silence, in milliseconds, after which a track is pruned unless the
/// session is configured otherwise.
pub const DEFAULT_STALENESS_THRESHOLD: u64 = 60_000;

/// Why a session ended.
#[derive(Clone, Copy, Debug, PartialEq, Eq, Structural)]
pub enum QuitReason {
    /// The user pressed the quit key.
    UserRequest,
    /// The feed was closed by the other side.
    FeedClosed,
}

impl QuitReason {
    /// The words shown to the user when the session ends.
    pub open spec fn words(self) -> Seq<char> {
        match self {
            QuitReason::UserRequest => "user requested quit"@,
            QuitReason::FeedClosed => "TCP connection aborted, quitting radar tui"@,
        }
    }

    /// The words shown to the user when the session ends.
    pub fn message(self) -> (text: &'static str)
        ensures
            text@ == self.words(),
    {
        match self {
            QuitReason::UserRequest => "user requested quit",
            QuitReason::FeedClosed => "TCP connection aborted, quitting radar tui",
        }
    }
}

/// What one bounded read of the feed came to.
#[derive(Debug, PartialEq, Eq)]
pub enum Feed {
    /// A read of length zero: the other side closed the connection.
    Closed,
    /// Nothing usable: a timeout, or a line that was skipped or rejected.
    Silent,
    /// An accepted report for one aircraft.
    Report(AircraftAddress, Report),
}

/// What to draw below the tab bar.
#[derive(Debug, PartialEq, Eq)]
pub enum Frame {
    /// The plot of the map tab or of the coverage tab.
    Plot(Vec<DrawInstruction>),
    /// The table of the aircraft tab.
    Table(AirplaneTable),
}

/// The feed event of a judged read: a closed feed, silence for a skipped
/// line, and for a payload what the decoder made of it, which is silence
/// where it made nothing. What the decoder says counts only for a payload.
pub open spec fn feed_for(outcome: LineOutcome, decoded: Option<(AircraftAddress, Report)>) -> Feed {
    match outcome {
        LineOutcome::Closed => Feed::Closed,
        LineOutcome::Skipped => Feed::Silent,
        LineOutcome::Payload(_) => match decoded {
            Some((address, report)) => Feed::Report(address, report),
            None => Feed::Silent,
        },
    }
}

/// The feed event of a judged read and of the decoder's answer for its payload.
pub fn feed_of(outcome: &LineOutcome, decoded: Option<(AircraftAddress, Report)>) -> (feed: Feed)
    ensures
        feed == feed_for(*outcome, decoded),
{
    match outcome {
        LineOutcome::Closed => Feed::Closed,
        LineOutcome::Skipped => Feed::Silent,
        LineOutcome::Payload(_) => match decoded {
            Some((address, report)) => Feed::Report(address, report),
            None => Feed::Silent,
        },
    }
}

/// The tracks after what the feed delivered at time `now` was applied.
pub open spec fn fed(tracks: Seq<AircraftTrack>, feed: Feed, now: u64) -> Seq<AircraftTrack> {
    match feed {
        Feed::Report(address, report) => applied(tracks, address, report, now),
        _ => tracks,
    }
}

/// The points of a list of resolved positions.
pub open spec fn points_of(positions: Seq<ResolvedPosition>) -> Seq<GeoPoint> {
    positions.map_values(
        |p: ResolvedPosition| GeoPoint { latitude: p.latitude, longitude: p.longitude },
    )
}

/// The coverage samples that `tracks` contribute in one tick: the resolved
/// position of each track that has one.
pub open spec fn samples_of(tracks: Seq<AircraftTrack>) -> Seq<GeoPoint> {
    points_of(resolved_positions(tracks))
}

/// The state of one session. The scale is always positive, and the selected
/// row, if any, is always a row of the current table.
pub struct Session {
    store: TrackStore,
    coverage: Vec<GeoPoint>,
    view: ViewState,
    quit: Option<QuitReason>,
    staleness_threshold: u64,
}

impl Session {
    #[verifier::type_invariant]
    spec fn well_formed(self) -> bool {
        &&& self.view.settings.scale > 0
        &&& selection_fits(self.view.selection, self.store@.len())
    }

    /// The tracks, in enumeration order.
    pub closed spec fn tracks(&self) -> Seq<AircraftTrack> {
        self.store@
    }

    /// The coverage samples gathered so far.
    pub closed spec fn samples(&self) -> Seq<GeoPoint> {
        self.coverage@
    }

    /// Tab, settings and selection.
    pub closed spec fn view_state(&self) -> ViewState {
        self.view
    }

    /// Why the session is to end, once it is.
    pub closed spec fn quit(&self) -> Option<QuitReason> {
        self.quit
    }

    /// The silence after which a track is pruned.
    pub closed spec fn threshold(&self) -> u64 {
        self.staleness_threshold
    }

    /// A session at startup: no track, no coverage sample, the initial view
    /// on `home`, no reason to quit.
    pub fn new(home: GeoPoint, staleness_threshold: u64) -> (session: Self)
        ensures
            session.tracks() == Seq::<AircraftTrack>::empty(),
            session.samples() == Seq::<GeoPoint>::empty(),
            session.view_state() == ViewState::initial(home),
            session.quit() == None::<QuitReason>,
            session.threshold() == staleness_threshold,
    {
        Session {
            store: TrackStore::new(),
            coverage: Vec::new(),
            view: ViewState::new(home),
            quit: None,
            staleness_threshold,
        }
    }

    /// The track store.
    pub fn store(&self) -> (store: &TrackStore)
        ensures
            store@ == self.tracks(),
    {
        &self.store
    }

    /// The coverage samples gathered so far.
    pub fn coverage(&self) -> (samples: &Vec<GeoPoint>)
        ensures
            samples@ == self.samples(),
    {
        &self.coverage
    }

    /// Tab, settings and selection. The scale is positive and the selected
    /// row, if any, is a row of the current table.
    pub fn view(&self) -> (view: ViewState)
        ensures
            view == self.view_state(),
            view.settings.scale > 0,
            selection_fits(view.selection, self.tracks().len()),
    {
        proof {
            use_type_invariant(self);
        }
        self.view
    }

    /// Why the session is to end, once it is.
    pub fn quit_reason(&self) -> (reason: Option<QuitReason>)
        ensures
            reason == self.quit(),
    {
        self.quit
    }

    /// The first half of a tick, at time `now`. A closed feed ends the
    /// session and changes nothing else. Otherwise the report, if there is
    /// one, is applied; the resolved positions are added to the coverage
    /// samples; the stale tracks are pruned; and the selection is fitted to
    /// the tracks that are left.
    pub fn advance(&mut self, feed: Feed, now: u64)
        ensures
            final(self).threshold() == old(self).threshold(),
            feed is Closed ==> {
                &&& final(self).quit() == Some(QuitReason::FeedClosed)
                &&& final(self).tracks() == old(self).tracks()
                &&& final(self).samples() == old(self).samples()
                &&& final(self).view_state() == old(self).view_state()
            },
            feed !is Closed ==> {
                &&& final(self).quit() == old(self).quit()
                &&& final(self).tracks() == pruned(
                    fed(old(self).tracks(), feed, now),
                    now,
                    old(self).threshold(),
                )
                &&& final(self).samples() == old(self).samples() + samples_of(
                    fed(old(self).tracks(), feed, now),
                )
                &&& final(self).view_state() == (ViewState {
                    selection: clamped(
                        old(self).view_state().selection,
                        final(self).tracks().len(),
                    ),
                    ..old(self).view_state()
                })
            },
    {
        proof {
            use_type_invariant(&*self);
        }
        let mut taken = Session::new(self.view.home, self.staleness_threshold);
        std::mem::swap(self, &mut taken);
        let Session { mut store, mut coverage, mut view, mut quit, staleness_threshold } = taken;
        match feed {
            Feed::Closed => {
                quit = Some(QuitReason::FeedClosed);
            },
            _ => {
                if let Feed::Report(address, report) = feed {
                    store.apply_report(address, report, now);
                }
                let positions = store.all_resolved_positions();
                let ghost before = coverage@;
                let mut i: usize = 0;
                while i < positions.len()
                    invariant
                        i <= positions@.len(),
                        coverage@ == before + points_of(positions@.subrange(0, i as int)),
                    decreases positions@.len() - i,
                {
                    let p = positions[i];
                    coverage.push(GeoPoint { latitude: p.latitude, longitude: p.longitude });
                    i += 1;
                    assert(positions@.subrange(0, i as int) =~= positions@.subrange(0, i - 1).push(
                        p,
                    ));
                }
                assert(positions@.subrange(0, i as int) =~= positions@);
                store.prune(now, staleness_threshold);
                view.reclamp(store.len());
            },
        }
        *self = Session { store, coverage, view, quit, staleness_threshold };
    }

    /// The frame of the current tab.
    pub fn frame(&self, cities: &Vec<City>, disable_lat_long: bool) -> (frame: Frame)
        ensures
            match self.view_state().tab {
                Tab::MapPlot => frame matches Frame::Plot(instructions) && marks(instructions@)
                    == map_scene(
                    self.view_state().settings,
                    cities@,
                    disable_lat_long,
                    self.tracks(),
                ),
                Tab::Coverage => frame matches Frame::Plot(instructions) && marks(instructions@)
                    == coverage_scene(self.view_state().settings, cities@, self.samples()),
                Tab::Airplanes => frame matches Frame::Table(table) && {
                    &&& table.title@ == table_title(self.tracks().len())
                    &&& table.rows@.len() == self.tracks().len()
                    &&& forall|i: int|
                        0 <= i < self.tracks().len() ==> texts((#[trigger] table.rows@[i])@)
                            == row_text(self.tracks()[i])
                    &&& table.highlighted == self.view_state().selection
                },
            },
    {
        proof {
            use_type_invariant(self);
        }
        match self.view.tab {
            Tab::MapPlot => Frame::Plot(
                build_tab_map(&self.view.settings, cities, disable_lat_long, &self.store),
            ),
            Tab::Coverage => Frame::Plot(
                build_tab_coverage(&self.view.settings, cities, &self.coverage),
            ),
            Tab::Airplanes => Frame::Table(build_tab_airplanes(&self.store, self.view.selection)),
        }
    }

    /// The second half of a tick: applies one key press. The quit key ends
    /// the session; every other key changes the view as the view's
    /// transition says.
    pub fn handle_key(&mut self, key: Key)
        ensures
            final(self).view_state() == old(self).view_state().after_key(key, old(self).tracks()),
            final(self).quit() == if ViewState::is_quit(key) {
                Some(QuitReason::UserRequest)
            } else {
                old(self).quit()
            },
            final(self).tracks() == old(self).tracks(),
            final(self).samples() == old(self).samples(),
            final(self).threshold() == old(self).threshold(),
    {
        proof {
            use_type_invariant(&*self);
            lemma_key_keeps_view_usable(self.view, key, self.store@);
        }
        let mut view = self.view;
        let quit = view.handle_key(key, &self.store);
        self.view = view;
        if quit {
            self.quit = Some(QuitReason::UserRequest);
        }
    }
}

/// A tick without a report updates no track: every track that is left after
/// it was there before, unchanged.
pub proof fn lemma_silence_updates_nothing(
    tracks: Seq<AircraftTrack>,
    feed: Feed,
    now: u64,
    threshold: u64,
)
    requires
        feed is Silent || feed is Closed,
    ensures
        fed(tracks, feed, now) == tracks,
        forall|t: AircraftTrack|
            #[trigger] pruned(fed(tracks, feed, now), now, threshold).contains(t)
                ==> tracks.contains(t),
{
    lemma_pruned_exact(tracks, now, threshold);
}

/// A line whose payload is all zero bytes never becomes a report, whatever
/// the read delivered and whatever the decoder is said to have answered: its
/// feed event leaves every track as it was.
pub proof fn lemma_zero_payload_updates_nothing(
    outcome: LineOutcome,
    length: Option<usize>,
    line: Seq<u8>,
    decoded: Option<(AircraftAddress, Report)>,
    tracks: Seq<AircraftTrack>,
    now: u64,
)
    requires
        judges(outcome, length, line),
        framed_text(line) matches Some(text) && is_hex_text(text) && all_zero(hex_bytes(text)),
    ensures
        feed_for(outcome, decoded) !is Report,
        fed(tracks, feed_for(outcome, decoded), now) == tracks,
{
}

/// More generally, a line without a payload never becomes a report.
pub proof fn lemma_skipped_line_updates_nothing(
    outcome: LineOutcome,
    length: Option<usize>,
    line: Seq<u8>,
    decoded: Option<(AircraftAddress, Report)>,
    tracks: Seq<AircraftTrack>,
    now: u64,
)
    requires
        judges(outcome, length, line),
        payload(line) is None,
    ensures
        feed_for(outcome, decoded) !is Report,
        fed(tracks, feed_for(outcome, decoded), now) == tracks,
{
}

} // verus!
