//! The interactive view: current tab, pan and zoom settings, and the row
//! selection of the aircraft table, with the transition that each key causes.

use crate::geo::GeoPoint;
use crate::track::AircraftTrack;
use crate::track::TrackStore;
use vstd::prelude::*;

verus! {

/// Zoom scale of a fresh or reset view, in microdegrees per display radius.
pub const DEFAULT_SCALE: u32 = 1_200_000;

/// Change of the scale for one zoom key.
pub const ZOOM_STEP: u32 = 100_000;

/// Zooming in stops once the scale is no longer above this floor.
pub const ZOOM_FLOOR: u32 = 200_000;

/// Change of the center's latitude for one pan key, in microdegrees.
pub const PAN_LATITUDE_STEP: i32 = 5_000;

/// Change of the center's longitude for one pan key, in microdegrees.
pub const PAN_LONGITUDE_STEP: i32 = 30_000;

/// The tabs of the display, in cycling order.
#[derive(Clone, Copy, Debug, PartialEq, Eq, Structural)]
pub enum Tab {
    MapPlot,
    Coverage,
    Airplanes,
}

impl Tab {
    /// The tab that follows this one; the last is followed by the first.
    pub open spec fn successor(self) -> Tab {
        match self {
            Tab::MapPlot => Tab::Coverage,
            Tab::Coverage => Tab::Airplanes,
            Tab::Airplanes => Tab::MapPlot,
        }
    }

    /// Position of the tab in the tab bar.
    pub open spec fn ordinal(self) -> int {
        match self {
            Tab::MapPlot => 0,
            Tab::Coverage => 1,
            Tab::Airplanes => 2,
        }
    }

    /// Whether the tab shows the plot.
    pub open spec fn is_plot(self) -> bool {
        self != Tab::Airplanes
    }

    /// The tab that follows this one; the last is followed by the first.
    pub fn next_tab(self) -> (next: Self)
        ensures
            next == self.successor(),
    {
        match self {
            Self::MapPlot => Self::Coverage,
            Self::Coverage => Self::Airplanes,
            Self::Airplanes => Self::MapPlot,
        }
    }

    /// The words of the tab in the tab bar.
    pub open spec fn words(self) -> Seq<char> {
        match self {
            Tab::MapPlot => "Map"@,
            Tab::Coverage => "Coverage"@,
            Tab::Airplanes => "Airplanes"@,
        }
    }

    /// The words of the tab in the tab bar.
    pub fn title(self) -> (text: &'static str)
        ensures
            text@ == self.words(),
    {
        match self {
            Self::MapPlot => "Map",
            Self::Coverage => "Coverage",
            Self::Airplanes => "Airplanes",
        }
    }

    /// Position of the tab in the tab bar.
    pub fn index(self) -> (i: usize)
        ensures
            i == self.ordinal(),
    {
        match self {
            Self::MapPlot => 0,
            Self::Coverage => 1,
            Self::Airplanes => 2,
        }
    }
}

/// Cycling through the tabs returns to the start after three steps, and not before.
pub proof fn lemma_tabs_cycle(tab: Tab)
    ensures
        tab.successor().successor().successor() == tab,
        tab.successor() != tab,
        tab.successor().successor() != tab,
{
}

/// Zoom and center of the plot. A smaller scale is a closer view.
#[derive(Clone, Copy, Debug, PartialEq, Eq, Structural)]
pub struct ViewSettings {
    pub scale: u32,
    pub center_latitude: i32,
    pub center_longitude: i32,
}

impl ViewSettings {
    /// The settings of a fresh or reset view, centered on `home`.
    pub open spec fn home_view(home: GeoPoint) -> ViewSettings {
        ViewSettings {
            scale: DEFAULT_SCALE,
            center_latitude: home.latitude,
            center_longitude: home.longitude,
        }
    }

    /// The center of the view.
    pub open spec fn center(self) -> GeoPoint {
        GeoPoint { latitude: self.center_latitude, longitude: self.center_longitude }
    }
}

/// A key press, without modifiers.
#[derive(Clone, Copy, Debug, PartialEq, Eq, Structural)]
pub enum Key {
    /// A function key, by its number.
    Function(u8),
    Tab,
    Char(char),
    Up,
    Down,
    Left,
    Right,
    Enter,
    /// Any key without a meaning here.
    Other,
}

/// `value + step`, held within the range of `i32`.
pub open spec fn shifted(value: i32, step: int) -> i32 {
    if value + step > i32::MAX {
        i32::MAX
    } else if value + step < i32::MIN {
        i32::MIN
    } else {
        (value + step) as i32
    }
}

/// The scale after one step of zooming out, held within the range of `u32`.
pub open spec fn zoomed_out(scale: u32) -> u32 {
    if scale + ZOOM_STEP > u32::MAX {
        u32::MAX
    } else {
        (scale + ZOOM_STEP) as u32
    }
}

/// The scale after one step of zooming in: unchanged once at or below the floor.
pub open spec fn zoomed_in(scale: u32) -> u32 {
    if scale > ZOOM_FLOOR {
        (scale - ZOOM_STEP) as u32
    } else {
        scale
    }
}

/// A row selection made to fit a table of `count` rows: an index past the
/// end moves to the last row, and no row can be selected in an empty table.
pub open spec fn clamped(selection: Option<usize>, count: nat) -> Option<usize> {
    match selection {
        Some(row) => if count == 0 {
            None
        } else if row >= count {
            Some((count - 1) as usize)
        } else {
            Some(row)
        },
        None => None,
    }
}

/// The selection after moving up one row in a table of `count` rows.
pub open spec fn moved_up(selection: Option<usize>, count: nat) -> Option<usize> {
    match clamped(selection, count) {
        Some(row) => if row > 0 {
            Some((row - 1) as usize)
        } else {
            Some(row)
        },
        None => if count > 0 {
            Some(0)
        } else {
            None
        },
    }
}

/// The selection after moving down one row in a table of `count` rows.
pub open spec fn moved_down(selection: Option<usize>, count: nat) -> Option<usize> {
    match clamped(selection, count) {
        Some(row) => if row + 1 < count {
            Some((row + 1) as usize)
        } else {
            Some(row)
        },
        None => if count > 0 {
            Some(0)
        } else {
            None
        },
    }
}

/// Whether `selection` is unset or a row of a table of `count` rows.
pub open spec fn selection_fits(selection: Option<usize>, count: nat) -> bool {
    selection matches Some(row) ==> row < count
}

/// Fits a row selection to a table of `count` rows.
pub fn clamp_selection(selection: Option<usize>, count: usize) -> (r: Option<usize>)
    ensures
        r == clamped(selection, count as nat),
        selection_fits(r, count as nat),
{
    match selection {
        Some(row) => if count == 0 {
            None
        } else if row >= count {
            Some(count - 1)
        } else {
            Some(row)
        },
        None => None,
    }
}

/// When the table shrinks to `count` rows, a selection at or past `count`
/// moves to the last row, or is cleared if no row is left; a selection that
/// still fits stays.
pub proof fn lemma_clamped_after_shrink(row: usize, count: nat)
    ensures
        row >= count && count > 0 ==> clamped(Some(row), count) == Some((count - 1) as usize),
        count == 0 ==> clamped(Some(row), count) == None::<usize>,
        row < count ==> clamped(Some(row), count) == Some(row),
        selection_fits(clamped(Some(row), count), count),
{
}

/// Tab, settings and row selection, with the configured home position that
/// a reset returns to.
#[derive(Clone, Copy, Debug, PartialEq, Eq, Structural)]
pub struct ViewState {
    pub tab: Tab,
    pub settings: ViewSettings,
    pub selection: Option<usize>,
    pub home: GeoPoint,
}

impl ViewState {
    /// The view at startup: the map, centered on `home` at the default
    /// scale, with no row selected.
    pub open spec fn initial(home: GeoPoint) -> ViewState {
        ViewState { tab: Tab::MapPlot, settings: ViewSettings::home_view(home), selection: None, home }
    }

    /// The view after `key` on a plot tab.
    pub open spec fn after_plot_key(self, key: Key) -> ViewState {
        let s = self.settings;
        match key {
            Key::Char('-') => ViewState {
                settings: ViewSettings { scale: zoomed_out(s.scale), ..s },
                ..self
            },
            Key::Char('+') => ViewState {
                settings: ViewSettings { scale: zoomed_in(s.scale), ..s },
                ..self
            },
            Key::Up => ViewState {
                settings: ViewSettings {
                    center_latitude: shifted(s.center_latitude, PAN_LATITUDE_STEP as int),
                    ..s
                },
                ..self
            },
            Key::Down => ViewState {
                settings: ViewSettings {
                    center_latitude: shifted(s.center_latitude, -PAN_LATITUDE_STEP),
                    ..s
                },
                ..self
            },
            Key::Left => ViewState {
                settings: ViewSettings {
                    center_longitude: shifted(s.center_longitude, -PAN_LONGITUDE_STEP),
                    ..s
                },
                ..self
            },
            Key::Right => ViewState {
                settings: ViewSettings {
                    center_longitude: shifted(s.center_longitude, PAN_LONGITUDE_STEP as int),
                    ..s
                },
                ..self
            },
            Key::Enter => ViewState { settings: ViewSettings::home_view(self.home), ..self },
            _ => self,
        }
    }

    /// The view after confirming the selected row of the table of `tracks`:
    /// a jump to the map, centered on the selected aircraft, if its position
    /// is known.
    pub open spec fn after_confirm(self, tracks: Seq<AircraftTrack>) -> ViewState {
        let selection = clamped(self.selection, tracks.len());
        match selection {
            Some(row) => match tracks[row as int].resolved_position {
                Some(position) => ViewState {
                    tab: Tab::MapPlot,
                    settings: ViewSettings {
                        center_latitude: position.latitude,
                        center_longitude: position.longitude,
                        ..self.settings
                    },
                    selection,
                    ..self
                },
                None => ViewState { selection, ..self },
            },
            None => ViewState { selection, ..self },
        }
    }

    /// The view after `key` on the table of `tracks`.
    pub open spec fn after_table_key(self, key: Key, tracks: Seq<AircraftTrack>) -> ViewState {
        match key {
            Key::Up => ViewState { selection: moved_up(self.selection, tracks.len()), ..self },
            Key::Down => ViewState { selection: moved_down(self.selection, tracks.len()), ..self },
            Key::Enter => self.after_confirm(tracks),
            _ => self,
        }
    }

    /// The view after `key`, with `tracks` in the store.
    pub open spec fn after_key(self, key: Key, tracks: Seq<AircraftTrack>) -> ViewState {
        match key {
            Key::Function(1) => ViewState { tab: Tab::MapPlot, ..self },
            Key::Function(2) => ViewState { tab: Tab::Coverage, ..self },
            Key::Function(3) => ViewState { tab: Tab::Airplanes, ..self },
            Key::Tab => ViewState { tab: self.tab.successor(), ..self },
            Key::Char('q') => self,
            _ => if self.tab.is_plot() {
                self.after_plot_key(key)
            } else {
                self.after_table_key(key, tracks)
            },
        }
    }

    /// Whether `key` asks to end the session.
    pub open spec fn is_quit(key: Key) -> bool {
        key == Key::Char('q')
    }

    /// The view at startup.
    pub fn new(home: GeoPoint) -> (view: Self)
        ensures
            view == Self::initial(home),
    {
        ViewState {
            tab: Tab::MapPlot,
            settings: ViewSettings {
                scale: DEFAULT_SCALE,
                center_latitude: home.latitude,
                center_longitude: home.longitude,
            },
            selection: None,
            home,
        }
    }

    /// Fits the row selection to the current number of tracks.
    pub fn reclamp(&mut self, count: usize)
        ensures
            *final(self) == (ViewState {
                selection: clamped(old(self).selection, count as nat),
                ..*old(self)
            }),
            selection_fits(final(self).selection, count as nat),
    {
        self.selection = clamp_selection(self.selection, count);
    }

    /// Applies one key press and tells whether it asks to end the session.
    pub fn handle_key(&mut self, key: Key, store: &TrackStore) -> (quit: bool)
        ensures
            *final(self) == old(self).after_key(key, store@),
            quit == Self::is_quit(key),
    {
        match key {
            Key::Function(1) => {
                self.tab = Tab::MapPlot;
                false
            },
            Key::Function(2) => {
                self.tab = Tab::Coverage;
                false
            },
            Key::Function(3) => {
                self.tab = Tab::Airplanes;
                false
            },
            Key::Tab => {
                self.tab = self.tab.next_tab();
                false
            },
            Key::Char('q') => true,
            _ => {
                match self.tab {
                    Tab::Airplanes => self.handle_table_key(key, store),
                    _ => self.handle_plot_key(key),
                }
                false
            },
        }
    }

    /// Applies a key press on a plot tab.
    fn handle_plot_key(&mut self, key: Key)
        ensures
            *final(self) == old(self).after_plot_key(key),
    {
        match key {
            Key::Char('-') => {
                self.settings.scale = self.settings.scale.saturating_add(ZOOM_STEP);
            },
            Key::Char('+') => {
                if self.settings.scale > ZOOM_FLOOR {
                    self.settings.scale -= ZOOM_STEP;
                }
            },
            Key::Up => {
                self.settings.center_latitude = shift(
                    self.settings.center_latitude,
                    PAN_LATITUDE_STEP,
                );
            },
            Key::Down => {
                self.settings.center_latitude = shift(
                    self.settings.center_latitude,
                    -PAN_LATITUDE_STEP,
                );
            },
            Key::Left => {
                self.settings.center_longitude = shift(
                    self.settings.center_longitude,
                    -PAN_LONGITUDE_STEP,
                );
            },
            Key::Right => {
                self.settings.center_longitude = shift(
                    self.settings.center_longitude,
                    PAN_LONGITUDE_STEP,
                );
            },
            Key::Enter => {
                self.settings = ViewSettings {
                    scale: DEFAULT_SCALE,
                    center_latitude: self.home.latitude,
                    center_longitude: self.home.longitude,
                };
            },
            _ => {},
        }
    }

    /// Applies a key press on the table tab.
    fn handle_table_key(&mut self, key: Key, store: &TrackStore)
        ensures
            *final(self) == old(self).after_table_key(key, store@),
    {
        let count = store.len();
        match key {
            Key::Up => {
                self.selection = match clamp_selection(self.selection, count) {
                    Some(row) => if row > 0 {
                        Some(row - 1)
                    } else {
                        Some(row)
                    },
                    None => if count > 0 {
                        Some(0)
                    } else {
                        None
                    },
                };
            },
            Key::Down => {
                self.selection = match clamp_selection(self.selection, count) {
                    Some(row) => if row + 1 < count {
                        Some(row + 1)
                    } else {
                        Some(row)
                    },
                    None => if count > 0 {
                        Some(0)
                    } else {
                        None
                    },
                };
            },
            Key::Enter => {
                self.selection = clamp_selection(self.selection, count);
                if let Some(row) = self.selection {
                    if let Some(track) = store.track_at(row) {
                        if let Some(position) = track.resolved_position {
                            self.settings.center_latitude = position.latitude;
                            self.settings.center_longitude = position.longitude;
                            self.tab = Tab::MapPlot;
                        }
                    }
                }
            },
            _ => {},
        }
    }
}

/// `value + step`, held within the range of `i32`.
fn shift(value: i32, step: i32) -> (r: i32)
    ensures
        r == shifted(value, step as int),
{
    let sum: i64 = value as i64 + step as i64;
    if sum > i32::MAX as i64 {
        i32::MAX
    } else if sum < i32::MIN as i64 {
        i32::MIN
    } else {
        sum as i32
    }
}

/// No key takes the scale to zero, and on the table tab every key leaves a
/// selection that is unset or a row of the table.
pub proof fn lemma_key_keeps_view_usable(view: ViewState, key: Key, tracks: Seq<AircraftTrack>)
    requires
        view.settings.scale > 0,
    ensures
        view.after_key(key, tracks).settings.scale > 0,
        selection_fits(view.selection, tracks.len()) ==> selection_fits(
            view.after_key(key, tracks).selection,
            tracks.len(),
        ),
{
}

/// Confirming a row whose aircraft has no resolved position changes neither
/// the tab nor the settings.
pub proof fn lemma_confirm_without_position(view: ViewState, tracks: Seq<AircraftTrack>, row: usize)
    requires
        view.tab == Tab::Airplanes,
        view.selection == Some(row),
        row < tracks.len(),
        tracks[row as int].resolved_position is None,
    ensures
        view.after_key(Key::Enter, tracks) == view,
{
}

/// Confirming a row whose aircraft has a resolved position opens the map,
/// centered on that position, at the scale the view had; the row is the
/// one at the selected index of the same enumeration that the table shows.
pub proof fn lemma_confirm_with_position(view: ViewState, tracks: Seq<AircraftTrack>, row: usize)
    requires
        view.tab == Tab::Airplanes,
        view.selection == Some(row),
        row < tracks.len(),
        tracks[row as int].resolved_position is Some,
    ensures
        view.after_key(Key::Enter, tracks) == (ViewState {
            tab: Tab::MapPlot,
            settings: ViewSettings {
                center_latitude: tracks[row as int].resolved_position->0.latitude,
                center_longitude: tracks[row as int].resolved_position->0.longitude,
                ..view.settings
            },
            ..view
        }),
{
}

} // verus!
