//! The draw instructions of each tab.

use crate::city::City;
use crate::geo::project;
use crate::geo::projection;
use crate::geo::GeoPoint;
use crate::geo::PlotPoint;
use crate::geo::DISPLAY_RADIUS;
use crate::text::address_text;
use crate::text::aligned;
use crate::text::decimal;
use crate::text::degrees;
use crate::text::format_address;
use crate::text::push_aligned;
use crate::text::push_char;
use crate::text::push_decimal;
use crate::text::push_degrees;
use crate::text::push_signed;
use crate::text::signed_decimal;
use crate::track::AircraftAddress;
use crate::track::AircraftTrack;
use crate::track::ResolvedPosition;
use crate::track::TrackStore;
use crate::view::clamp_selection;
use crate::view::clamped;
use crate::view::ViewSettings;
use vstd::prelude::*;
use vstd::string::StringExecFns;

verus! {

/// Distance, in plot units, from a point to the start of its label.
pub const LABEL_OFFSET: i64 = 3;

/// Colors of the display.
#[derive(Clone, Copy, Debug, PartialEq, Eq, Structural)]
pub enum Color {
    White,
    Green,
}

/// One thing to draw on the plot.
#[derive(Debug, PartialEq, Eq)]
pub enum DrawInstruction {
    /// A dot.
    Points { at: PlotPoint, color: Color },
    /// A straight line.
    Line { from: PlotPoint, to: PlotPoint, color: Color },
    /// Text that starts at a point.
    Text { at: PlotPoint, text: String, color: Color },
}

/// What a draw instruction says, with its text as a sequence of characters.
pub enum Mark {
    Points { at: PlotPoint, color: Color },
    Line { from: PlotPoint, to: PlotPoint, color: Color },
    Text { at: PlotPoint, text: Seq<char>, color: Color },
}

impl View for DrawInstruction {
    type V = Mark;

    open spec fn view(&self) -> Mark {
        match *self {
            DrawInstruction::Points { at, color } => Mark::Points { at, color },
            DrawInstruction::Line { from, to, color } => Mark::Line { from, to, color },
            DrawInstruction::Text { at, text, color } => Mark::Text { at, text: text@, color },
        }
    }
}

/// What a list of draw instructions says.
pub open spec fn marks(instructions: Seq<DrawInstruction>) -> Seq<Mark> {
    instructions.map_values(|d: DrawInstruction| d@)
}

/// The two lines through the origin, from edge to edge of the display.
pub open spec fn crosshair() -> Seq<Mark> {
    seq![
        Mark::Line {
            from: PlotPoint { x: DISPLAY_RADIUS, y: 0 },
            to: PlotPoint { x: (-DISPLAY_RADIUS) as i64, y: 0 },
            color: Color::White,
        },
        Mark::Line {
            from: PlotPoint { x: 0, y: DISPLAY_RADIUS },
            to: PlotPoint { x: 0, y: (-DISPLAY_RADIUS) as i64 },
            color: Color::White,
        },
    ]
}

/// Where the label of a point at `at` starts.
pub open spec fn label_anchor(at: PlotPoint) -> PlotPoint {
    PlotPoint { x: (at.x + LABEL_OFFSET) as i64, y: at.y }
}

/// Where `point` lies on the plot under `settings`.
pub open spec fn plotted(point: GeoPoint, settings: ViewSettings) -> PlotPoint {
    projection(point, settings.center(), settings.scale as int)
}

/// The dot and the label of one city.
pub open spec fn city_mark(city: City, settings: ViewSettings) -> Seq<Mark> {
    let at = plotted(GeoPoint { latitude: city.lat, longitude: city.long }, settings);
    seq![
        Mark::Points { at, color: Color::Green },
        Mark::Text { at: label_anchor(at), text: city.name@, color: Color::Green },
    ]
}

/// The dots and labels of `cities`, city by city.
pub open spec fn city_marks(cities: Seq<City>, settings: ViewSettings) -> Seq<Mark>
    decreases cities.len(),
{
    if cities.len() == 0 {
        Seq::empty()
    } else {
        city_marks(cities.drop_last(), settings) + city_mark(cities.last(), settings)
    }
}

/// The label of an aircraft: its address, followed by its latitude and
/// longitude unless `disable_lat_long` is set.
pub open spec fn aircraft_label(
    address: AircraftAddress,
    position: ResolvedPosition,
    disable_lat_long: bool,
) -> Seq<char> {
    if disable_lat_long {
        address_text(address.code)
    } else {
        address_text(address.code) + seq![' ', '('] + degrees(position.latitude as int) + seq![
            ',',
            ' ',
        ] + degrees(position.longitude as int) + seq![')']
    }
}

/// The dot and the label of one aircraft; nothing while its position is unknown.
pub open spec fn track_mark(
    track: AircraftTrack,
    settings: ViewSettings,
    disable_lat_long: bool,
) -> Seq<Mark> {
    match track.resolved_position {
        Some(position) => {
            let at = plotted(
                GeoPoint { latitude: position.latitude, longitude: position.longitude },
                settings,
            );
            seq![
                Mark::Points { at, color: Color::White },
                Mark::Text {
                    at: label_anchor(at),
                    text: aircraft_label(track.address, position, disable_lat_long),
                    color: Color::White,
                },
            ]
        },
        None => Seq::empty(),
    }
}

/// The dots and labels of `tracks`, track by track.
pub open spec fn track_marks(
    tracks: Seq<AircraftTrack>,
    settings: ViewSettings,
    disable_lat_long: bool,
) -> Seq<Mark>
    decreases tracks.len(),
{
    if tracks.len() == 0 {
        Seq::empty()
    } else {
        track_marks(tracks.drop_last(), settings, disable_lat_long) + track_mark(
            tracks.last(),
            settings,
            disable_lat_long,
        )
    }
}

/// One dot per coverage sample.
pub open spec fn sample_marks(samples: Seq<GeoPoint>, settings: ViewSettings) -> Seq<Mark> {
    samples.map_values(
        |sample: GeoPoint| Mark::Points { at: plotted(sample, settings), color: Color::White },
    )
}

/// The map tab: cities, then aircraft with a known position, then the crosshair.
pub open spec fn map_scene(
    settings: ViewSettings,
    cities: Seq<City>,
    disable_lat_long: bool,
    tracks: Seq<AircraftTrack>,
) -> Seq<Mark> {
    city_marks(cities, settings) + track_marks(tracks, settings, disable_lat_long) + crosshair()
}

/// The coverage tab: cities, then every coverage sample, then the crosshair.
pub open spec fn coverage_scene(
    settings: ViewSettings,
    cities: Seq<City>,
    samples: Seq<GeoPoint>,
) -> Seq<Mark> {
    city_marks(cities, settings) + sample_marks(samples, settings) + crosshair()
}

/// Appends the horizontal and the vertical line through the origin.
pub fn draw_lines(out: &mut Vec<DrawInstruction>)
    ensures
        marks(final(out)@) == marks(old(out)@) + crosshair(),
{
    out.push(
        DrawInstruction::Line {
            from: PlotPoint { x: DISPLAY_RADIUS, y: 0 },
            to: PlotPoint { x: -DISPLAY_RADIUS, y: 0 },
            color: Color::White,
        },
    );
    out.push(
        DrawInstruction::Line {
            from: PlotPoint { x: 0, y: DISPLAY_RADIUS },
            to: PlotPoint { x: 0, y: -DISPLAY_RADIUS },
            color: Color::White,
        },
    );
    assert(marks(out@) =~= marks(old(out)@) + crosshair());
}

/// Appends a dot and a label for each city.
pub fn draw_cities(out: &mut Vec<DrawInstruction>, cities: &Vec<City>, settings: &ViewSettings)
    requires
        settings.scale > 0,
    ensures
        marks(final(out)@) == marks(old(out)@) + city_marks(cities@, *settings),
{
    let center = GeoPoint {
        latitude: settings.center_latitude,
        longitude: settings.center_longitude,
    };
    let mut i: usize = 0;
    assert(cities@.subrange(0, 0) =~= Seq::<City>::empty());
    assert(marks(out@) =~= marks(old(out)@) + city_marks(cities@.subrange(0, 0), *settings));
    while i < cities.len()
        invariant
            i <= cities@.len(),
            settings.scale > 0,
            center == settings.center(),
            marks(out@) == marks(old(out)@) + city_marks(cities@.subrange(0, i as int), *settings),
        decreases cities@.len() - i,
    {
        let ghost before = out@;
        let city = &cities[i];
        let at = project(GeoPoint { latitude: city.lat, longitude: city.long }, center, settings.scale);
        out.push(DrawInstruction::Points { at, color: Color::Green });
        out.push(
            DrawInstruction::Text {
                at: PlotPoint { x: at.x + LABEL_OFFSET, y: at.y },
                text: city.name.clone(),
                color: Color::Green,
            },
        );
        proof {
            assert(cities@.subrange(0, i + 1).drop_last() =~= cities@.subrange(0, i as int));
            assert(cities@.subrange(0, i + 1).last() == cities@[i as int]);
            assert(marks(out@) =~= marks(before) + city_mark(cities@[i as int], *settings));
        }
        i += 1;
    }
    assert(cities@.subrange(0, i as int) =~= cities@);
}

/// The label of an aircraft.
fn label_of(address: AircraftAddress, position: ResolvedPosition, disable_lat_long: bool) -> (text:
    String)
    ensures
        text@ == aircraft_label(address, position, disable_lat_long),
{
    let mut text = format_address(address.code);
    if !disable_lat_long {
        push_char(&mut text, ' ');
        push_char(&mut text, '(');
        push_degrees(&mut text, position.latitude);
        push_char(&mut text, ',');
        push_char(&mut text, ' ');
        push_degrees(&mut text, position.longitude);
        push_char(&mut text, ')');
        assert(text@ =~= aircraft_label(address, position, disable_lat_long));
    }
    text
}

/// The draw instructions of the map tab.
pub fn build_tab_map(
    settings: &ViewSettings,
    cities: &Vec<City>,
    disable_lat_long: bool,
    store: &TrackStore,
) -> (out: Vec<DrawInstruction>)
    requires
        settings.scale > 0,
    ensures
        marks(out@) == map_scene(*settings, cities@, disable_lat_long, store@),
{
    let center = GeoPoint {
        latitude: settings.center_latitude,
        longitude: settings.center_longitude,
    };
    let mut out: Vec<DrawInstruction> = Vec::new();
    draw_cities(&mut out, cities, settings);
    let ghost base = marks(out@);
    assert(base =~= city_marks(cities@, *settings));
    let count = store.len();
    let mut i: usize = 0;
    assert(store@.subrange(0, 0) =~= Seq::<AircraftTrack>::empty());
    assert(marks(out@) =~= base + track_marks(store@.subrange(0, 0), *settings, disable_lat_long));
    while i < count
        invariant
            count == store@.len(),
            i <= count,
            settings.scale > 0,
            center == settings.center(),
            marks(out@) == base + track_marks(
                store@.subrange(0, i as int),
                *settings,
                disable_lat_long,
            ),
        decreases count - i,
    {
        let ghost before = out@;
        proof {
            assert(store@.subrange(0, i + 1).drop_last() =~= store@.subrange(0, i as int));
            assert(store@.subrange(0, i + 1).last() == store@[i as int]);
        }
        if let Some(track) = store.track_at(i) {
            if let Some(position) = track.resolved_position {
                let at = project(
                    GeoPoint { latitude: position.latitude, longitude: position.longitude },
                    center,
                    settings.scale,
                );
                out.push(DrawInstruction::Points { at, color: Color::White });
                out.push(
                    DrawInstruction::Text {
                        at: PlotPoint { x: at.x + LABEL_OFFSET, y: at.y },
                        text: label_of(track.address, position, disable_lat_long),
                        color: Color::White,
                    },
                );
            }
        }
        assert(marks(out@) =~= marks(before) + track_mark(
            store@[i as int],
            *settings,
            disable_lat_long,
        ));
        i += 1;
    }
    assert(store@.subrange(0, i as int) =~= store@);
    draw_lines(&mut out);
    out
}

/// The draw instructions of the coverage tab.
pub fn build_tab_coverage(settings: &ViewSettings, cities: &Vec<City>, samples: &Vec<GeoPoint>) -> (out:
    Vec<DrawInstruction>)
    requires
        settings.scale > 0,
    ensures
        marks(out@) == coverage_scene(*settings, cities@, samples@),
{
    let center = GeoPoint {
        latitude: settings.center_latitude,
        longitude: settings.center_longitude,
    };
    let mut out: Vec<DrawInstruction> = Vec::new();
    draw_cities(&mut out, cities, settings);
    let ghost base = marks(out@);
    assert(base =~= city_marks(cities@, *settings));
    let mut i: usize = 0;
    assert(marks(out@) =~= base + sample_marks(samples@.subrange(0, 0), *settings));
    while i < samples.len()
        invariant
            i <= samples@.len(),
            settings.scale > 0,
            center == settings.center(),
            marks(out@) == base + sample_marks(samples@.subrange(0, i as int), *settings),
        decreases samples@.len() - i,
    {
        let ghost before = out@;
        let at = project(samples[i], center, settings.scale);
        out.push(DrawInstruction::Points { at, color: Color::White });
        proof {
            let head = samples@.subrange(0, i as int);
            let dot = Mark::Points { at: plotted(samples@[i as int], *settings), color: Color::White };
            assert(samples@.subrange(0, i + 1) =~= head.push(samples@[i as int]));
            assert(sample_marks(head.push(samples@[i as int]), *settings) =~= sample_marks(
                head,
                *settings,
            ).push(dot));
            assert(marks(out@) =~= marks(before).push(dot));
        }
        i += 1;
    }
    assert(samples@.subrange(0, i as int) =~= samples@);
    draw_lines(&mut out);
    out
}

/// The title of the tab bar: the center of the view, as `(latitude,longitude)`.
pub open spec fn center_text(settings: ViewSettings) -> Seq<char> {
    seq!['('] + degrees(settings.center_latitude as int) + seq![','] + degrees(
        settings.center_longitude as int,
    ) + seq![')']
}

/// The title of the tab bar.
pub fn center_title(settings: &ViewSettings) -> (text: String)
    ensures
        text@ == center_text(*settings),
{
    let mut text = String::new();
    push_char(&mut text, '(');
    push_degrees(&mut text, settings.center_latitude);
    push_char(&mut text, ',');
    push_degrees(&mut text, settings.center_longitude);
    push_char(&mut text, ')');
    assert(text@ =~= center_text(*settings));
    text
}

/// Width of the altitude column.
pub const ALTITUDE_WIDTH: usize = 8;

/// Width of the vertical-rate column.
pub const VERTICAL_RATE_WIDTH: usize = 6;

/// Width of the speed column.
pub const SPEED_WIDTH: usize = 5;

/// Width of the message-count column.
pub const COUNT_WIDTH: usize = 8;

/// The aircraft table: one row of cells per track, in enumeration order.
#[derive(Debug, PartialEq, Eq)]
pub struct AirplaneTable {
    pub title: String,
    pub rows: Vec<Vec<String>>,
    /// The row to highlight.
    pub highlighted: Option<usize>,
}

/// The characters of each cell of a row.
pub open spec fn texts(cells: Seq<String>) -> Seq<Seq<char>> {
    cells.map_values(|cell: String| cell@)
}

/// The header of the aircraft table.
pub open spec fn header_text() -> Seq<Seq<char>> {
    seq![
        "ICAO"@,
        "Call sign"@,
        "Longitude"@,
        "Latitude"@,
        "Altitude"@,
        "   FPM"@,
        "Speed"@,
        "    Msgs"@,
    ]
}

/// The title of a table of `count` aircraft.
pub open spec fn table_title(count: nat) -> Seq<char> {
    "Airplanes("@ + decimal(count) + seq![')']
}

/// The cells of the row of `track`: address, callsign, longitude, latitude,
/// altitude, vertical rate, speed and message count. What is unknown is blank;
/// numbers other than angles are right-aligned in their columns.
pub open spec fn row_text(track: AircraftTrack) -> Seq<Seq<char>> {
    seq![
        address_text(track.address.code),
        match track.callsign {
            Some(callsign) => callsign@,
            None => Seq::empty(),
        },
        match track.resolved_position {
            Some(position) => degrees(position.longitude as int),
            None => Seq::empty(),
        },
        match track.resolved_position {
            Some(position) => degrees(position.latitude as int),
            None => Seq::empty(),
        },
        aligned(
            match track.resolved_position {
                Some(position) => decimal(position.altitude as nat),
                None => Seq::empty(),
            },
            ALTITUDE_WIDTH as nat,
            ' ',
        ),
        match track.velocity {
            Some(velocity) => aligned(
                signed_decimal(velocity.vertical_rate as int),
                VERTICAL_RATE_WIDTH as nat,
                ' ',
            ),
            None => Seq::empty(),
        },
        match track.velocity {
            Some(velocity) => aligned(decimal(velocity.speed as nat), SPEED_WIDTH as nat, ' '),
            None => Seq::empty(),
        },
        aligned(decimal(track.message_count as nat), COUNT_WIDTH as nat, ' '),
    ]
}

/// Widths of the table's columns, in characters.
pub fn column_widths() -> (widths: Vec<u16>)
    ensures
        widths@ == seq![6u16, 15u16, 15u16, 15u16, 8u16, 6u16, 5u16, 8u16],
{
    let mut widths: Vec<u16> = Vec::new();
    widths.push(6);
    widths.push(15);
    widths.push(15);
    widths.push(15);
    widths.push(8);
    widths.push(6);
    widths.push(5);
    widths.push(8);
    assert(widths@ =~= seq![6u16, 15u16, 15u16, 15u16, 8u16, 6u16, 5u16, 8u16]);
    widths
}

/// The header cells of the aircraft table.
pub fn table_header() -> (cells: Vec<String>)
    ensures
        texts(cells@) == header_text(),
{
    let mut cells: Vec<String> = Vec::new();
    cells.push(String::from_str("ICAO"));
    cells.push(String::from_str("Call sign"));
    cells.push(String::from_str("Longitude"));
    cells.push(String::from_str("Latitude"));
    cells.push(String::from_str("Altitude"));
    cells.push(String::from_str("   FPM"));
    cells.push(String::from_str("Speed"));
    cells.push(String::from_str("    Msgs"));
    assert(texts(cells@) =~= header_text());
    cells
}

/// `plain`, right-aligned with spaces in a column of `width` characters.
fn cell(plain: &String, width: usize) -> (text: String)
    ensures
        text@ == aligned(plain@, width as nat, ' '),
{
    let mut text = String::new();
    push_aligned(&mut text, plain.as_str(), width, ' ');
    text
}

/// The cells of the row of `track`.
fn row_of(track: &AircraftTrack) -> (cells: Vec<String>)
    ensures
        texts(cells@) == row_text(*track),
{
    let mut cells: Vec<String> = Vec::new();
    cells.push(format_address(track.address.code));
    cells.push(
        match &track.callsign {
            Some(callsign) => callsign.clone(),
            None => String::new(),
        },
    );
    let mut longitude = String::new();
    let mut latitude = String::new();
    let mut altitude = String::new();
    if let Some(position) = track.resolved_position {
        push_degrees(&mut longitude, position.longitude);
        push_degrees(&mut latitude, position.latitude);
        push_decimal(&mut altitude, position.altitude as u64);
    }
    cells.push(longitude);
    cells.push(latitude);
    cells.push(cell(&altitude, ALTITUDE_WIDTH));
    let mut vertical_rate = String::new();
    let mut speed = String::new();
    if let Some(velocity) = track.velocity {
        let mut plain = String::new();
        push_signed(&mut plain, velocity.vertical_rate as i64);
        vertical_rate = cell(&plain, VERTICAL_RATE_WIDTH);
        let mut plain = String::new();
        push_decimal(&mut plain, velocity.speed as u64);
        speed = cell(&plain, SPEED_WIDTH);
    }
    cells.push(vertical_rate);
    cells.push(speed);
    let mut count = String::new();
    push_decimal(&mut count, track.message_count);
    cells.push(cell(&count, COUNT_WIDTH));
    assert(texts(cells@) =~= row_text(*track));
    cells
}

/// The aircraft table of the store, with the row selection fitted to it.
pub fn build_tab_airplanes(store: &TrackStore, selection: Option<usize>) -> (table: AirplaneTable)
    ensures
        table.title@ == table_title(store@.len()),
        table.rows@.len() == store@.len(),
        forall|i: int|
            0 <= i < store@.len() ==> texts((#[trigger] table.rows@[i])@) == row_text(store@[i]),
        table.highlighted == clamped(selection, store@.len()),
{
    let count = store.len();
    let mut rows: Vec<Vec<String>> = Vec::new();
    let mut i: usize = 0;
    while i < count
        invariant
            count == store@.len(),
            i <= count,
            rows@.len() == i,
            forall|k: int| 0 <= k < i ==> texts((#[trigger] rows@[k])@) == row_text(store@[k]),
        decreases count - i,
    {
        if let Some(track) = store.track_at(i) {
            rows.push(row_of(track));
        }
        i += 1;
    }
    let mut title = String::from_str("Airplanes(");
    push_decimal(&mut title, count as u64);
    push_char(&mut title, ')');
    AirplaneTable { title, rows, highlighted: clamp_selection(selection, count) }
}

} // verus!
