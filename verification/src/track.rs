//! The store of known aircraft tracks, keyed by address and kept in the order
//! in which the aircraft were first heard.

use vstd::prelude::*;

verus! {

/// Unique identifier of an aircraft.
#[derive(Clone, Copy, Debug, PartialEq, Eq, Structural)]
pub struct AircraftAddress {
    pub code: u32,
}

impl AircraftAddress {
    /// The address whose three bytes, the highest first, are `bytes`.
    pub fn from_bytes(bytes: [u8; 3]) -> (address: Self)
        ensures
            address.code == bytes[0] * 0x1_0000 + bytes[1] * 0x100 + bytes[2],
    {
        AircraftAddress {
            code: (bytes[0] as u32) * 0x1_0000 + (bytes[1] as u32) * 0x100 + (bytes[2] as u32),
        }
    }
}

/// Speed over ground in knots and vertical rate in feet per minute.
#[derive(Clone, Copy, Debug, PartialEq, Eq, Structural)]
pub struct Velocity {
    pub speed: u32,
    pub vertical_rate: i32,
}

/// A resolved position: microdegrees of latitude and longitude, feet of altitude.
#[derive(Clone, Copy, Debug, PartialEq, Eq, Structural)]
pub struct ResolvedPosition {
    pub latitude: i32,
    pub longitude: i32,
    pub altitude: u32,
}

/// A raw position frame: the compact encoding of a latitude and a longitude
/// in one of two formats. One frame of each format is needed to resolve a
/// position.
#[derive(Clone, Copy, Debug, PartialEq, Eq, Structural)]
pub struct PositionFrame {
    /// Whether the frame is in the odd format; else it is in the even one.
    pub odd: bool,
    pub lat_cpr: u32,
    pub lon_cpr: u32,
}

/// What is known of one aircraft.
#[derive(Debug, PartialEq, Eq)]
pub struct AircraftTrack {
    pub address: AircraftAddress,
    pub message_count: u64,
    pub callsign: Option<String>,
    pub velocity: Option<Velocity>,
    /// The latest position frame in the even format.
    pub even_frame: Option<PositionFrame>,
    /// The latest position frame in the odd format.
    pub odd_frame: Option<PositionFrame>,
    pub resolved_position: Option<ResolvedPosition>,
    pub last_seen: u64,
}

/// What one accepted report says of its aircraft.
#[derive(Debug, PartialEq, Eq)]
pub enum Report {
    /// The aircraft's callsign.
    Identification(String),
    /// The aircraft's velocity.
    Velocity(Velocity),
    /// A raw position frame, with the position that it resolved to together
    /// with the aircraft's latest frame of the other format, if it did.
    Position { frame: PositionFrame, resolved: Option<ResolvedPosition> },
    /// Any other usable message: it only counts.
    Other,
}

impl AircraftTrack {
    /// The track of an aircraft of which nothing has been heard yet.
    pub open spec fn blank(address: AircraftAddress) -> AircraftTrack {
        AircraftTrack {
            address,
            message_count: 0,
            callsign: None,
            velocity: None,
            even_frame: None,
            odd_frame: None,
            resolved_position: None,
            last_seen: 0,
        }
    }

    /// This track with `frame` as the latest frame of its format.
    pub open spec fn with_frame(self, frame: PositionFrame) -> AircraftTrack {
        if frame.odd {
            AircraftTrack { odd_frame: Some(frame), ..self }
        } else {
            AircraftTrack { even_frame: Some(frame), ..self }
        }
    }

    /// This track with `resolved` as its position, if there is one; a
    /// position that is known stays otherwise.
    pub open spec fn with_resolution(self, resolved: Option<ResolvedPosition>) -> AircraftTrack {
        match resolved {
            Some(position) => AircraftTrack { resolved_position: Some(position), ..self },
            None => self,
        }
    }

    /// The latest frame of the format that a frame of format `odd` pairs with.
    pub open spec fn counterpart(self, odd: bool) -> Option<PositionFrame> {
        if odd {
            self.even_frame
        } else {
            self.odd_frame
        }
    }

    /// This track after one more accepted report at time `now`. The counter
    /// stops at the largest value it can hold.
    pub open spec fn reported(self, now: u64) -> AircraftTrack {
        AircraftTrack {
            message_count: if self.message_count < u64::MAX {
                (self.message_count + 1) as u64
            } else {
                u64::MAX
            },
            last_seen: now,
            ..self
        }
    }

    /// This track after the accepted `report` at time `now`.
    pub open spec fn after(self, report: Report, now: u64) -> AircraftTrack {
        match report {
            Report::Identification(callsign) => AircraftTrack {
                callsign: Some(callsign),
                ..self.reported(now)
            },
            Report::Velocity(velocity) => AircraftTrack {
                velocity: Some(velocity),
                ..self.reported(now)
            },
            Report::Position { frame, resolved } => self.reported(now).with_frame(
                frame,
            ).with_resolution(resolved),
            Report::Other => self.reported(now),
        }
    }

    /// Whether the track has been silent for longer than `threshold` at time `now`.
    pub open spec fn stale(self, now: u64, threshold: u64) -> bool {
        now - self.last_seen > threshold
    }
}

/// Every report keeps the address of its track, stamps it with the time of
/// the report, and never lowers its message count: it raises it by one
/// until the counter is full.
pub proof fn lemma_report_counts_up(track: AircraftTrack, report: Report, now: u64)
    ensures
        track.after(report, now).address == track.address,
        track.after(report, now).last_seen == now,
        track.after(report, now).message_count >= track.message_count,
        track.message_count < u64::MAX ==> track.after(report, now).message_count
            == track.message_count + 1,
{
}

/// Whether some track in `tracks` belongs to `address`.
pub open spec fn holds(tracks: Seq<AircraftTrack>, address: AircraftAddress) -> bool {
    exists|i: int| 0 <= i < tracks.len() && (#[trigger] tracks[i]).address == address
}

/// No two tracks in `tracks` belong to the same address.
pub open spec fn distinct_addresses(tracks: Seq<AircraftTrack>) -> bool {
    forall|i: int, j: int|
        0 <= i < j < tracks.len() ==> (#[trigger] tracks[i]).address != (#[trigger] tracks[j]).address
}

/// `tracks`, with a blank track for `address` appended unless one is there.
pub open spec fn with_track(tracks: Seq<AircraftTrack>, address: AircraftAddress) -> Seq<
    AircraftTrack,
> {
    if holds(tracks, address) {
        tracks
    } else {
        tracks.push(AircraftTrack::blank(address))
    }
}

/// `tracks` after `change` was applied to the track of `address`, which is
/// created if absent.
pub open spec fn amended(
    tracks: Seq<AircraftTrack>,
    address: AircraftAddress,
    change: spec_fn(AircraftTrack) -> AircraftTrack,
) -> Seq<AircraftTrack> {
    with_track(tracks, address).map_values(
        |t: AircraftTrack|
            if t.address == address {
                change(t)
            } else {
                t
            },
    )
}

/// `tracks` after `report` for `address` was applied at time `now`.
pub open spec fn applied(
    tracks: Seq<AircraftTrack>,
    address: AircraftAddress,
    report: Report,
    now: u64,
) -> Seq<AircraftTrack> {
    amended(tracks, address, |t: AircraftTrack| t.after(report, now))
}

/// Index of the track of `address`, if there is one.
fn find(tracks: &Vec<AircraftTrack>, address: AircraftAddress) -> (r: Option<usize>)
    ensures
        match r {
            Some(i) => i < tracks@.len() && tracks@[i as int].address == address,
            None => !holds(tracks@, address),
        },
{
    let mut i: usize = 0;
    while i < tracks.len()
        invariant
            i <= tracks@.len(),
            forall|j: int| 0 <= j < i ==> (#[trigger] tracks@[j]).address != address,
        decreases tracks@.len() - i,
    {
        if tracks[i].address == address {
            return Some(i);
        }
        i += 1;
    }
    None
}

/// Counts one report for `address` at time `now` and returns the index of its track.
fn touch(tracks: &mut Vec<AircraftTrack>, address: AircraftAddress, now: u64) -> (i: usize)
    requires
        distinct_addresses(old(tracks)@),
    ensures
        distinct_addresses(final(tracks)@),
        final(tracks)@ == applied(old(tracks)@, address, Report::Other, now),
        i < final(tracks)@.len(),
        final(tracks)@[i as int].address == address,
{
    let i = match find(tracks, address) {
        Some(i) => i,
        None => {
            tracks.push(
                AircraftTrack {
                    address,
                    message_count: 0,
                    callsign: None,
                    velocity: None,
                    even_frame: None,
                    odd_frame: None,
                    resolved_position: None,
                    last_seen: 0,
                },
            );
            tracks.len() - 1
        },
    };
    assert(tracks@ == with_track(old(tracks)@, address));
    let ghost before = tracks@;
    let count = tracks[i].message_count;
    tracks[i].message_count = if count < u64::MAX { count + 1 } else { u64::MAX };
    tracks[i].last_seen = now;
    assert(tracks@[i as int] == before[i as int].reported(now));
    assert(tracks@ =~= applied(old(tracks)@, address, Report::Other, now));
    i
}

/// The track of `address` in `tracks`, if there is one.
pub open spec fn track_of(tracks: Seq<AircraftTrack>, address: AircraftAddress) -> Option<
    AircraftTrack,
> {
    if holds(tracks, address) {
        Some(
            tracks[choose|i: int| 0 <= i < tracks.len() && (#[trigger] tracks[i]).address == address],
        )
    } else {
        None
    }
}

/// The latest resolved position of `address` in `tracks`, if any.
pub open spec fn position_of(tracks: Seq<AircraftTrack>, address: AircraftAddress) -> Option<
    ResolvedPosition,
> {
    match track_of(tracks, address) {
        Some(t) => t.resolved_position,
        None => None,
    }
}

/// The resolved positions in `tracks`, in the order of the tracks.
pub open spec fn resolved_positions(tracks: Seq<AircraftTrack>) -> Seq<ResolvedPosition> {
    tracks.filter(|t: AircraftTrack| t.resolved_position is Some).map_values(
        |t: AircraftTrack| t.resolved_position->0,
    )
}

/// The tracks of `tracks` that are not stale at time `now`, in their order.
pub open spec fn pruned(tracks: Seq<AircraftTrack>, now: u64, threshold: u64) -> Seq<
    AircraftTrack,
> {
    tracks.filter(|t: AircraftTrack| !t.stale(now, threshold))
}

/// In a sequence of distinct addresses, the track of an address is the one
/// found at any index that carries it.
pub proof fn lemma_track_of_index(tracks: Seq<AircraftTrack>, i: int)
    requires
        distinct_addresses(tracks),
        0 <= i < tracks.len(),
    ensures
        track_of(tracks, tracks[i].address) == Some(tracks[i]),
{
    let address = tracks[i].address;
    let j = choose|j: int| 0 <= j < tracks.len() && (#[trigger] tracks[j]).address == address;
    if j < i {
        assert(tracks[j].address != tracks[i].address);
    } else if i < j {
        assert(tracks[i].address != tracks[j].address);
    }
}

/// `tracks` after each of `reports` for `address`, paired with the time of
/// its arrival, was applied in order.
pub open spec fn after_reports(
    tracks: Seq<AircraftTrack>,
    address: AircraftAddress,
    reports: Seq<(Report, u64)>,
) -> Seq<AircraftTrack>
    decreases reports.len(),
{
    if reports.len() == 0 {
        tracks
    } else {
        applied(
            after_reports(tracks, address, reports.drop_last()),
            address,
            reports.last().0,
            reports.last().1,
        )
    }
}

/// The track that a report for `address` starts from: the stored one, or a
/// blank one.
pub open spec fn track_or_blank(tracks: Seq<AircraftTrack>, address: AircraftAddress) -> AircraftTrack {
    match track_of(tracks, address) {
        Some(t) => t,
        None => AircraftTrack::blank(address),
    }
}

/// Amending the track of one address changes that track as `change` says,
/// creates it if it was absent, and leaves every other address as it was.
pub proof fn lemma_amended(
    tracks: Seq<AircraftTrack>,
    address: AircraftAddress,
    change: spec_fn(AircraftTrack) -> AircraftTrack,
)
    requires
        distinct_addresses(tracks),
        forall|t: AircraftTrack| (#[trigger] change(t)).address == t.address,
    ensures
        distinct_addresses(amended(tracks, address, change)),
        track_of(amended(tracks, address, change), address) == Some(
            change(track_or_blank(tracks, address)),
        ),
        forall|other: AircraftAddress|
            other != address ==> #[trigger] track_of(amended(tracks, address, change), other)
                == track_of(tracks, other),
{
    let base = with_track(tracks, address);
    let out = amended(tracks, address, change);
    assert(out.len() == base.len());
    assert forall|i: int| 0 <= i < out.len() implies (#[trigger] out[i]).address
        == base[i].address by {}
    assert(distinct_addresses(base));
    assert(distinct_addresses(out)) by {
        assert forall|i: int, j: int| 0 <= i < j < out.len() implies (#[trigger] out[i]).address != (
        #[trigger] out[j]).address by {
            assert(base[i].address != base[j].address);
        }
    }
    let k = if holds(tracks, address) {
        choose|i: int| 0 <= i < tracks.len() && (#[trigger] tracks[i]).address == address
    } else {
        tracks.len() as int
    };
    assert(base[k].address == address);
    assert(out[k] == change(base[k]));
    lemma_track_of_index(out, k);
    assert forall|other: AircraftAddress| other != address implies #[trigger] track_of(
        out,
        other,
    ) == track_of(tracks, other) by {
        if holds(tracks, other) {
            let j = choose|j: int| 0 <= j < tracks.len() && (#[trigger] tracks[j]).address == other;
            assert(out[j] == tracks[j]);
            lemma_track_of_index(out, j);
        } else {
            if holds(out, other) {
                let j = choose|j: int| 0 <= j < out.len() && (#[trigger] out[j]).address == other;
                assert(base[j].address == other);
                if j < tracks.len() {
                    assert(tracks[j].address == other);
                }
            }
        }
    }
}

/// Applying a report changes the track of its aircraft as the report says,
/// starting from a blank track if there was none, and leaves every other
/// aircraft as it was.
pub proof fn lemma_applied(
    tracks: Seq<AircraftTrack>,
    address: AircraftAddress,
    report: Report,
    now: u64,
)
    requires
        distinct_addresses(tracks),
    ensures
        distinct_addresses(applied(tracks, address, report, now)),
        track_of(applied(tracks, address, report, now), address) == Some(
            track_or_blank(tracks, address).after(report, now),
        ),
        track_or_blank(tracks, address).address == address,
        forall|other: AircraftAddress|
            other != address ==> #[trigger] track_of(applied(tracks, address, report, now), other)
                == track_of(tracks, other),
{
    if holds(tracks, address) {
        let k = choose|i: int| 0 <= i < tracks.len() && (#[trigger] tracks[i]).address == address;
        assert(track_or_blank(tracks, address).address == address);
    }
    lemma_amended(tracks, address, |t: AircraftTrack| t.after(report, now));
}

/// No report takes a resolved position away: an aircraft whose position is
/// known keeps a known position, whatever is applied and for whichever
/// aircraft.
pub proof fn lemma_position_stays_known(
    tracks: Seq<AircraftTrack>,
    known: AircraftAddress,
    address: AircraftAddress,
    report: Report,
    now: u64,
)
    requires
        distinct_addresses(tracks),
        position_of(tracks, known) is Some,
    ensures
        position_of(applied(tracks, address, report, now), known) is Some,
        !(address == known && report matches Report::Position { resolved: Some(_), .. })
            ==> position_of(applied(tracks, address, report, now), known) == position_of(
            tracks,
            known,
        ),
{
    lemma_applied(tracks, address, report, now);
}

/// After any run of accepted reports for one aircraft, its message count has
/// grown by the number of reports (up to the counter's limit) and its time
/// of last contact is that of the latest report.
pub proof fn lemma_reports_counted(
    tracks: Seq<AircraftTrack>,
    address: AircraftAddress,
    reports: Seq<(Report, u64)>,
)
    requires
        distinct_addresses(tracks),
        reports.len() > 0,
    ensures
        distinct_addresses(after_reports(tracks, address, reports)),
        track_of(after_reports(tracks, address, reports), address) matches Some(t) && {
            &&& t.message_count == if track_or_blank(tracks, address).message_count
                + reports.len() <= u64::MAX {
                track_or_blank(tracks, address).message_count + reports.len()
            } else {
                u64::MAX as int
            }
            &&& t.last_seen == reports.last().1
        },
    decreases reports.len(),
{
    let earlier = reports.drop_last();
    let before = after_reports(tracks, address, earlier);
    if earlier.len() == 0 {
        assert(before == tracks);
    } else {
        lemma_reports_counted(tracks, address, earlier);
    }
    lemma_applied(before, address, reports.last().0, reports.last().1);
}

/// Pruning keeps exactly the tracks whose silence does not exceed the threshold.
pub proof fn lemma_pruned_exact(tracks: Seq<AircraftTrack>, now: u64, threshold: u64)
    ensures
        forall|t: AircraftTrack|
            #[trigger] pruned(tracks, now, threshold).contains(t) <==> tracks.contains(t) && now
                - t.last_seen <= threshold,
{
    let fresh = |t: AircraftTrack| !t.stale(now, threshold);
    let kept = pruned(tracks, now, threshold);
    assert forall|t: AircraftTrack| #[trigger] kept.contains(t) <==> tracks.contains(t) && now
        - t.last_seen <= threshold by {
        if kept.contains(t) {
            let i = choose|i: int| 0 <= i < kept.len() && kept[i] == t;
            tracks.lemma_filter_pred(fresh, i);
            tracks.lemma_filter_contains_rev(fresh, t);
        }
        if tracks.contains(t) && now - t.last_seen <= threshold {
            let i = choose|i: int| 0 <= i < tracks.len() && tracks[i] == t;
            tracks.lemma_filter_contains(fresh, i);
        }
    }
}

/// Removes the tracks that are stale at time `now`.
fn drop_stale(tracks: &mut Vec<AircraftTrack>, now: u64, threshold: u64)
    requires
        distinct_addresses(old(tracks)@),
    ensures
        distinct_addresses(final(tracks)@),
        final(tracks)@ == pruned(old(tracks)@, now, threshold),
{
    let ghost fresh = |t: AircraftTrack| !t.stale(now, threshold);
    let ghost all = tracks@;
    let ghost mut seen: int = 0;
    let mut i: usize = 0;
    proof {
        reveal(Seq::filter);
        assert(all.subrange(0, 0) =~= Seq::<AircraftTrack>::empty());
    }
    while i < tracks.len()
        invariant
            all == old(tracks)@,
            fresh == |t: AircraftTrack| !t.stale(now, threshold),
            0 <= seen <= all.len(),
            i == all.subrange(0, seen).filter(fresh).len(),
            tracks@ == all.subrange(0, seen).filter(fresh) + all.subrange(seen, all.len() as int),
            distinct_addresses(tracks@),
        decreases all.len() - seen,
    {
        let ghost before = tracks@;
        let ghost head = all.subrange(0, seen).filter(fresh);
        assert(seen < all.len());
        assert(before[i as int] == all[seen]);
        proof {
            assert(all.subrange(0, seen + 1) =~= all.subrange(0, seen).push(all[seen]));
            all.subrange(0, seen).lemma_filter_push(all[seen], fresh);
        }
        let last_seen = tracks[i].last_seen;
        if now > last_seen && now - last_seen > threshold {
            tracks.remove(i);
            assert(tracks@ =~= head + all.subrange(seen + 1, all.len() as int));
            assert(distinct_addresses(tracks@)) by {
                assert forall|a: int, b: int| 0 <= a < b < tracks@.len() implies (
                #[trigger] tracks@[a]).address != (#[trigger] tracks@[b]).address by {
                    let a0 = if a < i { a } else { a + 1 };
                    let b0 = if b < i { b } else { b + 1 };
                    assert(tracks@[a] == before[a0]);
                    assert(tracks@[b] == before[b0]);
                }
            }
        } else {
            assert(tracks@ =~= head.push(all[seen]) + all.subrange(seen + 1, all.len() as int));
            i += 1;
        }
        proof {
            seen = seen + 1;
        }
    }
    proof {
        assert(all.subrange(0, all.len() as int) =~= all);
        assert(tracks@ =~= all.filter(fresh));
    }
}

/// The aircraft heard of and not yet pruned, each with one track.
pub struct TrackStore {
    tracks: Vec<AircraftTrack>,
}

impl View for TrackStore {
    type V = Seq<AircraftTrack>;

    /// The tracks in enumeration order: the order of first report.
    closed spec fn view(&self) -> Seq<AircraftTrack> {
        self.tracks@
    }
}

impl TrackStore {
    #[verifier::type_invariant]
    spec fn well_formed(self) -> bool {
        distinct_addresses(self.tracks@)
    }

    /// An empty store.
    pub fn new() -> (store: Self)
        ensures
            store@ == Seq::<AircraftTrack>::empty(),
    {
        TrackStore { tracks: Vec::new() }
    }

    /// Number of tracks. No two of them belong to the same address.
    pub fn len(&self) -> (n: usize)
        ensures
            n == self@.len(),
            distinct_addresses(self@),
    {
        proof {
            use_type_invariant(self);
        }
        self.tracks.len()
    }

    /// Whether the store holds no track.
    pub fn is_empty(&self) -> (r: bool)
        ensures
            r == (self@.len() == 0),
    {
        self.tracks.len() == 0
    }

    /// The track at row `index` of the enumeration.
    pub fn track_at(&self, index: usize) -> (r: Option<&AircraftTrack>)
        ensures
            r == if index < self@.len() {
                Some(&self@[index as int])
            } else {
                None
            },
    {
        if index < self.tracks.len() {
            Some(&self.tracks[index])
        } else {
            None
        }
    }

    /// The track of `address`.
    pub fn get(&self, address: AircraftAddress) -> (r: Option<&AircraftTrack>)
        ensures
            r == match track_of(self@, address) {
                Some(t) => Some(&t),
                None => None,
            },
    {
        proof {
            use_type_invariant(self);
        }
        match find(&self.tracks, address) {
            Some(i) => {
                proof {
                    lemma_track_of_index(self.tracks@, i as int);
                }
                Some(&self.tracks[i])
            },
            None => None,
        }
    }

    /// Counts one accepted report for `address` at time `now`, creating its
    /// track if it has none.
    pub fn record_message_count(&mut self, address: AircraftAddress, now: u64)
        ensures
            final(self)@ == applied(old(self)@, address, Report::Other, now),
    {
        proof {
            use_type_invariant(&*self);
        }
        let mut tracks = Vec::new();
        std::mem::swap(&mut tracks, &mut self.tracks);
        let _ = touch(&mut tracks, address, now);
        self.tracks = tracks;
    }

    /// Counts an identification report and stores the callsign it carries.
    pub fn apply_identification(&mut self, address: AircraftAddress, callsign: String, now: u64)
        ensures
            final(self)@ == applied(old(self)@, address, Report::Identification(callsign), now),
    {
        proof {
            use_type_invariant(&*self);
        }
        let mut tracks = Vec::new();
        std::mem::swap(&mut tracks, &mut self.tracks);
        let i = touch(&mut tracks, address, now);
        tracks[i].callsign = Some(callsign);
        assert(tracks@ =~= applied(old(self)@, address, Report::Identification(callsign), now));
        self.tracks = tracks;
    }

    /// Counts a velocity report and stores the velocity it carries.
    pub fn apply_velocity(&mut self, address: AircraftAddress, velocity: Velocity, now: u64)
        ensures
            final(self)@ == applied(old(self)@, address, Report::Velocity(velocity), now),
    {
        proof {
            use_type_invariant(&*self);
        }
        let mut tracks = Vec::new();
        std::mem::swap(&mut tracks, &mut self.tracks);
        let i = touch(&mut tracks, address, now);
        tracks[i].velocity = Some(velocity);
        assert(tracks@ =~= applied(old(self)@, address, Report::Velocity(velocity), now));
        self.tracks = tracks;
    }

    /// Counts a position report, keeps its raw frame as the latest of its
    /// format, and stores the position it resolved to, if it did, in place
    /// of any earlier one.
    pub fn apply_position(
        &mut self,
        address: AircraftAddress,
        frame: PositionFrame,
        resolved: Option<ResolvedPosition>,
        now: u64,
    )
        ensures
            final(self)@ == applied(
                old(self)@,
                address,
                (Report::Position { frame, resolved }),
                now,
            ),
    {
        proof {
            use_type_invariant(&*self);
        }
        let mut tracks = Vec::new();
        std::mem::swap(&mut tracks, &mut self.tracks);
        let i = touch(&mut tracks, address, now);
        if frame.odd {
            tracks[i].odd_frame = Some(frame);
        } else {
            tracks[i].even_frame = Some(frame);
        }
        if let Some(position) = resolved {
            tracks[i].resolved_position = Some(position);
        }
        assert(tracks@ =~= applied(old(self)@, address, Report::Position { frame, resolved }, now));
        self.tracks = tracks;
    }

    /// The latest frame of `address` that a frame of format `odd` pairs
    /// with: the one of the other format.
    pub fn counterpart(&self, address: AircraftAddress, odd: bool) -> (r: Option<PositionFrame>)
        ensures
            r == match track_of(self@, address) {
                Some(t) => t.counterpart(odd),
                None => None,
            },
    {
        match self.get(address) {
            Some(t) => if odd {
                t.even_frame
            } else {
                t.odd_frame
            },
            None => None,
        }
    }

    /// Applies one accepted report for `address` at time `now`.
    pub fn apply_report(&mut self, address: AircraftAddress, report: Report, now: u64)
        ensures
            final(self)@ == applied(old(self)@, address, report, now),
    {
        match report {
            Report::Identification(callsign) => self.apply_identification(address, callsign, now),
            Report::Velocity(velocity) => self.apply_velocity(address, velocity, now),
            Report::Position { frame, resolved } => self.apply_position(
                address,
                frame,
                resolved,
                now,
            ),
            Report::Other => self.record_message_count(address, now),
        }
    }

    /// The latest resolved position of `address`, if one was ever resolved.
    pub fn resolved_position(&self, address: AircraftAddress) -> (r: Option<ResolvedPosition>)
        ensures
            r == position_of(self@, address),
    {
        match self.get(address) {
            Some(t) => t.resolved_position,
            None => None,
        }
    }

    /// The resolved positions of all tracks that have one, in enumeration order.
    pub fn all_resolved_positions(&self) -> (r: Vec<ResolvedPosition>)
        ensures
            r@ == resolved_positions(self@),
    {
        let ghost known = |t: AircraftTrack| t.resolved_position is Some;
        let mut out: Vec<ResolvedPosition> = Vec::new();
        let mut i: usize = 0;
        proof {
            reveal(Seq::filter);
            assert(self.tracks@.subrange(0, 0) =~= Seq::<AircraftTrack>::empty());
        }
        while i < self.tracks.len()
            invariant
                i <= self.tracks@.len(),
                known == |t: AircraftTrack| t.resolved_position is Some,
                out@ == resolved_positions(self.tracks@.subrange(0, i as int)),
            decreases self.tracks@.len() - i,
        {
            proof {
                let head = self.tracks@.subrange(0, i as int);
                assert(self.tracks@.subrange(0, i + 1) =~= head.push(self.tracks@[i as int]));
                head.lemma_filter_push(self.tracks@[i as int], known);
            }
            if let Some(position) = self.tracks[i].resolved_position {
                out.push(position);
            }
            i += 1;
            assert(out@ =~= resolved_positions(self.tracks@.subrange(0, i as int)));
        }
        assert(self.tracks@.subrange(0, i as int) =~= self.tracks@);
        out
    }

    /// Removes every track that has been silent for longer than `threshold`
    /// at time `now`, and no other.
    pub fn prune(&mut self, now: u64, threshold: u64)
        ensures
            final(self)@ == pruned(old(self)@, now, threshold),
    {
        proof {
            use_type_invariant(&*self);
        }
        let mut tracks = Vec::new();
        std::mem::swap(&mut tracks, &mut self.tracks);
        drop_stale(&mut tracks, now, threshold);
        self.tracks = tracks;
    }
}

} // verus!
