use vstd::prelude::*;

verus! {

/// The scan sizes the radar accepts: a scan covers a `size x size` square
/// centred on the bot.
pub open spec fn is_scan_size(size: int) -> bool {
    size == 3 || size == 5 || size == 7 || size == 9
}

/// The absolute value of `v`.
pub open spec fn abs(v: int) -> int {
    if v < 0 { -v } else { v }
}

/// The ring a bot-centric coordinate lies on: `max(|x|, |y|)`, where the
/// bot's own tile counts as ring 1.
pub open spec fn ring_of(x: int, y: int) -> int {
    let m = if abs(x) > abs(y) { abs(x) } else { abs(y) };
    if m == 0 { 1 } else { m }
}

/// Computes the ring of `(x, y)`: `max(|x|, |y|)`, at least 1.
pub fn half_width(x: i8, y: i8) -> (h: u8)
    ensures
        h == ring_of(x as int, y as int),
        1 <= h <= 128,
{
    let ax: u8 = if x < 0 { (-(x as i16)) as u8 } else { x as u8 };
    let ay: u8 = if y < 0 { (-(y as i16)) as u8 } else { y as u8 };
    let m: u8 = if ax > ay { ax } else { ay };
    if m == 0 { 1 } else { m }
}

/// Why a scan was refused.
#[derive(Debug, Clone, Copy, PartialEq, Eq, Structural)]
pub enum ScanError {
    /// The radar is still cooling down from the previous scan.
    NotReady,
    /// The requested size is not one of 3, 5, 7 or 9.
    InvalidSize,
}

/// The most recent radar data for each ring around the bot, with the tick
/// it was captured at.
///
/// Ring `h` (the tiles at half-width `h`) is described by `scan_time[h - 1]`:
/// the size of the last scan that covered it and the tick that scan ran at.
/// A larger scan refreshes every ring it covers; a smaller one leaves the
/// outer rings as they were, so each ring ages on its own.
pub struct Radar {
    /// The tick at which the last scan ran.
    pub recent_scan_time: u32,
    /// The size of the last scan (3, 5, 7 or 9); it decides the cooldown.
    pub recent_scan_type: usize,
    /// For rings 1 to 4, the size and tick of the last scan covering them.
    pub scan_time: [(usize, u32); 4],
}

/// The ring records after a scan of `size` at tick `now`: rings up to the
/// scan's half-width take `(size, now)`, the others keep their record.
pub open spec fn rings_after_scan(rings: Seq<(usize, u32)>, size: int, now: u32) -> Seq<(usize, u32)> {
    Seq::new(4, |i: int| if i + 1 <= (size - 1) / 2 { (size as usize, now) } else { rings[i] })
}

/// The radar's cooldown after a scan of `size`, in ticks: 3 -> 10_000,
/// 5 -> 15_000, 7 -> 22_000, 9 -> 30_000, and 0 for any other size. The
/// hardware varies these by up to 10, 15, 25 and 30 percent respectively.
pub open spec fn cooldown_of(size: int) -> int {
    if size == 3 {
        10_000
    } else if size == 5 {
        15_000
    } else if size == 7 {
        22_000
    } else if size == 9 {
        30_000
    } else {
        0
    }
}

/// The ticks from `since` to `now` on the 32-bit tick counter, which wraps
/// to zero when it overflows.
pub open spec fn elapsed(now: u32, since: u32) -> int {
    if now >= since { now - since } else { now + 0x1_0000_0000 - since }
}

/// Looks up the cooldown that follows a scan of `size`.
pub fn cooldown(size: usize) -> (c: u32)
    ensures
        c == cooldown_of(size as int),
{
    match size {
        3 => 10_000,
        5 => 15_000,
        7 => 22_000,
        9 => 30_000,
        _ => 0,
    }
}

/// Decides whether a scan of `size` may go ahead, given whether the sensor
/// reports ready. On success the size is returned as the byte the sensor's
/// scan command takes. An invalid size is refused first, whatever the
/// sensor says.
pub fn check_scan(size: usize, ready: bool) -> (r: Result<u8, ScanError>)
    ensures
        r == Err::<u8, ScanError>(ScanError::InvalidSize) <==> !is_scan_size(size as int),
        r == Err::<u8, ScanError>(ScanError::NotReady) <==> is_scan_size(size as int) && !ready,
        r == Ok::<u8, ScanError>(size as u8) <==> is_scan_size(size as int) && ready,
{
    if !(size == 3 || size == 5 || size == 7 || size == 9) {
        Err(ScanError::InvalidSize)
    } else if !ready {
        Err(ScanError::NotReady)
    } else {
        Ok(size as u8)
    }
}

impl Radar {
    /// The record that answers for the tile at `(x, y)`, if the tile lies
    /// within reach of the largest scan.
    pub open spec fn record_for(&self, x: int, y: int) -> Option<(usize, u32)> {
        let h = ring_of(x, y);
        if h <= 4 { Some(self.scan_time@[h - 1]) } else { None }
    }

    /// A cache on which nothing has been scanned: every ring at size 3 and
    /// tick 0.
    pub fn new() -> (r: Self)
        ensures
            r.recent_scan_time == 0,
            r.recent_scan_type == 3,
            forall|i: int| 0 <= i < 4 ==> #[trigger] r.scan_time@[i] == (3usize, 0u32),
    {
        Radar { scan_time: [(3, 0), (3, 0), (3, 0), (3, 0)], recent_scan_type: 3, recent_scan_time: 0 }
    }

    /// The size and tick of the scan that last covered the ring of `(x, y)`,
    /// or `None` when the tile is beyond every scan's reach.
    pub fn lookup(&self, x: i8, y: i8) -> (r: Option<(usize, u32)>)
        ensures
            r == self.record_for(x as int, y as int),
    {
        let h = half_width(x, y);
        if h > 4 {
            None
        } else {
            Some(self.scan_time[(h - 1) as usize])
        }
    }

    /// Records a scan of `size` that ran at tick `now`: every ring the scan
    /// covers takes `(size, now)`, the rings beyond it keep their record,
    /// and the scan becomes the most recent one.
    pub fn record_scan(&mut self, size: u8, now: u32)
        requires
            is_scan_size(size as int),
        ensures
            final(self).scan_time@ == rings_after_scan(old(self).scan_time@, size as int, now),
            final(self).recent_scan_type == size,
            final(self).recent_scan_time == now,
    {
        let reach: usize = ((size - 1) / 2) as usize;
        let rec: (usize, u32) = (size as usize, now);
        let old_rings = self.scan_time;
        let r0 = rec;
        let r1 = if reach >= 2 { rec } else { old_rings[1] };
        let r2 = if reach >= 3 { rec } else { old_rings[2] };
        let r3 = if reach >= 4 { rec } else { old_rings[3] };
        self.scan_time = [r0, r1, r2, r3];
        self.recent_scan_type = size as usize;
        self.recent_scan_time = now;
        assert(self.scan_time@ =~= rings_after_scan(old(self).scan_time@, size as int, now));
    }

    /// The ticks left until the radar may scan again, at tick `now`: the
    /// cooldown of the most recent scan minus the ticks elapsed since it.
    /// Positive while cooling down; zero or negative once ready.
    pub fn time_to_next_scan(&self, now: u32) -> (r: i64)
        ensures
            r == cooldown_of(self.recent_scan_type as int) - elapsed(now, self.recent_scan_time),
    {
        let since = self.recent_scan_time;
        let passed: i64 = if now >= since {
            (now - since) as i64
        } else {
            (now as i64) + 0x1_0000_0000i64 - (since as i64)
        };
        (cooldown(self.recent_scan_type) as i64) - passed
    }
}

/// A scan of size 9 refreshes the whole cache: afterwards every tile within
/// reach answers from that scan, with its size and tick.
pub proof fn lemma_full_scan_refreshes_all(before: Radar, after: Radar, now: u32)
    requires
        after.scan_time@ == rings_after_scan(before.scan_time@, 9, now),
    ensures
        forall|x: int, y: int|
            ring_of(x, y) <= 4 ==> #[trigger] after.record_for(x, y) == Some((9usize, now)),
{
}

/// A scan of size 3 followed by one of size 5 leaves rings 1 and 2 with the
/// second scan's size and tick, and rings 3 and 4 as they were before both.
pub proof fn lemma_small_then_larger_scan(rings: Seq<(usize, u32)>, first: u32, second: u32)
    requires
        rings.len() == 4,
    ensures
        ({
            let after = rings_after_scan(rings_after_scan(rings, 3, first), 5, second);
            &&& after.len() == 4
            &&& after[0] == (5usize, second)
            &&& after[1] == (5usize, second)
            &&& after[2] == rings[2]
            &&& after[3] == rings[3]
        }),
{
}

/// A scan touches no ring beyond its own half-width, and refreshes every
/// ring within it, whatever those rings held before.
pub proof fn lemma_scan_touches_only_its_reach(rings: Seq<(usize, u32)>, size: int, now: u32)
    requires
        rings.len() == 4,
        is_scan_size(size),
    ensures
        forall|i: int|
            0 <= i < 4 ==> (#[trigger] rings_after_scan(rings, size, now)[i] == if i + 1 <= (size - 1) / 2 {
                (size as usize, now)
            } else {
                rings[i]
            }),
{
}

/// What a query reports depends on the ring records alone: as long as no
/// scan is recorded in between, asking again for the same tile gives the
/// same record, however much time has passed.
pub proof fn lemma_query_repeatable(a: Radar, b: Radar, x: int, y: int)
    requires
        a.scan_time@ == b.scan_time@,
    ensures
        a.record_for(x, y) == b.record_for(x, y),
{
}

} // verus!
