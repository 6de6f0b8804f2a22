use vstd::prelude::*;
use crate::config::{DEVICE_FREE, DEVICE_LOW_EFFICIENCY};
use crate::util::{regex_find_all, regex_matches};

verus! {

/// The memory ratio `used / total` is below one tenth and utilization below 5%.
pub open spec fn idle_reading(used: int, total: int, ratio: int) -> bool {
    10 * used < total && ratio < 5
}

/// The memory ratio lies in `[0.1, 0.5]` and utilization in `[5, 50]`.
pub open spec fn low_reading(used: int, total: int, ratio: int) -> bool {
    total > 0 && 10 * used >= total && 2 * used <= total && 5 <= ratio <= 50
}

/// One poll of a debounce counter with threshold `limit`: the new count and
/// whether the signal fires.
pub open spec fn debounce(count: int, hit: bool, limit: int) -> (int, bool) {
    if !hit {
        (0, false)
    } else if count + 1 > limit {
        (0, true)
    } else {
        (count + 1, false)
    }
}

/// Count and last signal after `k` polls that all meet the condition,
/// starting from a count of zero.
pub open spec fn debounce_run(k: nat, limit: int) -> (int, bool)
    decreases k,
{
    if k == 0 {
        (0, false)
    } else {
        debounce(debounce_run((k - 1) as nat, limit).0, true, limit)
    }
}

/// A debounced signal fires on exactly the `limit + 1`-th consecutive
/// qualifying poll, not before, and its count is zero again right after.
pub proof fn lemma_fires_once(k: nat, limit: int)
    requires
        0 <= limit,
        k <= limit + 1,
    ensures
        k <= limit ==> debounce_run(k, limit) == (k as int, false),
        k == limit + 1 ==> debounce_run(k, limit) == (0int, true),
    decreases k,
{
    if k > 0 {
        lemma_fires_once((k - 1) as nat, limit);
    }
}

/// A poll that does not meet the condition sets the count to zero, without firing.
pub proof fn lemma_miss_resets(count: int, limit: int)
    ensures
        debounce(count, false, limit) == (0int, false),
{
}

/// Pattern of the utilization field of the diagnostic report.
pub const PERCENT_PATTERN: &'static str = "\\d{1,3}%";

/// Pattern of a memory field of the diagnostic report.
pub const MIB_PATTERN: &'static str = "\\d{1,5}MiB";

/// All characters of `s` are ASCII decimal digits.
pub open spec fn all_digits(s: Seq<char>) -> bool {
    forall|i: int| 0 <= i < s.len() ==> '0' <= #[trigger] s[i] <= '9'
}

/// The number that the decimal digits `s` spell.
pub open spec fn digits_value(s: Seq<char>) -> int
    decreases s.len(),
{
    if s.len() == 0 {
        0
    } else {
        10 * digits_value(s.drop_last()) + (s.last() as int - '0' as int)
    }
}

/// The number written in `s` before its last `suffix` characters, when that
/// part is a non-empty run of decimal digits whose value is at most `max`.
pub open spec fn number_before(s: Seq<char>, suffix: int, max: int) -> Option<int> {
    let d = s.take(s.len() - suffix);
    if suffix < s.len() && all_digits(d) && digits_value(d) <= max {
        Some(digits_value(d))
    } else {
        None
    }
}

/// The reading in a diagnostic report: utilization from the first percent
/// field, used and total memory from the first two memory fields.
pub open spec fn reading_of(message: Seq<char>) -> Option<(int, int, int)> {
    match (regex_matches(PERCENT_PATTERN@, message), regex_matches(MIB_PATTERN@, message)) {
        (Some(p), Some(m)) => if p.len() >= 1 && m.len() >= 2 {
            match (number_before(p[0], 1, 255), number_before(m[0], 3, 65535), number_before(m[1], 3, 65535)) {
                (Some(r), Some(u), Some(t)) => Some((u, t, r)),
                _ => None,
            }
        } else {
            None
        },
        _ => None,
    }
}

/// `number_before` on `s`.
fn parse_number_before(s: &String, suffix: usize, max: u32) -> (r: Option<u32>)
    requires
        max <= 65535,
    ensures
        r matches Some(v) ==> number_before(s@, suffix as int, max as int) == Some(v as int),
        r is None ==> number_before(s@, suffix as int, max as int) is None,
{
    let n = s.as_str().unicode_len();
    if suffix >= n {
        return None;
    }
    let end = n - suffix;
    let ghost d = s@.take(end as int);
    let mut v: u32 = 0;
    let mut i: usize = 0;
    while i < end
        invariant
            end <= s@.len(),
            end == s@.len() - suffix,
            suffix < s@.len(),
            n == s@.len(),
            d == s@.take(end as int),
            i <= end,
            max <= 65535,
            all_digits(d.take(i as int)),
            v as int == digits_value(d.take(i as int)),
            v <= max,
        decreases end - i,
    {
        let c = s.as_str().get_char(i);
        assert(d.take(i as int + 1).drop_last() =~= d.take(i as int));
        assert(d[i as int] == c);
        if c < '0' || c > '9' {
            assert(!all_digits(d));
            return None;
        }
        let w: u32 = v * 10 + (c as u32 - '0' as u32);
        if w > max {
            proof { lemma_digits_grow(d, i as int + 1); }
            return None;
        }
        v = w;
        i = i + 1;
    }
    assert(d.take(end as int) =~= d);
    Some(v)
}

/// A longer run of digits never spells less.
proof fn lemma_digits_grow(d: Seq<char>, k: int)
    requires
        0 <= k <= d.len(),
        all_digits(d.take(k)),
    ensures
        all_digits(d) ==> digits_value(d) >= digits_value(d.take(k)),
    decreases d.len() - k,
{
    if k < d.len() && all_digits(d) {
        assert(d.take(k + 1).drop_last() =~= d.take(k));
        lemma_digits_grow(d, k + 1);
        assert(digits_value(d.take(k)) >= 0) by {
            lemma_digits_nonneg(d.take(k));
        }
    } else if k == d.len() {
        assert(d.take(k) =~= d);
    }
}

proof fn lemma_digits_nonneg(d: Seq<char>)
    requires
        all_digits(d),
    ensures
        digits_value(d) >= 0,
    decreases d.len(),
{
    if d.len() > 0 {
        lemma_digits_nonneg(d.drop_last());
    }
}

/// What a monitor holds: the last reading and the two hysteresis counters.
pub struct MonitorView {
    pub used: int,
    pub total: int,
    pub ratio: int,
    pub free_count: int,
    pub low_count: int,
}

/// Utilization monitor of the shared device.
#[derive(Debug)]
pub struct Nvidia {
    used_memory: u16,
    total_memory: u16,
    use_ratio: u8,
    counter_free: u32,
    counter_efficiency: u32,
}

impl View for Nvidia {
    type V = MonitorView;

    closed spec fn view(&self) -> MonitorView {
        MonitorView {
            used: self.used_memory as int,
            total: self.total_memory as int,
            ratio: self.use_ratio as int,
            free_count: self.counter_free as int,
            low_count: self.counter_efficiency as int,
        }
    }
}

impl Nvidia {
    /// Counters never exceed their thresholds between polls.
    pub open spec fn wf(&self) -> bool {
        &&& self@.free_count <= DEVICE_FREE
        &&& self@.low_count <= DEVICE_LOW_EFFICIENCY
        &&& 0 <= self@.free_count
        &&& 0 <= self@.low_count
    }

    /// A monitor with no reading yet and both counters at zero.
    pub fn new() -> (r: Nvidia)
        ensures
            r.wf(),
            r@.used == 0,
            r@.total == 0,
            r@.ratio == 0,
            r@.free_count == 0,
            r@.low_count == 0,
    {
        Nvidia { used_memory: 0, total_memory: 0, use_ratio: 0, counter_free: 0, counter_efficiency: 0 }
    }

    /// Stores a reading; the counters are kept.
    pub fn record(&mut self, used: u16, total: u16, ratio: u8)
        ensures
            final(self)@.used == used as int,
            final(self)@.total == total as int,
            final(self)@.ratio == ratio as int,
            final(self)@.free_count == old(self)@.free_count,
            final(self)@.low_count == old(self)@.low_count,
    {
        self.used_memory = used;
        self.total_memory = total;
        self.use_ratio = ratio;
    }

    /// Reads utilization and memory out of a diagnostic report (see
    /// `reading_of`) and stores them; returns `false`, with nothing changed,
    /// when the report holds no such reading.
    pub fn read_from_text(&mut self, message: &str) -> (ok: bool)
        ensures
            ok == reading_of(message@) is Some,
            ok ==> final(self)@ == (MonitorView {
                used: reading_of(message@).unwrap().0,
                total: reading_of(message@).unwrap().1,
                ratio: reading_of(message@).unwrap().2,
                ..old(self)@
            }),
            !ok ==> final(self)@ == old(self)@,
    {
        let pct = match regex_find_all(PERCENT_PATTERN, message) {
            Some(p) => p,
            None => return false,
        };
        let mib = match regex_find_all(MIB_PATTERN, message) {
            Some(m) => m,
            None => return false,
        };
        if pct.len() < 1 || mib.len() < 2 {
            return false;
        }
        assert(pct@.map_values(|x: String| x@)[0] == pct@[0]@);
        assert(mib@.map_values(|x: String| x@)[0] == mib@[0]@);
        assert(mib@.map_values(|x: String| x@)[1] == mib@[1]@);
        let ratio = parse_number_before(&pct[0], 1, 255);
        let used = parse_number_before(&mib[0], 3, 65535);
        let total = parse_number_before(&mib[1], 3, 65535);
        match (ratio, used, total) {
            (Some(r), Some(u), Some(t)) => {
                self.record(u as u16, t as u16, r as u8);
                true
            },
            _ => false,
        }
    }

    /// Memory used by the last reading, in MiB.
    pub fn used_memory(&self) -> (r: u16)
        ensures
            r as int == self@.used,
    {
        self.used_memory
    }

    /// Memory of the device by the last reading, in MiB.
    pub fn total_memory(&self) -> (r: u16)
        ensures
            r as int == self@.total,
    {
        self.total_memory
    }

    /// Utilization of the last reading, in percent.
    pub fn use_ratio(&self) -> (r: u8)
        ensures
            r as int == self@.ratio,
    {
        self.use_ratio
    }

    /// Debounced idle signal: counts consecutive idle readings and fires once,
    /// resetting, when the count exceeds the threshold; a busy reading resets it.
    pub fn is_free(&mut self) -> (fired: bool)
        requires
            old(self).wf(),
        ensures
            final(self).wf(),
            final(self)@.used == old(self)@.used,
            final(self)@.total == old(self)@.total,
            final(self)@.ratio == old(self)@.ratio,
            final(self)@.low_count == old(self)@.low_count,
            (final(self)@.free_count, fired) == debounce(
                old(self)@.free_count,
                idle_reading(old(self)@.used, old(self)@.total, old(self)@.ratio),
                DEVICE_FREE as int,
            ),
    {
        let used: u32 = self.used_memory as u32;
        let total: u32 = self.total_memory as u32;
        if 10 * used < total && self.use_ratio < 5 {
            self.counter_free = self.counter_free + 1;
            if self.counter_free > DEVICE_FREE {
                self.counter_free = 0;
                return true;
            }
        } else {
            self.counter_free = 0;
        }
        false
    }

    /// Debounced low-efficiency signal, with its own counter, fired and reset
    /// in the same way as the idle signal.
    pub fn is_low_efficiency(&mut self) -> (fired: bool)
        requires
            old(self).wf(),
        ensures
            final(self).wf(),
            final(self)@.used == old(self)@.used,
            final(self)@.total == old(self)@.total,
            final(self)@.ratio == old(self)@.ratio,
            final(self)@.free_count == old(self)@.free_count,
            (final(self)@.low_count, fired) == debounce(
                old(self)@.low_count,
                low_reading(old(self)@.used, old(self)@.total, old(self)@.ratio),
                DEVICE_LOW_EFFICIENCY as int,
            ),
    {
        let used: u32 = self.used_memory as u32;
        let total: u32 = self.total_memory as u32;
        if total > 0 && 10 * used >= total && 2 * used <= total && self.use_ratio >= 5
            && self.use_ratio <= 50 {
            self.counter_efficiency = self.counter_efficiency + 1;
            if self.counter_efficiency > DEVICE_LOW_EFFICIENCY {
                self.counter_efficiency = 0;
                return true;
            }
        } else {
            self.counter_efficiency = 0;
        }
        false
    }
}

} // verus!
