//! Instants of time.

use vstd::prelude::*;
use vstd::string::*;

verus! {

/// The first second that can be written as a date.
pub const FIRST_SECOND: i64 = -8_334_601_228_800;

/// The last second that can be written as a date.
pub const LAST_SECOND: i64 = 8_210_266_876_799;

/// Whether an instant can be written as a date.
pub open spec fn in_calendar(secs: i64, nanos: u32) -> bool {
    FIRST_SECOND <= secs <= LAST_SECOND && nanos < 1_000_000_000
}

/// The instant in RFC 3339, as `chrono::DateTime::to_rfc3339` writes it.
pub uninterp spec fn rfc3339_text(secs: i64, nanos: u32) -> Seq<char>;

/// The instant as `chrono::DateTime::format` writes it with the pattern
/// `%Y%m%dT%H%M%SZ`.
pub uninterp spec fn compact_text(secs: i64, nanos: u32) -> Seq<char>;

/// Writes an instant with `chrono::DateTime::to_rfc3339`, in UTC. The instant
/// has to be one for which `chrono::DateTime::from_timestamp` gives a date.
#[verifier::external_body]
fn write_rfc3339(secs: i64, nanos: u32) -> (r: String)
    requires
        in_calendar(secs, nanos),
    ensures
        r@ == rfc3339_text(secs, nanos),
{
    chrono::DateTime::from_timestamp(secs, nanos).unwrap().to_rfc3339()
}

/// The instant in RFC 3339, with as many digits of the second as it needs and
/// with `Z` for UTC, as `chrono::DateTime::to_rfc3339_opts` writes it.
pub uninterp spec fn rfc3339_z_text(secs: i64, nanos: u32) -> Seq<char>;

/// Writes an instant with `chrono::DateTime::to_rfc3339_opts`, in UTC, with
/// `chrono::SecondsFormat::AutoSi` and `Z`. The instant has to be one for which
/// `chrono::DateTime::from_timestamp` gives a date.
#[verifier::external_body]
fn write_rfc3339_z(secs: i64, nanos: u32) -> (r: String)
    requires
        in_calendar(secs, nanos),
    ensures
        r@ == rfc3339_z_text(secs, nanos),
{
    chrono::DateTime::from_timestamp(secs, nanos).unwrap().to_rfc3339_opts(
        chrono::SecondsFormat::AutoSi,
        true,
    )
}

/// Writes an instant with `chrono::DateTime::format` and the pattern
/// `%Y%m%dT%H%M%SZ`, in UTC. The instant has to be one for which
/// `chrono::DateTime::from_timestamp` gives a date.
#[verifier::external_body]
fn write_compact(secs: i64, nanos: u32) -> (r: String)
    requires
        in_calendar(secs, nanos),
    ensures
        r@ == compact_text(secs, nanos),
{
    chrono::DateTime::from_timestamp(secs, nanos).unwrap().format("%Y%m%dT%H%M%SZ").to_string()
}

/// The time from `chrono::Utc::now`, as seconds and nanoseconds since the Unix
/// epoch. All that is said of it is that it can be written as a date.
#[verifier::external_body]
fn utc_now() -> (r: (i64, u32))
    ensures
        in_calendar(r.0, r.1),
{
    let now = chrono::Utc::now();
    (now.timestamp(), now.timestamp_subsec_nanos())
}

/// An instant, as seconds and nanoseconds since the Unix epoch. It can always
/// be written as a date.
#[derive(Clone, Copy, Debug, PartialEq, Eq, Structural)]
pub struct Timestamp {
    pub(crate) secs: i64,
    pub(crate) nanos: u32,
}

impl Timestamp {
    #[verifier::type_invariant]
    pub open(crate) spec fn valid(self) -> bool {
        in_calendar(self.secs, self.nanos)
    }

    /// The seconds since the Unix epoch, rounded down.
    pub open(crate) spec fn seconds(self) -> int {
        self.secs as int
    }

    /// The nanoseconds since the Unix epoch.
    pub open(crate) spec fn instant(self) -> int {
        self.secs * 1_000_000_000 + self.nanos
    }

    /// The instant in RFC 3339.
    pub open(crate) spec fn text(self) -> Seq<char> {
        rfc3339_text(self.secs, self.nanos)
    }

    /// The instant in the basic format of ISO 8601, to the second.
    pub open(crate) spec fn compact(self) -> Seq<char> {
        compact_text(self.secs, self.nanos)
    }

    /// The instant in RFC 3339, with `Z` for UTC.
    pub open(crate) spec fn z_text(self) -> Seq<char> {
        rfc3339_z_text(self.secs, self.nanos)
    }

    /// The instant so many seconds and nanoseconds after the Unix epoch, where
    /// it can be written as a date.
    pub fn new(secs: i64, nanos: u32) -> (r: Option<Timestamp>)
        ensures
            r is Some <==> in_calendar(secs, nanos),
            r is Some ==> r->0.instant() == secs * 1_000_000_000 + nanos && r->0.seconds() == secs
                && r->0.text() == rfc3339_text(secs, nanos) && r->0.compact() == compact_text(
                secs,
                nanos,
            ) && r->0.z_text() == rfc3339_z_text(secs, nanos),
    {
        if FIRST_SECOND <= secs && secs <= LAST_SECOND && nanos < 1_000_000_000 {
            Some(Timestamp { secs, nanos })
        } else {
            None
        }
    }

    /// The present.
    pub fn now() -> (r: Timestamp)
        ensures
            FIRST_SECOND <= r.seconds() <= LAST_SECOND,
    {
        let (secs, nanos) = utc_now();
        Timestamp { secs, nanos }
    }

    /// The seconds since the Unix epoch, rounded down.
    pub fn timestamp(self) -> (r: i64)
        ensures
            r == self.seconds(),
    {
        self.secs
    }

    /// The nanoseconds past the last second.
    pub fn subsec_nanos(self) -> (r: u32)
        ensures
            self.instant() == self.seconds() * 1_000_000_000 + r,
            r < 1_000_000_000,
    {
        proof {
            use_type_invariant(&self);
        }
        self.nanos
    }

    /// The instant in RFC 3339.
    pub fn to_rfc3339(self) -> (r: String)
        ensures
            r@ == self.text(),
    {
        proof {
            use_type_invariant(&self);
        }
        write_rfc3339(self.secs, self.nanos)
    }

    /// The instant in RFC 3339, with `Z` for UTC.
    pub fn to_rfc3339_z(self) -> (r: String)
        ensures
            r@ == self.z_text(),
    {
        proof {
            use_type_invariant(&self);
        }
        write_rfc3339_z(self.secs, self.nanos)
    }

    /// The instant in the basic format of ISO 8601, to the second.
    pub fn to_compact(self) -> (r: String)
        ensures
            r@ == self.compact(),
    {
        proof {
            use_type_invariant(&self);
        }
        write_compact(self.secs, self.nanos)
    }

    /// The whole seconds from `earlier` to this instant, negative where it
    /// comes later.
    pub fn seconds_since(self, earlier: Timestamp) -> (r: i64)
        ensures
            r == whole(self.instant() - earlier.instant(), 1_000_000_000),
            -16_544_868_105_599 <= r <= 16_544_868_105_599,
    {
        proof {
            use_type_invariant(&self);
            use_type_invariant(&earlier);
        }
        let d: i64 = self.secs - earlier.secs;
        if d > 0 && self.nanos < earlier.nanos {
            d - 1
        } else if d < 0 && self.nanos > earlier.nanos {
            d + 1
        } else {
            d
        }
    }

    /// The nanoseconds from `earlier` to this instant, negative where it comes
    /// later.
    pub fn nanos_since(self, earlier: Timestamp) -> (r: i128)
        ensures
            r == self.instant() - earlier.instant(),
            -20_000_000_000_000_000_000_000 < r < 20_000_000_000_000_000_000_000,
    {
        proof {
            use_type_invariant(&self);
            use_type_invariant(&earlier);
        }
        let d: i64 = self.secs - earlier.secs;
        d as i128 * 1_000_000_000 + self.nanos as i128 - earlier.nanos as i128
    }

    /// The instant so many seconds later, or the last one that can be written as
    /// a date.
    pub fn plus(self, secs: u32) -> (r: Timestamp)
        ensures
            r.instant() == later(self.instant(), secs as int),
    {
        proof {
            use_type_invariant(&self);
        }
        let n: i64 = self.secs + secs as i64;
        if n > LAST_SECOND {
            Timestamp { secs: LAST_SECOND, nanos: 999_999_999 }
        } else {
            Timestamp { secs: n, nanos: self.nanos }
        }
    }

    /// The instant so many seconds earlier, or the first one that can be written
    /// as a date.
    pub fn minus(self, secs: u32) -> (r: Timestamp)
        ensures
            r.instant() == earlier(self.instant(), secs as int),
    {
        proof {
            use_type_invariant(&self);
        }
        let n: i64 = self.secs - secs as i64;
        if n < FIRST_SECOND {
            Timestamp { secs: FIRST_SECOND, nanos: 0 }
        } else {
            Timestamp { secs: n, nanos: self.nanos }
        }
    }

    /// Whether this instant comes more than so many seconds after another.
    pub fn is_past(self, earlier: Timestamp, secs: u32) -> (r: bool)
        ensures
            r == (self.instant() - earlier.instant() > secs * 1_000_000_000),
    {
        proof {
            use_type_invariant(&self);
            use_type_invariant(&earlier);
        }
        let d: i64 = self.secs - earlier.secs;
        d > secs as i64 || (d == secs as i64 && self.nanos > earlier.nanos)
    }

    /// Whether this instant comes before another.
    pub fn is_before(self, other: Timestamp) -> (r: bool)
        ensures
            r == (self.instant() < other.instant()),
    {
        proof {
            use_type_invariant(&self);
            use_type_invariant(&other);
        }
        self.secs < other.secs || (self.secs == other.secs && self.nanos < other.nanos)
    }
}

/// The instant so many seconds later, as far as the calendar goes.
pub open spec fn later(instant: int, secs: int) -> int {
    let last = (LAST_SECOND + 1) * 1_000_000_000 - 1;
    if instant + secs * 1_000_000_000 > last {
        last
    } else {
        instant + secs * 1_000_000_000
    }
}

/// The instant so many seconds earlier, as far as the calendar goes.
pub open spec fn earlier(instant: int, secs: int) -> int {
    let first = FIRST_SECOND * 1_000_000_000;
    if instant - secs * 1_000_000_000 < first {
        first
    } else {
        instant - secs * 1_000_000_000
    }
}

/// How often `unit` goes into `n`, towards zero.
pub open spec fn whole(n: int, unit: int) -> int {
    if n >= 0 {
        n / unit
    } else {
        -((-n) / unit)
    }
}

/// Seconds that are added move an instant on by just as much, as far as the
/// calendar goes, and never past its end; those taken away move it back.
pub proof fn law_seconds_move_an_instant(instant: int, secs: int)
    requires
        secs >= 0,
        FIRST_SECOND * 1_000_000_000 <= instant < (LAST_SECOND + 1) * 1_000_000_000,
    ensures
        instant <= later(instant, secs) < (LAST_SECOND + 1) * 1_000_000_000,
        later(instant, secs) - instant <= secs * 1_000_000_000,
        later(instant, secs) < (LAST_SECOND + 1) * 1_000_000_000 - 1 ==> later(instant, secs)
            - instant == secs * 1_000_000_000,
        FIRST_SECOND * 1_000_000_000 <= earlier(instant, secs) <= instant,
        instant - earlier(instant, secs) <= secs * 1_000_000_000,
        earlier(instant, secs) > FIRST_SECOND * 1_000_000_000 ==> instant - earlier(instant, secs)
            == secs * 1_000_000_000,
{
}

/// Whole units of a span: what is left over is less than a unit, and counts for
/// nothing in either direction.
pub proof fn law_whole_units(n: int, unit: int)
    requires
        unit > 0,
    ensures
        n >= 0 ==> whole(n, unit) * unit <= n < (whole(n, unit) + 1) * unit,
        n <= 0 ==> (whole(n, unit) - 1) * unit < n <= whole(n, unit) * unit,
        whole(-n, unit) == -whole(n, unit),
{
    lemma_quotient(n, unit);
    lemma_quotient(-n, unit);
}

proof fn lemma_quotient(n: int, unit: int)
    requires
        unit > 0,
    ensures
        n >= 0 ==> (n / unit) * unit <= n < (n / unit + 1) * unit,
        n >= 0 ==> (-(n / unit) - 1) * unit < -n <= -(n / unit) * unit,
{
    let q = n / unit;
    let r = n % unit;
    assert(n == unit * q + r && 0 <= r < unit) by (nonlinear_arith)
        requires
            unit > 0,
            q == n / unit,
            r == n % unit,
    ;
    assert(q * unit <= n < (q + 1) * unit && (-q - 1) * unit < -n <= -q * unit)
        by (nonlinear_arith)
        requires
            n == unit * q + r,
            0 <= r < unit,
    ;
}

} // verus!
