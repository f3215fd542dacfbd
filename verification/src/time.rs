//! UTC instants as plain numbers, and the chrono arithmetic the broadcaster
//! relies on (RFC 3339 ids, token expiry, broadcast duration).
use vstd::prelude::*;

verus! {

/// Earliest Unix second a chrono UTC date-time can hold (1 January of year -262143).
pub const MIN_UNIX_SECS: i64 = -8334601228800;

/// Latest Unix second a chrono UTC date-time can hold (31 December of year 262142, 23:59:59).
pub const MAX_UNIX_SECS: i64 = 8210266876799;

/// Nanoseconds in one second.
pub const NANOS_PER_SEC: u32 = 1_000_000_000;

/// Largest magnitude, in seconds, of a chrono `TimeDelta` built from whole seconds.
pub const MAX_DELTA_SECS: i64 = 9223372036854775;

/// An instant that chrono can represent: in range, with a sub-second part below two
/// seconds, where a part of one second or more (a leap second) only follows `:59`.
pub open spec fn valid_instant(secs: int, nanos: int) -> bool {
    &&& MIN_UNIX_SECS <= secs <= MAX_UNIX_SECS
    &&& 0 <= nanos < 2 * NANOS_PER_SEC
    &&& nanos >= NANOS_PER_SEC ==> secs % 60 == 59
}

/// A UTC instant: Unix seconds and the nanoseconds past them (leap seconds carry
/// a nanosecond part of one second or more, as in chrono).
#[derive(Clone, Copy, Debug, PartialEq, Eq)]
pub struct Timestamp {
    secs: i64,
    nanos: u32,
}

/// Instants ordered as time runs: by seconds, then by the sub-second part.
pub open spec fn instant_le(a: Timestamp, b: Timestamp) -> bool {
    a.unix_secs() < b.unix_secs() || (a.unix_secs() == b.unix_secs() && a.subsec_nanos()
        <= b.subsec_nanos())
}

/// The instant reached from (`secs`, `nanos`) by moving `k` whole seconds, the way
/// chrono moves a date-time: a leap second is first folded into the next second.
pub open spec fn shifted(secs: int, nanos: int, k: int) -> (int, int) {
    if nanos >= NANOS_PER_SEC {
        if k > 0 {
            (secs + k, nanos - NANOS_PER_SEC)
        } else if k < 0 {
            (secs + 1 + k, nanos - NANOS_PER_SEC)
        } else {
            (secs, nanos)
        }
    } else {
        (secs + k, nanos)
    }
}

/// Nanoseconds from the instant (`s2`, `f2`) to the instant (`s1`, `f1`) as chrono
/// measures them, leap seconds counted where they fall between the two times of day.
pub open spec fn elapsed_nanos(s1: int, f1: int, s2: int, f2: int) -> int {
    let tod1 = s1 % 86400;
    let tod2 = s2 % 86400;
    let adj: int = if tod1 > tod2 && f2 >= NANOS_PER_SEC {
        1
    } else if tod1 < tod2 && f1 >= NANOS_PER_SEC {
        -1
    } else {
        0
    };
    (s1 - s2 + adj) * NANOS_PER_SEC + (f1 - f2)
}

/// Whole seconds in a span of nanoseconds, rounded toward zero.
pub open spec fn whole_seconds(d: int) -> int {
    if d >= 0 {
        d / (NANOS_PER_SEC as int)
    } else {
        -((-d) / (NANOS_PER_SEC as int))
    }
}

/// Moving the instant (`secs`, `nanos`) by `k` whole seconds stays within chrono's range
/// (only the bound in the direction of the move can be crossed).
pub open spec fn move_in_range(secs: int, nanos: int, k: int) -> bool {
    &&& -MAX_DELTA_SECS <= k <= MAX_DELTA_SECS
    &&& k > 0 ==> shifted(secs, nanos, k).0 <= MAX_UNIX_SECS
    &&& k < 0 ==> MIN_UNIX_SECS <= shifted(secs, nanos, k).0
}

/// The RFC 3339 text chrono writes for the UTC instant (`secs`, `nanos`).
pub uninterp spec fn spec_rfc3339(secs: i64, nanos: u32) -> Seq<char>;

/// Calls `chrono::DateTime::<Utc>::from_timestamp` and then `DateTime::to_rfc3339`.
/// Claimed: `from_timestamp` yields a date-time for every valid instant, and the text is
/// a function of the instant alone (UTC offset, no locale).
#[verifier::external_body]
fn chrono_rfc3339(secs: i64, nanos: u32) -> (text: String)
    requires
        valid_instant(secs as int, nanos as int),
    ensures
        text@ == spec_rfc3339(secs, nanos),
{
    chrono::DateTime::<chrono::Utc>::from_timestamp(secs, nanos).unwrap().to_rfc3339()
}

/// Calls `chrono::DateTime::<Utc>::from_timestamp` and `DateTime + TimeDelta::seconds(k)`.
/// Claimed, as chrono's source shows: the sum is the instant `shifted(secs, nanos, k)`; it
/// is only taken where `TimeDelta::seconds` accepts `k` and the sum stays in range (chrono
/// panics otherwise).
#[verifier::external_body]
fn chrono_add_seconds(secs: i64, nanos: u32, k: i64) -> (r: (i64, u32))
    requires
        valid_instant(secs as int, nanos as int),
        -MAX_DELTA_SECS <= k <= MAX_DELTA_SECS,
        MIN_UNIX_SECS <= shifted(secs as int, nanos as int, k as int).0 <= MAX_UNIX_SECS,
    ensures
        r.0 as int == shifted(secs as int, nanos as int, k as int).0,
        r.1 as int == shifted(secs as int, nanos as int, k as int).1,
{
    let t = chrono::DateTime::<chrono::Utc>::from_timestamp(secs, nanos).unwrap()
        + chrono::TimeDelta::seconds(k);
    (t.timestamp(), t.timestamp_subsec_nanos())
}

/// Calls `chrono::DateTime::<Utc>::from_timestamp` and `DateTime - TimeDelta::seconds(k)`.
/// Claimed, as chrono's source shows: the difference is the instant
/// `shifted(secs, nanos, -k)`; it is only taken where `TimeDelta::seconds` accepts `k` and
/// the difference stays in range (chrono panics otherwise).
#[verifier::external_body]
fn chrono_sub_seconds(secs: i64, nanos: u32, k: i64) -> (r: (i64, u32))
    requires
        valid_instant(secs as int, nanos as int),
        -MAX_DELTA_SECS <= k <= MAX_DELTA_SECS,
        MIN_UNIX_SECS <= shifted(secs as int, nanos as int, -k).0 <= MAX_UNIX_SECS,
    ensures
        r.0 as int == shifted(secs as int, nanos as int, -k).0,
        r.1 as int == shifted(secs as int, nanos as int, -k).1,
{
    let t = chrono::DateTime::<chrono::Utc>::from_timestamp(secs, nanos).unwrap()
        - chrono::TimeDelta::seconds(k);
    (t.timestamp(), t.timestamp_subsec_nanos())
}

/// Calls `chrono::DateTime::<Utc>::from_timestamp` on both instants, subtracts them
/// (`DateTime - DateTime`) and takes `TimeDelta::num_seconds`. Claimed, as chrono's source
/// shows: the result is the elapsed nanoseconds rounded toward zero to whole seconds.
#[verifier::external_body]
fn chrono_elapsed_seconds(now_secs: i64, now_nanos: u32, start_secs: i64, start_nanos: u32) -> (r:
    i64)
    requires
        valid_instant(now_secs as int, now_nanos as int),
        valid_instant(start_secs as int, start_nanos as int),
    ensures
        r as int == whole_seconds(
            elapsed_nanos(now_secs as int, now_nanos as int, start_secs as int, start_nanos as int),
        ),
{
    let now = chrono::DateTime::<chrono::Utc>::from_timestamp(now_secs, now_nanos).unwrap();
    let start = chrono::DateTime::<chrono::Utc>::from_timestamp(start_secs, start_nanos).unwrap();
    (now - start).num_seconds()
}

impl Timestamp {
    #[verifier::type_invariant]
    spec fn well_formed(self) -> bool {
        valid_instant(self.secs as int, self.nanos as int)
    }

    /// Unix seconds of the instant.
    pub closed spec fn unix_secs(self) -> i64 {
        self.secs
    }

    /// Nanoseconds past `unix_secs` (one second or more during a leap second).
    pub closed spec fn subsec_nanos(self) -> u32 {
        self.nanos
    }

    /// The instant `secs` seconds and `nanos` nanoseconds after the Unix epoch, or `None`
    /// where chrono cannot represent it.
    pub fn new(secs: i64, nanos: u32) -> (r: Option<Timestamp>)
        ensures
            r is Some <==> valid_instant(secs as int, nanos as int),
            r matches Some(t) ==> t.unix_secs() == secs && t.subsec_nanos() == nanos,
    {
        if MIN_UNIX_SECS <= secs && secs <= MAX_UNIX_SECS && nanos < 2 * NANOS_PER_SEC && (nanos
            < NANOS_PER_SEC || ((secs - MIN_UNIX_SECS) as u64) % 60 == 59) {
            Some(Timestamp { secs, nanos })
        } else {
            None
        }
    }

    /// Unix seconds of the instant.
    pub fn secs(&self) -> (r: i64)
        ensures
            r == self.unix_secs(),
    {
        self.secs
    }

    /// Nanoseconds past the Unix second.
    pub fn nanos(&self) -> (r: u32)
        ensures
            r == self.subsec_nanos(),
    {
        self.nanos
    }

    /// The seconds and nanoseconds of the instant, which chrono can represent.
    pub fn parts(&self) -> (r: (i64, u32))
        ensures
            r.0 == self.unix_secs(),
            r.1 == self.subsec_nanos(),
            valid_instant(r.0 as int, r.1 as int),
    {
        proof {
            use_type_invariant(self);
        }
        (self.secs, self.nanos)
    }

    /// Whether `self` comes no later than `other`.
    pub fn le(&self, other: &Timestamp) -> (r: bool)
        ensures
            r == instant_le(*self, *other),
    {
        self.secs < other.secs || (self.secs == other.secs && self.nanos <= other.nanos)
    }

    /// The RFC 3339 text of the instant, as chrono writes it.
    pub fn to_rfc3339(&self) -> (text: String)
        ensures
            text@ == spec_rfc3339(self.unix_secs(), self.subsec_nanos()),
    {
        proof {
            use_type_invariant(self);
        }
        chrono_rfc3339(self.secs, self.nanos)
    }

    /// The instant `k` whole seconds later, as chrono adds a `TimeDelta`.
    pub fn plus_seconds(&self, k: i64) -> (r: Timestamp)
        requires
            move_in_range(self.unix_secs() as int, self.subsec_nanos() as int, k as int),
        ensures
            r.unix_secs() as int == shifted(
                self.unix_secs() as int,
                self.subsec_nanos() as int,
                k as int,
            ).0,
            r.subsec_nanos() as int == shifted(
                self.unix_secs() as int,
                self.subsec_nanos() as int,
                k as int,
            ).1,
    {
        proof {
            use_type_invariant(self);
        }
        let (s, n) = chrono_add_seconds(self.secs, self.nanos, k);
        proof {
            assert(s % 60 == 59 || n < NANOS_PER_SEC);
        }
        Timestamp { secs: s, nanos: n }
    }

    /// The instant `k` whole seconds earlier, as chrono subtracts a `TimeDelta`.
    pub fn minus_seconds(&self, k: i64) -> (r: Timestamp)
        requires
            move_in_range(self.unix_secs() as int, self.subsec_nanos() as int, -k),
        ensures
            r.unix_secs() as int == shifted(self.unix_secs() as int, self.subsec_nanos() as int, -k).0,
            r.subsec_nanos() as int == shifted(
                self.unix_secs() as int,
                self.subsec_nanos() as int,
                -k,
            ).1,
    {
        proof {
            use_type_invariant(self);
        }
        let (s, n) = chrono_sub_seconds(self.secs, self.nanos, k);
        Timestamp { secs: s, nanos: n }
    }

    /// Whole seconds from `start` to `self`, rounded toward zero, as chrono's
    /// `(self - start).num_seconds()`.
    pub fn seconds_since(&self, start: &Timestamp) -> (r: i64)
        ensures
            r as int == whole_seconds(
                elapsed_nanos(
                    self.unix_secs() as int,
                    self.subsec_nanos() as int,
                    start.unix_secs() as int,
                    start.subsec_nanos() as int,
                ),
            ),
    {
        proof {
            use_type_invariant(self);
            use_type_invariant(start);
        }
        chrono_elapsed_seconds(self.secs, self.nanos, start.secs, start.nanos)
    }
}

/// Instants are ordered as time runs: counting two billion steps to a second (so that
/// a leap second's extra second fits inside the second it extends), `a` is no later than
/// `b` exactly when its count is no larger. So the order is total, and two instants
/// each no later than the other are the same instant.
pub proof fn lemma_instant_order(a: Timestamp, b: Timestamp)
    requires
        valid_instant(a.unix_secs() as int, a.subsec_nanos() as int),
        valid_instant(b.unix_secs() as int, b.subsec_nanos() as int),
    ensures
        instant_le(a, b) <==> a.unix_secs() * 2_000_000_000 + a.subsec_nanos()
            <= b.unix_secs() * 2_000_000_000 + b.subsec_nanos(),
        instant_le(a, b) || instant_le(b, a),
        instant_le(a, b) && instant_le(b, a) ==> a == b,
{
    if a.unix_secs() < b.unix_secs() {
        assert(a.unix_secs() * 2_000_000_000 + 2_000_000_000 <= b.unix_secs() * 2_000_000_000)
            by (nonlinear_arith)
            requires
                a.unix_secs() < b.unix_secs(),
        ;
    } else if a.unix_secs() > b.unix_secs() {
        assert(b.unix_secs() * 2_000_000_000 + 2_000_000_000 <= a.unix_secs() * 2_000_000_000)
            by (nonlinear_arith)
            requires
                a.unix_secs() > b.unix_secs(),
        ;
    }
}

} // verus!
