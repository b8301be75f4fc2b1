//! Wall-clock instants of receipts.

use vstd::prelude::*;

verus! {

/// The RFC 3339 text that `chrono` writes for the UTC instant `secs`
/// seconds and `nanos` nanoseconds after the Unix epoch, or nothing when
/// `chrono` cannot represent that instant.
pub uninterp spec fn rfc3339_text(secs: i64, nanos: u32) -> Option<Seq<char>>;

/// `chrono::DateTime::<Utc>::from_timestamp` followed by
/// `to_rfc3339_opts(SecondsFormat::AutoSi, true)`, the rendering that
/// `DateTime`'s `Serialize` impl writes. `from_timestamp` yields nothing for
/// an out-of-range second count or an invalid nanosecond part; the text is a
/// function of the two numbers alone and is named `rfc3339_text`.
#[verifier::external_body]
fn chrono_rfc3339(secs: i64, nanos: u32) -> (r: Option<String>)
    ensures
        r matches Some(s) ==> rfc3339_text(secs, nanos) == Some(s@),
        r is None ==> rfc3339_text(secs, nanos) is None,
{
    match chrono::DateTime::from_timestamp(secs, nanos) {
        Some(dt) => Some(dt.to_rfc3339_opts(chrono::SecondsFormat::AutoSi, true)),
        None => None,
    }
}

/// The `Display` text that `chrono` writes for the UTC instant `secs`
/// seconds and `nanos` nanoseconds after the Unix epoch (`2015-05-15
/// 00:00:00 UTC`), or nothing when `chrono` cannot represent that instant.
pub uninterp spec fn utc_display_text(secs: i64, nanos: u32) -> Option<Seq<char>>;

/// `chrono::DateTime::<Utc>::from_timestamp` followed by `to_string()`
/// (the `Display` impl: date, time, a space, `UTC`). The text is a function
/// of the two numbers alone and is named `utc_display_text`; it exists
/// exactly when `from_timestamp` succeeds, as the RFC 3339 rendering does.
#[verifier::external_body]
fn chrono_display(secs: i64, nanos: u32) -> (r: Option<String>)
    ensures
        r matches Some(s) ==> utc_display_text(secs, nanos) == Some(s@),
        r is None ==> utc_display_text(secs, nanos) is None,
        r is Some <==> rfc3339_text(secs, nanos) is Some,
{
    match chrono::DateTime::from_timestamp(secs, nanos) {
        Some(dt) => Some(dt.to_string()),
        None => None,
    }
}

/// The system clock against the Unix epoch:
/// `std::time::SystemTime::now().duration_since(UNIX_EPOCH)`, as whole
/// seconds and sub-second nanoseconds of the distance after the epoch
/// (`Ok`) or, for a clock set before the epoch, before it (`Err`). The value
/// depends on the clock; of every outcome it holds that the nanoseconds are
/// below one second (`Duration::subsec_nanos`).
#[verifier::external_body]
fn system_clock() -> (r: Result<(u64, u32), (u64, u32)>)
    ensures
        r matches Ok(d) ==> d.1 < 1_000_000_000,
        r matches Err(d) ==> d.1 < 1_000_000_000,
{
    match std::time::SystemTime::now().duration_since(std::time::UNIX_EPOCH) {
        Ok(d) => Ok((d.as_secs(), d.subsec_nanos())),
        Err(e) => Err((e.duration().as_secs(), e.duration().subsec_nanos())),
    }
}

/// The seconds and nanoseconds since the Unix epoch that a clock reading
/// stands for (see [`Timestamp::from_clock_reading`]), when they fit and
/// `chrono` can represent them. A reading `d` before the epoch is the instant
/// `-d`: whole seconds rounded down, nanoseconds counted forward.
pub open spec fn clock_instant(reading: Result<(u64, u32), (u64, u32)>) -> Option<(i64, u32)> {
    let p: Option<(int, int)> = match reading {
        Ok((secs, nanos)) => if secs <= i64::MAX && nanos < 1_000_000_000 {
            Some((secs as int, nanos as int))
        } else {
            None
        },
        Err((secs, nanos)) => if secs < i64::MAX && nanos < 1_000_000_000 {
            if nanos == 0 {
                Some((-secs, 0))
            } else {
                Some((-secs - 1, 1_000_000_000 - nanos))
            }
        } else {
            None
        },
    };
    match p {
        Some((s, n)) => if rfc3339_text(s as i64, n as u32) is Some {
            Some((s as i64, n as u32))
        } else {
            None
        },
        None => None,
    }
}

/// `reading` is a value that a read of the system clock returned.
pub closed spec fn clock_gave(reading: Result<(u64, u32), (u64, u32)>) -> bool {
    call_ensures(system_clock, (), reading)
}

/// `t` is what [`Timestamp::now`] makes of `reading`, a value the system
/// clock returned (so its nanoseconds are below one second).
pub open spec fn clock_result(reading: Result<(u64, u32), (u64, u32)>, t: Option<Timestamp>) -> bool {
    &&& clock_gave(reading)
    &&& (reading matches Ok(d) ==> d.1 < 1_000_000_000)
    &&& (reading matches Err(d) ==> d.1 < 1_000_000_000)
    &&& (t is Some <==> clock_instant(reading) is Some)
    &&& (t matches Some(t) ==> clock_instant(reading) == Some((t.secs_spec(), t.nanos_spec())))
}

/// Instants are ordered first by whole seconds, then by nanoseconds: `a` is
/// before `b` exactly when it has fewer seconds, or as many and fewer
/// nanoseconds. So an instant with more whole seconds is never before one
/// with fewer, whatever the nanoseconds, and no instant is before itself.
pub proof fn lemma_before_orders_seconds_then_nanos(a: Timestamp, b: Timestamp)
    ensures
        a.before(b) <==> (a.secs_spec() < b.secs_spec() || (a.secs_spec() == b.secs_spec()
            && a.nanos_spec() < b.nanos_spec())),
        a.secs_spec() > b.secs_spec() ==> !a.before(b),
        !a.before(a),
        a.before(b) ==> !b.before(a),
        !a.before(b) && !b.before(a) ==> a.secs_spec() == b.secs_spec() && a.nanos_spec()
            == b.nanos_spec(),
{
}

/// A clock reading stands for the signed distance from the Unix epoch that
/// it measures: the instant's seconds and nanoseconds add up to the reading
/// (after the epoch) or to its negative (before it), with nanoseconds below
/// one second.
pub proof fn lemma_clock_instant_measures_reading(reading: Result<(u64, u32), (u64, u32)>)
    ensures
        clock_instant(reading) matches Some(p) ==> {
            &&& 0 <= p.1 < 1_000_000_000
            &&& match reading {
                Ok(d) => p.0 * 1_000_000_000 + p.1 == d.0 * 1_000_000_000 + d.1,
                Err(d) => p.0 * 1_000_000_000 + p.1 == -(d.0 * 1_000_000_000 + d.1),
            }
        },
{
}

/// A UTC instant: seconds and nanoseconds since the Unix epoch. Every value
/// is one that `chrono` can represent.
#[derive(Clone, Copy, Debug, PartialEq, Eq)]
pub struct Timestamp {
    secs: i64,
    nanos: u32,
}

impl Timestamp {
    /// Every timestamp renders: chrono can represent it.
    #[verifier::type_invariant]
    pub open spec fn renders(self) -> bool {
        self.text() is Some
    }

    /// Whole seconds since the Unix epoch.
    pub closed spec fn secs_spec(self) -> i64 {
        self.secs
    }

    /// Nanoseconds past the whole second.
    pub closed spec fn nanos_spec(self) -> u32 {
        self.nanos
    }

    /// The RFC 3339 rendering of this instant.
    pub open spec fn text(self) -> Option<Seq<char>> {
        rfc3339_text(self.secs_spec(), self.nanos_spec())
    }

    /// Strictly earlier than `other`.
    pub open spec fn before(self, other: Timestamp) -> bool {
        ||| self.secs_spec() < other.secs_spec()
        ||| (self.secs_spec() == other.secs_spec() && self.nanos_spec() < other.nanos_spec())
    }

    /// The instant `secs` seconds and `nanos` nanoseconds after the epoch,
    /// when `chrono` can represent it.
    pub fn from_unix(secs: i64, nanos: u32) -> (r: Option<Timestamp>)
        ensures
            r is Some <==> rfc3339_text(secs, nanos) is Some,
            r matches Some(t) ==> t.secs_spec() == secs && t.nanos_spec() == nanos,
    {
        match chrono_rfc3339(secs, nanos) {
            Some(_) => Some(Timestamp { secs, nanos }),
            None => None,
        }
    }

    /// The instant of a clock reading: `Ok` holds the whole seconds and
    /// nanoseconds after the Unix epoch, `Err` those before it (as
    /// `SystemTime::duration_since` reports them). It is `None` when the
    /// reading does not fit an `i64` second count with nanoseconds below one
    /// second, or when `chrono` cannot represent the instant.
    pub fn from_clock_reading(reading: Result<(u64, u32), (u64, u32)>) -> (t: Option<Timestamp>)
        ensures
            t is Some <==> clock_instant(reading) is Some,
            t matches Some(t) ==> clock_instant(reading) == Some((t.secs_spec(), t.nanos_spec())),
    {
        match reading {
            Ok((secs, nanos)) => {
                if secs > 9_223_372_036_854_775_807u64 || nanos >= 1_000_000_000 {
                    return None;
                }
                Timestamp::from_unix(secs as i64, nanos)
            },
            Err((secs, nanos)) => {
                if secs >= 9_223_372_036_854_775_807u64 || nanos >= 1_000_000_000 {
                    return None;
                }
                let whole: i64 = -(secs as i64);
                if nanos == 0 {
                    Timestamp::from_unix(whole, 0)
                } else {
                    Timestamp::from_unix(whole - 1, 1_000_000_000 - nanos)
                }
            },
        }
    }

    /// The current wall-clock instant (one set before the Unix epoch
    /// included): [`Self::from_clock_reading`] of what the system clock
    /// reads, or nothing when `chrono` cannot represent that reading.
    pub fn now() -> (t: Option<Timestamp>)
        ensures
            exists|reading: Result<(u64, u32), (u64, u32)>|
                #[trigger] clock_result(reading, t),
    {
        let reading = system_clock();
        assert(clock_gave(reading));
        let t = Self::from_clock_reading(reading);
        assert(clock_result(reading, t));
        t
    }

    /// Whole seconds since the Unix epoch.
    pub fn secs(&self) -> (s: i64)
        ensures
            s == self.secs_spec(),
    {
        self.secs
    }

    /// Nanoseconds past the whole second.
    pub fn nanos(&self) -> (n: u32)
        ensures
            n == self.nanos_spec(),
    {
        self.nanos
    }

    /// Is this instant strictly earlier than `other`?
    pub fn is_before(&self, other: &Timestamp) -> (b: bool)
        ensures
            b == self.before(*other),
            b == (self.secs_spec() < other.secs_spec() || (self.secs_spec() == other.secs_spec()
                && self.nanos_spec() < other.nanos_spec())),
    {
        self.secs < other.secs || (self.secs == other.secs && self.nanos < other.nanos)
    }

    /// The human-readable rendering of this instant (`chrono`'s `Display`).
    pub open spec fn display_text(self) -> Option<Seq<char>> {
        utc_display_text(self.secs_spec(), self.nanos_spec())
    }

    /// The human-readable rendering of this instant, as `chrono` displays
    /// it (`2015-05-15 00:00:00 UTC`).
    pub fn display(&self) -> (s: String)
        ensures
            self.display_text() == Some(s@),
    {
        proof {
            use_type_invariant(self);
        }
        match chrono_display(self.secs, self.nanos) {
            Some(s) => s,
            None => String::new(),
        }
    }

    /// The RFC 3339 rendering of this instant (as `chrono` serializes it).
    pub fn rfc3339(&self) -> (s: String)
        ensures
            self.text() == Some(s@),
    {
        proof {
            use_type_invariant(self);
        }
        match chrono_rfc3339(self.secs, self.nanos) {
            Some(s) => s,
            None => String::new(),
        }
    }
}

} // verus!
