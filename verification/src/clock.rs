//! Moments in time, and how they are written and read.

use vstd::prelude::*;

verus! {

/// A moment: seconds since the Unix epoch and nanoseconds of that second. A leap
/// second is the second before it with a billion nanoseconds or more.
#[derive(Clone, Copy)]
pub struct Instant {
    pub secs: i64,
    pub nanos: u32,
}

impl View for Instant {
    type V = Instant;

    open spec fn view(&self) -> Instant {
        *self
    }
}

impl Instant {
    /// Whether this moment comes after `other`.
    pub open spec fn later_than(self, other: Instant) -> bool {
        self.secs > other.secs || self.secs == other.secs && self.nanos > other.nanos
    }

    pub fn after(&self, other: &Instant) -> (r: bool)
        ensures
            r == self.later_than(*other),
    {
        self.secs > other.secs || self.secs == other.secs && self.nanos > other.nanos
    }

    /// The nanoseconds between the Unix epoch and this moment.
    pub open spec fn total(self) -> int {
        self.secs * 1_000_000_000 + self.nanos
    }

    /// Whether the moment lies in no leap second.
    pub open spec fn plain(self) -> bool {
        self.nanos < 1_000_000_000
    }
}

/// The moment in an optional pair of seconds and nanoseconds.
pub open spec fn instant(pair: Option<(i64, u32)>) -> Option<Instant> {
    match pair {
        Some(pair) => Some(Instant { secs: pair.0, nanos: pair.1 }),
        None => None,
    }
}

/// `chrono::Utc::now`: the present moment, which lies in no leap second. What moment
/// it is rests on the machine's clock.
#[verifier::external_body]
pub(crate) fn now() -> (r: Instant)
    ensures
        r.plain(),
{
    let now = chrono::Utc::now();
    Instant { secs: now.timestamp(), nanos: now.timestamp_subsec_nanos() }
}

/// The pattern of an HTTP date.
pub const HTTP_DATE: &'static str = "%a, %d %b %Y %H:%M:%S GMT";

/// The pattern of a moment with microseconds and the zone `Z`.
pub const MICROS_DATE: &'static str = "%Y-%m-%dT%H:%M:%S%.6fZ";

/// A moment as `chrono` writes it by a pattern; no text where the moment is out of its range.
pub uninterp spec fn patterned_date(secs: i64, nanos: u32, pattern: Seq<char>) -> Seq<char>;

/// `chrono::DateTime::format`. It is asked only for the patterns that are used here, since it
/// panics on one that is none.
#[verifier::external_body]
fn format_pattern(secs: i64, nanos: u32, pattern: &str) -> (r: String)
    requires
        pattern@ == HTTP_DATE@ || pattern@ == MICROS_DATE@,
    ensures
        r@ == patterned_date(secs, nanos, pattern@),
{
    let at = chrono::DateTime::<chrono::Utc>::from_timestamp(secs, nanos);
    at.map(|at| at.format(pattern).to_string()).unwrap_or_default()
}

/// A moment in the form of an HTTP date.
pub open spec fn http_date(secs: i64, nanos: u32) -> Seq<char> {
    patterned_date(secs, nanos, HTTP_DATE@)
}

pub fn format_last_modified_at(at: &Instant) -> (r: String)
    ensures
        r@ == http_date(at.secs, at.nanos),
{
    format_pattern(at.secs, at.nanos, HTTP_DATE)
}

/// A moment with microseconds and the zone `Z`.
pub open spec fn micros_date(secs: i64, nanos: u32) -> Seq<char> {
    patterned_date(secs, nanos, MICROS_DATE@)
}

pub fn format_micros(secs: i64, nanos: u32) -> (r: String)
    ensures
        r@ == micros_date(secs, nanos),
{
    format_pattern(secs, nanos, MICROS_DATE)
}

/// A moment as `chrono` writes it in RFC 3339 with milliseconds and the zone `Z`; no
/// text where the moment is out of its range.
pub uninterp spec fn millis_date(secs: i64, nanos: u32) -> Seq<char>;

/// `chrono::DateTime::to_rfc3339_opts` with milliseconds and `Z`.
#[verifier::external_body]
pub(crate) fn format_millis(secs: i64, nanos: u32) -> (r: String)
    ensures
        r@ == millis_date(secs, nanos),
{
    let at = chrono::DateTime::<chrono::Utc>::from_timestamp(secs, nanos);
    at.map(|at| at.to_rfc3339_opts(chrono::SecondsFormat::Millis, true)).unwrap_or_default()
}

/// The moment that a text gives in the form of RFC 2822, as `chrono` reads it.
pub uninterp spec fn rfc2822_moment(text: Seq<char>) -> Option<(i64, u32)>;

/// `chrono::DateTime::parse_from_rfc2822`.
#[verifier::external_body]
fn parse_rfc2822(text: &str) -> (r: Option<(i64, u32)>)
    ensures
        r == rfc2822_moment(text@),
{
    let at = chrono::DateTime::parse_from_rfc2822(text).ok();
    at.map(|at| (at.timestamp(), at.timestamp_subsec_nanos()))
}

/// The moment that a text gives in the form of RFC 3339, as `chrono` reads it.
pub uninterp spec fn rfc3339_moment(text: Seq<char>) -> Option<(i64, u32)>;

/// `chrono::DateTime::parse_from_rfc3339`.
#[verifier::external_body]
fn parse_rfc3339(text: &str) -> (r: Option<(i64, u32)>)
    ensures
        r == rfc3339_moment(text@),
{
    let at = chrono::DateTime::parse_from_rfc3339(text).ok();
    at.map(|at| (at.timestamp(), at.timestamp_subsec_nanos()))
}

/// The moment that a text gives in a form of `chrono`'s patterns.
pub uninterp spec fn patterned_moment(text: Seq<char>, pattern: Seq<char>) -> Option<(i64, u32)>;

/// `chrono::DateTime::parse_from_str`.
#[verifier::external_body]
fn parse_pattern(text: &str, pattern: &str) -> (r: Option<(i64, u32)>)
    ensures
        r == patterned_moment(text@, pattern@),
{
    let at = chrono::DateTime::parse_from_str(text, pattern).ok();
    at.map(|at| (at.timestamp(), at.timestamp_subsec_nanos()))
}

fn moment(pair: Option<(i64, u32)>) -> (r: Option<Instant>)
    ensures
        r == instant(pair),
{
    match pair {
        Some(pair) => Some(Instant { secs: pair.0, nanos: pair.1 }),
        None => None,
    }
}

pub fn read_rfc2822(text: &str) -> (r: Option<Instant>)
    ensures
        r == instant(rfc2822_moment(text@)),
{
    moment(parse_rfc2822(text))
}

pub fn read_rfc3339(text: &str) -> (r: Option<Instant>)
    ensures
        r == instant(rfc3339_moment(text@)),
{
    moment(parse_rfc3339(text))
}

pub fn read_pattern(text: &str, pattern: &str) -> (r: Option<Instant>)
    ensures
        r == instant(patterned_moment(text@, pattern@)),
{
    moment(parse_pattern(text, pattern))
}

/// The first and the last second that `chrono` can tell: the first day of the year -262143 and
/// the last of the year 262142.
pub const FIRST_SECOND: i64 = -8_334_601_228_800;

pub const LAST_SECOND: i64 = 8_210_266_876_799;

/// Whether `chrono` can tell a second.
pub open spec fn tellable(secs: int) -> bool {
    FIRST_SECOND <= secs <= LAST_SECOND
}

/// The moment that lies so many nanoseconds after the Unix epoch.
pub open spec fn moment_at(total: int) -> Instant {
    Instant { secs: (total / 1_000_000_000) as i64, nanos: (total % 1_000_000_000) as u32 }
}

/// The moment a number of milliseconds after one in a leap second, as `chrono` adds.
pub uninterp spec fn leap_shifted(secs: i64, nanos: u32, millis: i64) -> Option<(i64, u32)>;

/// The moment a number of milliseconds after another; none where `chrono` cannot tell it.
pub open spec fn shifted(at: Instant, millis: i64) -> Option<Instant> {
    if !at.plain() {
        instant(leap_shifted(at.secs, at.nanos, millis))
    } else {
        let total = at.total() + millis * 1_000_000;
        if tellable(at.secs as int) && millis != i64::MIN && tellable(total / 1_000_000_000) {
            Some(moment_at(total))
        } else {
            None
        }
    }
}

/// `chrono::DateTime::checked_add_signed` on a moment and a span from
/// `chrono::TimeDelta::try_milliseconds`. Outside leap seconds it is the sum, where the moment
/// and the sum lie in the range of `chrono`; the smallest number of milliseconds is no span.
#[verifier::external_body]
fn add_millis(secs: i64, nanos: u32, millis: i64) -> (r: Option<(i64, u32)>)
    ensures
        nanos >= 1_000_000_000 ==> r == leap_shifted(secs, nanos, millis),
        nanos < 1_000_000_000 ==> instant(r) == shifted((Instant { secs, nanos }), millis),
{
    let at = chrono::DateTime::<chrono::Utc>::from_timestamp(secs, nanos)?;
    let at = at.checked_add_signed(chrono::TimeDelta::try_milliseconds(millis)?)?;
    Some((at.timestamp(), at.timestamp_subsec_nanos()))
}

/// The moment `millis` milliseconds later, where there is one.
pub fn later_by(at: &Instant, millis: i64) -> (r: Option<Instant>)
    ensures
        r == shifted(*at, millis),
        at.plain() ==> (r matches Some(then) ==> then.plain() && then.total() == at.total() + millis
            * 1_000_000),
{
    moment(add_millis(at.secs, at.nanos, millis))
}

/// The seconds and further nanoseconds from the second moment to the first, of which one lies
/// in a leap second, as `chrono` measures them; none where a moment is out of its range.
pub uninterp spec fn leap_distance(secs: i64, nanos: u32, secs2: i64, nanos2: u32) -> Option<
    (i64, i32),
>;

/// `chrono::DateTime::signed_duration_since`, as whole seconds and the nanoseconds that are
/// left, both with the sign of the span. Outside leap seconds the span is the difference, where
/// both moments lie in the range of `chrono`.
#[verifier::external_body]
fn measure(secs: i64, nanos: u32, secs2: i64, nanos2: u32) -> (r: Option<(i64, i32)>)
    ensures
        nanos >= 1_000_000_000 || nanos2 >= 1_000_000_000 ==> r == leap_distance(
            secs,
            nanos,
            secs2,
            nanos2,
        ),
        nanos < 1_000_000_000 && nanos2 < 1_000_000_000 ==> match r {
            Some(d) => tellable(secs as int) && tellable(secs2 as int) && -1_000_000_000 < d.1
                < 1_000_000_000 && (d.0 > 0 ==> d.1 >= 0) && (d.0 < 0 ==> d.1 <= 0) && d.0
                * 1_000_000_000 + d.1 == (secs - secs2) * 1_000_000_000 + nanos - nanos2,
            None => !tellable(secs as int) || !tellable(secs2 as int),
        },
{
    let a = chrono::DateTime::<chrono::Utc>::from_timestamp(secs, nanos)?;
    let b = chrono::DateTime::<chrono::Utc>::from_timestamp(secs2, nanos2)?;
    let d = a.signed_duration_since(b);
    Some((d.num_seconds(), d.subsec_nanos()))
}

/// Whether two moments are more than `minutes` apart. Moments that cannot be measured are.
pub open spec fn apart(a: Instant, b: Instant, minutes: int) -> bool {
    if a.plain() && b.plain() {
        !tellable(a.secs as int) || !tellable(b.secs as int) || a.total() - b.total() > minutes
            * 60_000_000_000 || b.total() - a.total() > minutes * 60_000_000_000
    } else {
        match leap_distance(a.secs, a.nanos, b.secs, b.nanos) {
            Some(d) => d.0 > minutes * 60 || d.0 == minutes * 60 && d.1 > 0 || d.0 < -minutes * 60
                || d.0 == -minutes * 60 && d.1 < 0,
            None => true,
        }
    }
}

pub fn further_apart(a: &Instant, b: &Instant, minutes: u32) -> (r: bool)
    requires
        minutes > 0,
    ensures
        r == apart(*a, *b, minutes as int),
{
    let limit: i64 = (minutes as i64) * 60;
    match measure(a.secs, a.nanos, b.secs, b.nanos) {
        Some(d) => d.0 > limit || d.0 == limit && d.1 > 0 || d.0 < -limit || d.0 == -limit && d.1
            < 0,
        None => true,
    }
}

/// Whether less than `seconds` whole seconds have gone by from one moment to another. Of
/// moments that cannot be measured it holds.
pub open spec fn within(now: Instant, then: Instant, seconds: int) -> bool {
    if now.plain() && then.plain() {
        let gone = now.total() - then.total();
        !tellable(now.secs as int) || !tellable(then.secs as int) || (if gone >= 0 {
            gone / 1_000_000_000
        } else {
            -(-gone / 1_000_000_000)
        }) < seconds
    } else {
        match leap_distance(now.secs, now.nanos, then.secs, then.nanos) {
            Some(d) => d.0 < seconds,
            None => true,
        }
    }
}

pub fn is_within(now: &Instant, then: &Instant, seconds: i64) -> (r: bool)
    ensures
        r == within(*now, *then, seconds as int),
{
    match measure(now.secs, now.nanos, then.secs, then.nanos) {
        Some(d) => d.0 < seconds,
        None => true,
    }
}

/// A moment as `chrono` writes it in RFC 3339; no text where the moment is out of its range.
pub uninterp spec fn rfc3339_date(secs: i64, nanos: u32) -> Seq<char>;

/// `chrono::DateTime::to_rfc3339`.
#[verifier::external_body]
pub(crate) fn format_rfc3339(secs: i64, nanos: u32) -> (r: String)
    ensures
        r@ == rfc3339_date(secs, nanos),
{
    let at = chrono::DateTime::<chrono::Utc>::from_timestamp(secs, nanos);
    at.map(|at| at.to_rfc3339()).unwrap_or_default()
}

/// The whole milliseconds between the Unix epoch and a moment.
pub open spec fn millis(at: Instant) -> int {
    at.secs * 1000 + at.nanos / 1_000_000
}

pub fn millis_of(at: &Instant) -> (r: i128)
    ensures
        r == millis(*at),
{
    (at.secs as i128) * 1000 + (at.nanos / 1_000_000) as i128
}

/// `uuid::Uuid::new_v4` written with hyphens: thirty-six characters. Which ones rests
/// on chance.
#[verifier::external_body]
pub(crate) fn fresh_id() -> (r: String)
    ensures
        r@.len() == 36,
{
    uuid::Uuid::new_v4().to_string()
}

/// `uuid::Uuid::new_v4` written by `uuid::fmt::Simple`: thirty-two characters. Which ones
/// rests on chance.
#[verifier::external_body]
pub(crate) fn fresh_tag() -> (r: String)
    ensures
        r@.len() == 32,
{
    uuid::Uuid::new_v4().simple().to_string()
}

/// What a request is served with besides its own content: the moment, and
/// identifiers that no other request has.
pub struct Stamp {
    pub now: Instant,
    pub request_id: String,
    pub host_id: String,
    pub fresh_id: String,
    pub fresh_tag: String,
}

/// A stamp over characters.
pub struct StampView {
    pub now: Instant,
    pub request_id: Seq<char>,
    pub host_id: Seq<char>,
    pub fresh_id: Seq<char>,
    pub fresh_tag: Seq<char>,
}

impl View for Stamp {
    type V = StampView;

    open spec fn view(&self) -> StampView {
        StampView {
            now: self.now,
            request_id: self.request_id@,
            host_id: self.host_id@,
            fresh_id: self.fresh_id@,
            fresh_tag: self.fresh_tag@,
        }
    }
}

impl Stamp {
    /// A stamp of the present moment.
    pub fn take() -> (r: Stamp)
        ensures
            r@.now.plain(),
            r@.request_id.len() == 36,
            r@.host_id.len() == 36,
            r@.fresh_id.len() == 36,
            r@.fresh_tag.len() == 32,
    {
        Stamp {
            now: now(),
            request_id: fresh_id(),
            host_id: fresh_id(),
            fresh_id: fresh_id(),
            fresh_tag: fresh_tag(),
        }
    }
}

} // verus!
