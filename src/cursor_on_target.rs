//! Rendering of a unit record as a single-line situational-awareness (cursor-on-target)
//! XML event.

use vstd::prelude::*;

use crate::atomic_event::{type_code, AtomicEvent};
use crate::mission_time::{
    decimal, digit_char, is_calendar_date, parsed_date, lemma_minute_after_adds_sixty_seconds, minute_after, one_minute_later,
    rfc3339_text, seconds_of, two_digits, year_text, zero_padded, MissionTime,
    MissionTimeCalculator, TimeError,
};
use crate::unit::DcsUnit;

verus! {

/// `<point .../>` with the given coordinate texts.
pub open spec fn point_xml(lat: Seq<char>, lon: Seq<char>, hae: Seq<char>) -> Seq<char> {
    "<point lat=\""@ + lat + "\" lon=\""@ + lon + "\" ce=\"0.0\" hae=\""@ + hae
        + "\" le=\"0.0\"/>"@
}

/// `<detail>...</detail>` naming the callsign.
pub open spec fn detail_xml(callsign: Seq<char>) -> Seq<char> {
    "<detail><contact callsign=\""@ + callsign + "\"/></detail>"@
}

/// The whole event document around its point and detail elements.
pub open spec fn event_xml(
    uid: Seq<char>,
    kind: Seq<char>,
    time: Seq<char>,
    stale: Seq<char>,
    point: Seq<char>,
    detail: Seq<char>,
) -> Seq<char> {
    "<?xml version=\"1.0\" standalone=\"yes\"?><event version=\"2.0\" uid=\""@ + uid
        + "\" type=\""@ + kind + "\" how=\"m-g\" time=\""@ + time + "\" start=\""@ + time
        + "\" stale=\""@ + stale + "\">"@ + point + detail + "</event>"@
}

/// The event of `unit` stamped `time` and going stale at `stale`.
pub open spec fn unit_event_xml(unit: DcsUnit, time: Seq<char>, stale: Seq<char>) -> Seq<char> {
    event_xml(
        unit.unit_name@,
        type_code(unit),
        time,
        stale,
        point_xml(unit.position.latitude@, unit.position.longitude@, unit.position.altitude@),
        detail_xml(unit.unit_name@),
    )
}

/// What rendering `unit` at the mission instant `t` yields: the event stamped `t` that
/// goes stale one minute later.
pub open spec fn rendered_at(unit: DcsUnit, t: MissionTime) -> Result<Seq<char>, TimeError> {
    match minute_after(t) {
        Some(stale) => Ok(unit_event_xml(unit, rfc3339_text(t), rfc3339_text(stale))),
        None => Err(TimeError::OutOfRange),
    }
}

/// What rendering `unit` yields, at its own mission timestamp.
pub open spec fn rendered(unit: DcsUnit) -> Result<Seq<char>, TimeError> {
    match unit.mission_time() {
        Ok(t) => rendered_at(unit, t),
        Err(e) => Err(e),
    }
}

pub open spec fn is_digit(c: char) -> bool {
    c == '0' || c == '1' || c == '2' || c == '3' || c == '4' || c == '5' || c == '6' || c == '7'
        || c == '8' || c == '9'
}

/// A character of `[0-9T:-]`.
pub open spec fn is_stamp_char(c: char) -> bool {
    is_digit(c) || c == 'T' || c == ':' || c == '-'
}

pub open spec fn all_stamp_chars(s: Seq<char>) -> bool {
    forall|i: int| 0 <= i < s.len() ==> is_stamp_char(#[trigger] s[i])
}

/// Text of the form `[0-9T:-]+Z`.
pub open spec fn is_stamp_text(s: Seq<char>) -> bool {
    &&& s.len() >= 2
    &&& s.last() == 'Z'
    &&& all_stamp_chars(s.drop_last())
}

/// An event-type code of the form `a-[nhf]-[AGS]`.
pub open spec fn is_type_code(k: Seq<char>) -> bool {
    &&& k.len() == 5
    &&& k[0] == 'a' && k[1] == '-' && k[3] == '-'
    &&& (k[2] == 'n' || k[2] == 'h' || k[2] == 'f')
    &&& (k[4] == 'A' || k[4] == 'G' || k[4] == 'S')
}

/// `x` is an event laid out with these parts: a quote-free uid and callsign, a type
/// code, time stamps for time (repeated as start) and stale, and point attributes
/// without a slash.
pub open spec fn event_layout(
    x: Seq<char>,
    uid: Seq<char>,
    kind: Seq<char>,
    time: Seq<char>,
    stale: Seq<char>,
    attrs: Seq<char>,
    callsign: Seq<char>,
) -> bool {
    &&& x == "<?xml version=\"1.0\" standalone=\"yes\"?><event version=\"2.0\" uid=\""@ + uid
        + "\" type=\""@ + kind + "\" how=\"m-g\" time=\""@ + time + "\" start=\""@ + time
        + "\" stale=\""@ + stale + "\"><point "@ + attrs + "/><detail><contact callsign=\""@
        + callsign + "\"/></detail></event>"@
    &&& !uid.contains('"')
    &&& is_type_code(kind)
    &&& is_stamp_text(time)
    &&& is_stamp_text(stale)
    &&& attrs.len() > 0 && !attrs.contains('/')
    &&& !callsign.contains('"')
}

pub open spec fn has_event_layout(x: Seq<char>) -> bool {
    exists|
        uid: Seq<char>,
        kind: Seq<char>,
        time: Seq<char>,
        stale: Seq<char>,
        attrs: Seq<char>,
        callsign: Seq<char>,
    | #[trigger] event_layout(x, uid, kind, time, stale, attrs, callsign)
}

proof fn lemma_concat_stamp(a: Seq<char>, b: Seq<char>)
    requires
        all_stamp_chars(a),
        all_stamp_chars(b),
    ensures
        all_stamp_chars(a + b),
{
    assert forall|i: int| 0 <= i < (a + b).len() implies is_stamp_char(#[trigger] (a + b)[i]) by {
        if i < a.len() {
            assert((a + b)[i] == a[i]);
        } else {
            assert((a + b)[i] == b[i - a.len()]);
        }
    }
}

proof fn lemma_digit_char(n: int)
    requires
        0 <= n < 10,
    ensures
        is_digit(digit_char(n)),
{
    let d = seq!['0', '1', '2', '3', '4', '5', '6', '7', '8', '9'];
    assert(d[0] == '0' && d[1] == '1' && d[2] == '2' && d[3] == '3' && d[4] == '4');
    assert(d[5] == '5' && d[6] == '6' && d[7] == '7' && d[8] == '8' && d[9] == '9');
}

proof fn lemma_two_digits(n: int)
    requires
        0 <= n < 100,
    ensures
        all_stamp_chars(two_digits(n)),
{
    lemma_digit_char(n / 10);
    lemma_digit_char(n % 10);
}

proof fn lemma_decimal(n: nat)
    ensures
        all_stamp_chars(decimal(n)),
    decreases n,
{
    if n < 10 {
        lemma_digit_char(n as int);
    } else {
        lemma_decimal(n / 10);
        lemma_digit_char((n % 10) as int);
        lemma_concat_stamp(decimal(n / 10), seq![digit_char((n % 10) as int)]);
        assert(decimal(n) =~= decimal(n / 10) + seq![digit_char((n % 10) as int)]);
    }
}

proof fn lemma_stamp_text(t: MissionTime)
    requires
        t.wf(),
        t.year <= 9999,
    ensures
        is_stamp_text(rfc3339_text(t)),
{
    let y = t.year as int;
    if 0 <= y {
        lemma_two_digits(y / 100);
        lemma_two_digits(y % 100);
        lemma_concat_stamp(two_digits(y / 100), two_digits(y % 100));
    } else {
        let digits = decimal((-y) as nat);
        lemma_decimal((-y) as nat);
        if digits.len() < 4 {
            let zeros = Seq::new((4 - digits.len()) as nat, |i: int| '0');
            assert(all_stamp_chars(zeros));
            lemma_concat_stamp(zeros, digits);
        }
        lemma_concat_stamp(seq!['-'], zero_padded(digits, 4));
    }
    let dash = seq!['-'];
    let colon = seq![':'];
    assert(all_stamp_chars(seq!['T']));
    lemma_two_digits(t.month as int);
    lemma_two_digits(t.day as int);
    lemma_two_digits(t.hour as int);
    lemma_two_digits(t.minute as int);
    lemma_two_digits(t.second as int);
    let part_a = year_text(y) + dash;
    lemma_concat_stamp(year_text(y), dash);
    let part_b = part_a + two_digits(t.month as int);
    lemma_concat_stamp(part_a, two_digits(t.month as int));
    let part_c = part_b + dash;
    lemma_concat_stamp(part_b, dash);
    let part_d = part_c + two_digits(t.day as int);
    lemma_concat_stamp(part_c, two_digits(t.day as int));
    let part_e = part_d + seq!['T'];
    lemma_concat_stamp(part_d, seq!['T']);
    let part_f = part_e + two_digits(t.hour as int);
    lemma_concat_stamp(part_e, two_digits(t.hour as int));
    let part_g = part_f + colon;
    lemma_concat_stamp(part_f, colon);
    let part_h = part_g + two_digits(t.minute as int);
    lemma_concat_stamp(part_g, two_digits(t.minute as int));
    let part_i = part_h + colon;
    lemma_concat_stamp(part_h, colon);
    let part_j = part_i + two_digits(t.second as int);
    lemma_concat_stamp(part_i, two_digits(t.second as int));
    assert(rfc3339_text(t) == part_j + seq!['Z']);
    assert((part_j + seq!['Z']).drop_last() =~= part_j);
}

proof fn lemma_slash_free(a: Seq<char>, b: Seq<char>)
    requires
        !a.contains('/'),
        !b.contains('/'),
    ensures
        !(a + b).contains('/'),
{
    if (a + b).contains('/') {
        let k = choose|k: int| 0 <= k < (a + b).len() && (a + b)[k] == '/';
        if k < a.len() {
            assert(a[k] == (a + b)[k]);
        } else {
            assert(b[k - a.len()] == (a + b)[k]);
        }
    }
}

/// Every event rendered from a record whose mission date is a calendar date has the fixed
/// one-line layout: the uid and callsign are the unit's name, the type code is
/// `a-[nhf]-[AGS]`, the time (repeated as start) and stale stamps are `[0-9T:-]+Z`, and
/// the point's attributes hold no slash; and the stale instant is exactly sixty seconds
/// after the time. This holds where start plus elapsed seconds is not negative (else no
/// timestamp exists), the unit's name has no double quote, its coordinate texts have no
/// slash, and both instants fall in years up to 9999 (a later year is written with a
/// leading `+`).
pub proof fn lemma_rendered_event_layout(unit: DcsUnit)
    requires
        parsed_date(unit.mission_date@) matches Some(d) && is_calendar_date(
            d.0 as int,
            d.1 as int,
            d.2 as int,
        ),
        unit.mission_start_time + unit.mission_time_elapsed >= 0,
        minute_after(unit.mission_time()->Ok_0) is Some,
        unit.mission_time()->Ok_0.year <= 9999,
        minute_after(unit.mission_time()->Ok_0)->0.year <= 9999,
        !unit.unit_name@.contains('"'),
        !unit.position.latitude@.contains('/'),
        !unit.position.longitude@.contains('/'),
        !unit.position.altitude@.contains('/'),
    ensures
        ({
            let t = unit.mission_time()->Ok_0;
            let stale = minute_after(t)->0;
            &&& rendered(unit) == Ok::<Seq<char>, TimeError>(
                unit_event_xml(unit, rfc3339_text(t), rfc3339_text(stale)),
            )
            &&& has_event_layout(unit_event_xml(unit, rfc3339_text(t), rfc3339_text(stale)))
            &&& seconds_of(stale) == seconds_of(t) + 60
        }),
{
    let t = unit.mission_time()->Ok_0;
    let stale = minute_after(t)->0;
    lemma_minute_after_adds_sixty_seconds(t);
    lemma_stamp_text(t);
    lemma_stamp_text(stale);
    let lat = unit.position.latitude@;
    let lon = unit.position.longitude@;
    let hae = unit.position.altitude@;
    let cs = unit.unit_name@;
    let attrs = "lat=\""@ + lat + "\" lon=\""@ + lon + "\" ce=\"0.0\" hae=\""@ + hae
        + "\" le=\"0.0\""@;
    reveal_strlit("lat=\"");
    reveal_strlit("\" lon=\"");
    reveal_strlit("\" ce=\"0.0\" hae=\"");
    reveal_strlit("\" le=\"0.0\"");
    reveal_strlit("\">");
    reveal_strlit("<point lat=\"");
    reveal_strlit("\"><point ");
    reveal_strlit("\" le=\"0.0\"/>");
    reveal_strlit("<detail><contact callsign=\"");
    reveal_strlit("/><detail><contact callsign=\"");
    reveal_strlit("\"/></detail>");
    reveal_strlit("</event>");
    reveal_strlit("\"/></detail></event>");
    assert(!"lat=\""@.contains('/'));
    assert(!"\" lon=\""@.contains('/'));
    assert(!"\" ce=\"0.0\" hae=\""@.contains('/'));
    assert(!"\" le=\"0.0\""@.contains('/'));
    lemma_slash_free("lat=\""@, lat);
    lemma_slash_free("lat=\""@ + lat, "\" lon=\""@);
    lemma_slash_free("lat=\""@ + lat + "\" lon=\""@, lon);
    lemma_slash_free("lat=\""@ + lat + "\" lon=\""@ + lon, "\" ce=\"0.0\" hae=\""@);
    lemma_slash_free("lat=\""@ + lat + "\" lon=\""@ + lon + "\" ce=\"0.0\" hae=\""@, hae);
    lemma_slash_free(
        "lat=\""@ + lat + "\" lon=\""@ + lon + "\" ce=\"0.0\" hae=\""@ + hae,
        "\" le=\"0.0\""@,
    );
    let kind = type_code(unit);
    let x = unit_event_xml(unit, rfc3339_text(t), rfc3339_text(stale));
    assert(x =~= "<?xml version=\"1.0\" standalone=\"yes\"?><event version=\"2.0\" uid=\""@ + cs
        + "\" type=\""@ + kind + "\" how=\"m-g\" time=\""@ + rfc3339_text(t) + "\" start=\""@
        + rfc3339_text(t) + "\" stale=\""@ + rfc3339_text(stale) + "\"><point "@ + attrs
        + "/><detail><contact callsign=\""@ + cs + "\"/></detail></event>"@);
    assert(event_layout(x, cs, kind, rfc3339_text(t), rfc3339_text(stale), attrs, cs));
}

/// Serialisation to XML text.
pub trait ToXml {
    spec fn xml(&self) -> Seq<char>;

    fn to_xml(&self) -> (r: String)
        ensures
            r@ == self.xml(),
    ;
}

/// The detail element: the unit's callsign.
pub struct Detail {
    pub call_sign: String,
}

impl ToXml for Detail {
    open spec fn xml(&self) -> Seq<char> {
        detail_xml(self.call_sign@)
    }

    fn to_xml(&self) -> (r: String) {
        let mut s = String::from_str("<detail><contact callsign=\"");
        s.append(self.call_sign.as_str());
        s.append("\"/></detail>");
        s
    }
}

/// The point element: latitude and longitude in degrees, height above the ellipsoid in
/// meters, each as decimal text.
pub struct Point {
    pub lat: String,
    pub lon: String,
    pub hae: String,
}

impl ToXml for Point {
    open spec fn xml(&self) -> Seq<char> {
        point_xml(self.lat@, self.lon@, self.hae@)
    }

    fn to_xml(&self) -> (r: String) {
        let mut s = String::from_str("<point lat=\"");
        s.append(self.lat.as_str());
        s.append("\" lon=\"");
        s.append(self.lon.as_str());
        s.append("\" ce=\"0.0\" hae=\"");
        s.append(self.hae.as_str());
        s.append("\" le=\"0.0\"/>");
        s
    }
}

/// A whole event.
pub struct Event {
    /// The event-type code.
    pub unit_type: String,
    pub uid: String,
    /// When the event was generated.
    pub time: String,
    /// When the event stops being valid.
    pub stale: String,
    pub point: Point,
    pub detail: Detail,
}

impl ToXml for Event {
    open spec fn xml(&self) -> Seq<char> {
        event_xml(
            self.uid@,
            self.unit_type@,
            self.time@,
            self.stale@,
            self.point.xml(),
            self.detail.xml(),
        )
    }

    fn to_xml(&self) -> (r: String) {
        let mut s = String::from_str(
            "<?xml version=\"1.0\" standalone=\"yes\"?><event version=\"2.0\" uid=\"",
        );
        s.append(self.uid.as_str());
        s.append("\" type=\"");
        s.append(self.unit_type.as_str());
        s.append("\" how=\"m-g\" time=\"");
        s.append(self.time.as_str());
        s.append("\" start=\"");
        s.append(self.time.as_str());
        s.append("\" stale=\"");
        s.append(self.stale.as_str());
        s.append("\">");
        let point = self.point.to_xml();
        s.append(point.as_str());
        let detail = self.detail.to_xml();
        s.append(detail.as_str());
        s.append("</event>");
        s
    }
}

/// Renders unit records as events.
pub struct XmlSerializer;

impl XmlSerializer {
    /// The event of `unit` at its mission timestamp, or why that timestamp cannot be had.
    pub fn serialize_dcs_unit(unit: &DcsUnit) -> (r: Result<String, TimeError>)
        ensures
            match rendered(*unit) {
                Ok(x) => r matches Ok(s) && s@ == x,
                Err(e) => r == Err::<String, TimeError>(e),
            },
    {
        match unit.calculate_mission_time() {
            Ok(t) => Self::serialize_at(unit, &t),
            Err(e) => Err(e),
        }
    }

    /// The event of `unit` at the mission instant `t`.
    pub fn serialize_at(unit: &DcsUnit, t: &MissionTime) -> (r: Result<String, TimeError>)
        requires
            t.wf(),
        ensures
            match rendered_at(*unit, *t) {
                Ok(x) => r matches Ok(s) && s@ == x,
                Err(e) => r == Err::<String, TimeError>(e),
            },
    {
        let stale = match one_minute_later(t) {
            Ok(s) => s,
            Err(e) => return Err(e),
        };
        let event = Event {
            point: Point {
                lat: unit.position.latitude.clone(),
                lon: unit.position.longitude.clone(),
                hae: unit.position.altitude.clone(),
            },
            detail: Detail { call_sign: unit.unit_name.clone() },
            unit_type: AtomicEvent::from(unit).to_string(),
            uid: unit.unit_name.clone(),
            time: t.to_rfc3339(),
            stale: stale.to_rfc3339(),
        };
        Ok(event.to_xml())
    }
}

} // verus!
