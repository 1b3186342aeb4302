//! Provider translation logic for Cologne's AWB backend: query shaping,
//! address identity encoding, date-window selection, fraction mapping and
//! response filtering. The backend exchange itself is the caller's: each
//! session value describes the request to make and translates the records
//! that come back.

use crate::date::Date;
use crate::date::DateRange;
use crate::date::date_in_range;
use crate::date::in_range;
use crate::date::valid_ymd;
use crate::model::Address;
use crate::model::AddressId;
use crate::model::AddressView;
use crate::model::CityId;
use crate::model::CityMeta;
use crate::model::Fraction;
use crate::model::FractionView;
use crate::model::PickupEvent;
use crate::model::PickupEventView;
use crate::model::events_view;
use crate::plugin::CityPlugin;
use crate::plugin::ProviderKind;
use crate::ports::AddressSearch;
use crate::ports::PortError;
use crate::sorting::events_sorted;
use crate::sorting::lemma_equal_multiset_map;
use crate::sorting::sort_events;
use crate::text::find_from;
use crate::text::find_char;
use crate::text::lower_of;
use crate::text::lowercase;
use crate::text::trim;
use crate::text::trim_of;
use vstd::prelude::*;
use vstd::string::StrSliceExecFns;
use vstd::string::StringExecFns;

verus! {

/// Metadata of the Cologne provider.
pub fn city_meta() -> (r: CityMeta)
    ensures
        r.id@ == "cologne"@,
        r.name@ == "Köln"@,
{
    CityMeta { id: CityId("cologne".to_owned()), name: "Köln".to_owned() }
}

/// The fraction the AWB type tag denotes, given the case-folded tag and the
/// raw tag.
pub open spec fn awb_fraction(lowered: Seq<char>, raw: Seq<char>) -> FractionView {
    if lowered == "grey"@ {
        FractionView::Residual
    } else if lowered == "blue"@ {
        FractionView::Paper
    } else if lowered == "wertstoff"@ {
        FractionView::Plastic
    } else if lowered == "brown"@ {
        FractionView::Organic
    } else {
        FractionView::Other(raw)
    }
}

/// The human note attached to the AWB type tag.
pub open spec fn awb_note(lowered: Seq<char>, raw: Seq<char>) -> Seq<char> {
    if lowered == "grey"@ {
        "Restabfall"@
    } else if lowered == "blue"@ {
        "Papier / Pappe"@
    } else if lowered == "wertstoff"@ {
        "Leichtverpackungen / Wertstoffe"@
    } else if lowered == "brown"@ {
        "Bioabfall"@
    } else {
        "Fraktion "@ + raw
    }
}

/// Map an AWB "type" tag (grey/blue/...) to the fraction and a human note;
/// an unknown tag keeps its original text.
pub fn map_awb_type(raw: &str) -> (r: (Fraction, String))
    ensures
        r.0@ == awb_fraction(lower_of(raw@), raw@),
        r.1@ == awb_note(lower_of(raw@), raw@),
{
    let tag = lowercase(raw);
    if tag == "grey".to_owned() {
        (Fraction::Residual, "Restabfall".to_owned())
    } else if tag == "blue".to_owned() {
        (Fraction::Paper, "Papier / Pappe".to_owned())
    } else if tag == "wertstoff".to_owned() {
        (Fraction::Plastic, "Leichtverpackungen / Wertstoffe".to_owned())
    } else if tag == "brown".to_owned() {
        (Fraction::Organic, "Bioabfall".to_owned())
    } else {
        let mut note = "Fraktion ".to_owned();
        note.append(raw);
        (Fraction::Other(raw.to_owned()), note)
    }
}

/// One street/house entry of the backend's street lookup response, as plain
/// values.
#[derive(Debug, Clone)]
pub struct StreetEntry {
    /// Official street name.
    pub street_name: String,
    /// House number.
    pub building_number: String,
    /// House number addition such as "A", possibly empty.
    pub building_number_addition: String,
    /// Backend-internal street key.
    pub street_code: String,
    /// User-facing street name, empty when the official one applies.
    pub user_street_name: String,
    /// User-facing house number, empty when the official one applies.
    pub user_building_number: String,
}

/// The street name an entry displays.
pub open spec fn entry_street(e: StreetEntry) -> Seq<char> {
    if e.user_street_name@.len() == 0 {
        e.street_name@
    } else {
        e.user_street_name@
    }
}

/// The house number an entry displays.
pub open spec fn entry_house(e: StreetEntry) -> Seq<char> {
    if e.user_building_number@.len() == 0 {
        e.building_number@
    } else {
        e.user_building_number@
    }
}

/// The provider-private address identifier: street code, building number and
/// addition, joined by colons, enough to rebuild a calendar request later.
pub open spec fn encode_address_id(e: StreetEntry) -> Seq<char> {
    e.street_code@ + seq![':'] + e.building_number@ + seq![':'] + e.building_number_addition@
}

/// The address an entry translates to.
pub open spec fn entry_address(e: StreetEntry) -> AddressView {
    AddressView {
        id: encode_address_id(e),
        city: "cologne"@,
        label: entry_street(e) + seq![' '] + entry_house(e),
        street: entry_street(e),
        house_number: entry_house(e),
    }
}

/// Parameters of the one street-lookup request a Cologne search makes.
#[derive(Debug, Clone)]
pub struct StreetsQuery {
    /// Street name filter, trimmed.
    pub street_name: String,
    /// House number filter, trimmed; empty asks for all house numbers.
    pub building_number: String,
}

/// The house-number filter a search query asks the backend for: the trimmed
/// house number, or nothing.
pub open spec fn shaped_house(q: AddressSearch) -> Seq<char> {
    match q.house_number {
        Option::Some(h) => trim_of(h@),
        Option::None => Seq::empty(),
    }
}

/// A pending Cologne address search: the request to make and the cap to
/// apply to the response.
#[derive(Debug)]
pub struct CologneSearch {
    /// Street-lookup request parameters.
    pub query: StreetsQuery,
    /// Maximum number of addresses to return.
    pub limit: usize,
}

impl CologneSearch {
    /// Shape a search query, or short-circuit: no session (and so no backend
    /// call) exactly when the limit is zero or the street is blank.
    pub fn begin(query: &AddressSearch, limit: usize) -> (r: Option<CologneSearch>)
        ensures
            r is None <==> (limit == 0 || query.is_blank_query()),
            r matches Some(s) ==> s.limit == limit && s.query.street_name@ == trim_of(query.street@)
                && s.query.building_number@ == shaped_house(*query),
    {
        if limit == 0 || query.is_empty() {
            return None;
        }
        let street_name = trim(query.street.as_str()).to_owned();
        let building_number = match &query.house_number {
            Option::Some(h) => trim(h.as_str()).to_owned(),
            Option::None => String::new(),
        };
        Some(CologneSearch { query: StreetsQuery { street_name, building_number }, limit })
    }

    /// Translate the backend's street entries into addresses: the first
    /// `limit` entries, each translated in place.
    pub fn finish(&self, entries: Vec<StreetEntry>) -> (r: Vec<Address>)
        ensures
            r@.len() == if entries@.len() <= self.limit {
                entries@.len() as int
            } else {
                self.limit as int
            },
            forall|i: int| 0 <= i < r@.len() ==> (#[trigger] r@[i])@ == entry_address(entries@[i]),
    {
        let count: usize = if entries.len() <= self.limit {
            entries.len()
        } else {
            self.limit
        };
        let mut out: Vec<Address> = Vec::new();
        let mut i: usize = 0;
        while i < count
            invariant
                count <= entries@.len(),
                i <= count,
                out@.len() == i,
                forall|t: int|
                    0 <= t < i ==> (#[trigger] out@[t])@ == entry_address(entries@[t]),
            decreases count - i,
        {
            let e = &entries[i];
            let street = if e.user_street_name.as_str().is_empty() {
                e.street_name.clone()
            } else {
                e.user_street_name.clone()
            };
            let house = if e.user_building_number.as_str().is_empty() {
                e.building_number.clone()
            } else {
                e.user_building_number.clone()
            };
            let mut id = e.street_code.clone();
            id.append(":");
            id.append(e.building_number.as_str());
            id.append(":");
            id.append(e.building_number_addition.as_str());
            let mut label = street.clone();
            label.append(" ");
            label.append(house.as_str());
            proof {
                reveal_strlit(":");
                reveal_strlit(" ");
                assert(":"@ =~= seq![':']);
                assert(" "@ =~= seq![' ']);
                assert(id@ =~= encode_address_id(entries@[i as int]));
                assert(label@ =~= entry_street(entries@[i as int]) + seq![' '] + entry_house(
                    entries@[i as int],
                ));
            }
            let addr = Address {
                id: AddressId(id),
                city: CityId("cologne".to_owned()),
                label,
                street,
                house_number: house,
            };
            out.push(addr);
            i += 1;
        }
        out
    }
}

/// The backend keys recovered from an address identifier.
#[derive(Debug, Clone)]
pub struct CalendarKey {
    /// Backend-internal street key.
    pub street_code: String,
    /// House number.
    pub building_number: String,
    /// House number addition, possibly empty.
    pub addition: String,
}

/// Whether the identifier text decodes to a calendar key: it must hold at
/// least one colon.
pub open spec fn id_decodes(s: Seq<char>) -> bool {
    find_from(s, ':', 0) < s.len()
}

/// The street code of a decodable identifier: the text before the first
/// colon.
pub open spec fn decoded_street_code(s: Seq<char>) -> Seq<char> {
    s.subrange(0, find_from(s, ':', 0))
}

/// The building number of a decodable identifier: the text between the first
/// and second colons.
pub open spec fn decoded_building_number(s: Seq<char>) -> Seq<char> {
    let p1 = find_from(s, ':', 0);
    s.subrange(p1 + 1, find_from(s, ':', p1 + 1))
}

/// The addition of a decodable identifier: the third colon-separated
/// segment, or nothing when there is none.
pub open spec fn decoded_addition(s: Seq<char>) -> Seq<char> {
    let p1 = find_from(s, ':', 0);
    let p2 = find_from(s, ':', p1 + 1);
    if p2 >= s.len() {
        Seq::empty()
    } else {
        s.subrange(p2 + 1, find_from(s, ':', p2 + 1))
    }
}

/// Parameters of the one calendar request a Cologne schedule lookup makes.
#[derive(Debug, Clone)]
pub struct CalendarQuery {
    /// Backend-internal street key.
    pub street_code: String,
    /// House number.
    pub building_number: String,
    /// House number addition; sent only when non-empty.
    pub addition: String,
    /// First year to request.
    pub start_year: i32,
    /// Last year to request.
    pub end_year: i32,
    /// First month to request.
    pub start_month: u32,
    /// Last month to request.
    pub end_month: u32,
}

/// One pickup of the backend's calendar response, as plain values.
#[derive(Debug, Clone)]
pub struct CalendarEntry {
    /// Day of month.
    pub day: u32,
    /// Month.
    pub month: u32,
    /// Year.
    pub year: i32,
    /// Waste type tag such as "grey" or "blue".
    pub typ: String,
}

/// The date an entry names, checked for validity separately.
pub open spec fn entry_date(e: CalendarEntry) -> Date {
    Date { year: e.year, month: e.month, day: e.day }
}

/// Whether an entry names a real calendar date.
pub open spec fn entry_valid(e: CalendarEntry) -> bool {
    valid_ymd(e.year as int, e.month as int, e.day as int)
}

/// Whether an entry falls within the requested range.
pub open spec fn entry_in_range(e: CalendarEntry, range: DateRange) -> bool {
    in_range(entry_date(e), range)
}

/// The pickup event an entry translates to.
pub open spec fn entry_event(e: CalendarEntry) -> PickupEventView {
    PickupEventView {
        date: entry_date(e),
        fraction: awb_fraction(lower_of(e.typ@), e.typ@),
        note: Some(awb_note(lower_of(e.typ@), e.typ@)),
    }
}

/// The events of the in-range entries, in response order.
pub open spec fn cologne_events(entries: Seq<CalendarEntry>, range: DateRange) -> Seq<
    PickupEventView,
> {
    entries.filter(|e: CalendarEntry| entry_in_range(e, range)).map_values(
        |e: CalendarEntry| entry_event(e),
    )
}

/// Extending the processed entries by one extends the translated events by
/// at most that entry's event.
proof fn lemma_cologne_events_step(entries: Seq<CalendarEntry>, range: DateRange, i: int)
    requires
        0 <= i < entries.len(),
    ensures
        entry_in_range(entries[i], range) ==> cologne_events(entries.subrange(0, i + 1), range)
            == cologne_events(entries.subrange(0, i), range).push(entry_event(entries[i])),
        !entry_in_range(entries[i], range) ==> cologne_events(entries.subrange(0, i + 1), range)
            == cologne_events(entries.subrange(0, i), range),
{
    reveal(Seq::filter);
    let p1 = entries.subrange(0, i + 1);
    let p0 = entries.subrange(0, i);
    assert(p1.drop_last() =~= p0);
    assert(p1.last() == entries[i]);
    if entry_in_range(entries[i], range) {
        assert(cologne_events(p1, range) =~= cologne_events(p0, range).push(
            entry_event(entries[i]),
        ));
    } else {
        assert(cologne_events(p1, range) =~= cologne_events(p0, range));
    }
}

/// Address identity: an identifier this provider issues for an entry whose
/// own backend keys are colon-free is decoded back to those same keys by
/// this provider's schedule lookup.
pub proof fn lemma_cologne_address_id_round_trip(e: StreetEntry)
    requires
        !e.street_code@.contains(':'),
        !e.building_number@.contains(':'),
        !e.building_number_addition@.contains(':'),
    ensures
        id_decodes(encode_address_id(e)),
        decoded_street_code(encode_address_id(e)) == e.street_code@,
        decoded_building_number(encode_address_id(e)) == e.building_number@,
        decoded_addition(encode_address_id(e)) == e.building_number_addition@,
{
    let a = e.street_code@;
    let b = e.building_number@;
    let c = e.building_number_addition@;
    let s = encode_address_id(e);
    let p1 = a.len() as int;
    let p2 = (a.len() + 1 + b.len()) as int;
    assert(s.len() == a.len() + 1 + b.len() + 1 + c.len());
    assert(s[p1] == ':');
    assert(s[p2] == ':');
    assert forall|i: int| 0 <= i < p1 implies s[i] != ':' by {
        assert(s[i] == a[i]);
        assert(!a.contains(':'));
    }
    assert forall|i: int| p1 + 1 <= i < p2 implies s[i] != ':' by {
        assert(s[i] == b[i - p1 - 1]);
        assert(!b.contains(':'));
    }
    assert forall|i: int| p2 + 1 <= i < s.len() implies s[i] != ':' by {
        assert(s[i] == c[i - p2 - 1]);
        assert(!c.contains(':'));
    }
    crate::text::lemma_find_from_value(s, ':', 0, p1);
    crate::text::lemma_find_from_value(s, ':', p1 + 1, p2);
    crate::text::lemma_find_from_value(s, ':', p2 + 1, s.len() as int);
    assert(s.subrange(0, p1) =~= a);
    assert(s.subrange(p1 + 1, p2) =~= b);
    assert(s.subrange(p2 + 1, s.len() as int) =~= c);
}

/// Fraction totality: every AWB type tag maps to a canonical fraction or to
/// `Other` carrying the original tag unchanged — never to anything else,
/// and the tag is never dropped.
pub proof fn lemma_awb_fraction_total(lowered: Seq<char>, raw: Seq<char>)
    ensures
        awb_fraction(lowered, raw) == FractionView::Residual || awb_fraction(lowered, raw)
            == FractionView::Paper || awb_fraction(lowered, raw) == FractionView::Plastic
            || awb_fraction(lowered, raw) == FractionView::Organic || awb_fraction(lowered, raw)
            == FractionView::Other(raw),
{
}

/// Every event of the translated calendar lies within the requested range.
proof fn lemma_cologne_events_in_range(entries: Seq<CalendarEntry>, range: DateRange)
    ensures
        forall|i: int|
            0 <= i < cologne_events(entries, range).len() ==> in_range(
                (#[trigger] cologne_events(entries, range)[i]).date,
                range,
            ),
{
    broadcast use vstd::seq_lib::group_filter_ensures;

    assert forall|i: int| 0 <= i < cologne_events(entries, range).len() implies in_range(
        (cologne_events(entries, range)[i]).date,
        range,
    ) by {}
}

/// Range filtering: a successful schedule fetch returns only events dated
/// within the requested inclusive range.
pub proof fn lemma_cologne_schedule_range(
    entries: Seq<CalendarEntry>,
    range: DateRange,
    v: Seq<PickupEvent>,
)
    requires
        events_view(v).to_multiset() == cologne_events(entries, range).to_multiset(),
    ensures
        forall|i: int| 0 <= i < v.len() ==> in_range((#[trigger] v[i])@.date, range),
{
    lemma_cologne_events_in_range(entries, range);
    assert forall|i: int| 0 <= i < v.len() implies in_range(v[i]@.date, range) by {
        assert(events_view(v)[i] == v[i]@);
        crate::sorting::lemma_multiset_elem_source(
            events_view(v),
            cologne_events(entries, range),
            i,
        );
    }
}

/// A pending Cologne schedule lookup: the decoded address key and the
/// requested range.
#[derive(Debug)]
pub struct CologneSchedule {
    /// Decoded backend keys for the address.
    pub key: CalendarKey,
    /// Requested inclusive date range.
    pub range: DateRange,
}

impl CologneSchedule {
    /// Decode the provider-private address identifier, failing with an
    /// invalid-address-id error exactly when it does not follow this
    /// provider's encoding.
    pub fn begin(address_id: &AddressId, range: DateRange) -> (r: Result<
        CologneSchedule,
        PortError,
    >)
        ensures
            r is Err <==> !id_decodes(address_id@),
            r matches Err(e) ==> e == PortError::InvalidAddressId,
            r matches Ok(s) ==> s.range == range && s.key.street_code@ == decoded_street_code(
                address_id@,
            ) && s.key.building_number@ == decoded_building_number(address_id@)
                && s.key.addition@ == decoded_addition(address_id@),
    {
        let id = address_id.0.as_str();
        let n: usize = id.unicode_len();
        let p1 = find_char(id, ':', 0);
        if p1 >= n {
            return Err(PortError::InvalidAddressId);
        }
        let street_code = id.substring_char(0, p1).to_owned();
        let p2 = find_char(id, ':', p1 + 1);
        let building_number = id.substring_char(p1 + 1, p2).to_owned();
        let addition = if p2 >= n {
            String::new()
        } else {
            let p3 = find_char(id, ':', p2 + 1);
            id.substring_char(p2 + 1, p3).to_owned()
        };
        Ok(
            CologneSchedule {
                key: CalendarKey { street_code, building_number, addition },
                range,
            },
        )
    }

    /// The calendar request window covering the range: the range's own
    /// months within one calendar year, full-year coverage of both endpoint
    /// years otherwise.
    pub fn request(&self) -> (q: CalendarQuery)
        ensures
            q.street_code@ == self.key.street_code@,
            q.building_number@ == self.key.building_number@,
            q.addition@ == self.key.addition@,
            q.start_year == self.range.start.year,
            q.end_year == self.range.end.year,
            self.range.start.year == self.range.end.year ==> q.start_month
                == self.range.start.month && q.end_month == self.range.end.month,
            self.range.start.year != self.range.end.year ==> q.start_month == 1 && q.end_month
                == 12,
    {
        let (start_month, end_month): (u32, u32) = if self.range.start.year
            == self.range.end.year {
            (self.range.start.month, self.range.end.month)
        } else {
            (1, 12)
        };
        CalendarQuery {
            street_code: self.key.street_code.clone(),
            building_number: self.key.building_number.clone(),
            addition: self.key.addition.clone(),
            start_year: self.range.start.year,
            end_year: self.range.end.year,
            start_month,
            end_month,
        }
    }

    /// Translate the backend's calendar entries: reject the response when
    /// any entry names an impossible date, otherwise keep the in-range
    /// events, sorted ascending by date.
    pub fn finish(&self, entries: Vec<CalendarEntry>) -> (r: Result<Vec<PickupEvent>, PortError>)
        ensures
            r is Ok <==> (forall|i: int|
                0 <= i < entries@.len() ==> entry_valid(#[trigger] entries@[i])),
            r matches Err(e) ==> (e matches PortError::Internal(m) && m@
                == "Invalid date in AWB calendar"@),
            r matches Ok(v) ==> events_sorted(v@) && events_view(v@).to_multiset()
                == cologne_events(entries@, self.range).to_multiset(),
    {
        let n: usize = entries.len();
        let mut events: Vec<PickupEvent> = Vec::new();
        let mut i: usize = 0;
        proof {
            reveal(Seq::filter);
            assert(entries@.subrange(0, 0) =~= Seq::<CalendarEntry>::empty());
            assert(events_view(events@) =~= cologne_events(entries@.subrange(0, 0), self.range));
        }
        while i < n
            invariant
                i <= n,
                n == entries@.len(),
                forall|t: int| 0 <= t < i ==> entry_valid(#[trigger] entries@[t]),
                events_view(events@) == cologne_events(
                    entries@.subrange(0, i as int),
                    self.range,
                ),
            decreases n - i,
        {
            let e = &entries[i];
            let date = match Date::new(e.year, e.month, e.day) {
                Option::Some(d) => d,
                Option::None => {
                    return Err(PortError::Internal("Invalid date in AWB calendar".to_owned()));
                },
            };
            proof {
                lemma_cologne_events_step(entries@, self.range, i as int);
            }
            if date_in_range(&date, &self.range) {
                let (fraction, note) = map_awb_type(e.typ.as_str());
                let ev = PickupEvent { date, fraction, note: Some(note) };
                let ghost old_map = events_view(events@);
                events.push(ev);
                proof {
                    assert(ev@ == entry_event(entries@[i as int]));
                    assert(events_view(events@) =~= old_map.push(ev@));
                }
            }
            i += 1;
        }
        proof {
            assert(entries@.subrange(0, n as int) =~= entries@);
        }
        let sorted = sort_events(events);
        proof {
            lemma_equal_multiset_map(sorted@, events@, |pe: PickupEvent| pe@);
            assert(sorted@.map_values(|pe: PickupEvent| pe@) =~= events_view(sorted@));
            assert(events@.map_values(|pe: PickupEvent| pe@) =~= events_view(events@));
        }
        Ok(sorted)
    }
}

/// Build the plugin bundle for the Cologne provider.
pub fn plugin() -> (r: CityPlugin)
    ensures
        r.meta.id@ == "cologne"@,
        r.meta.name@ == "Köln"@,
        r.provider == ProviderKind::Cologne,
{
    CityPlugin { meta: city_meta(), provider: ProviderKind::Cologne }
}

} // verus!
