//! Provider translation logic for Nuremberg's waste-collection backend:
//! street filtering, house-number selection, address identity encoding,
//! fraction-name mapping and response filtering. The backend exchange itself
//! is the caller's: the search runs as a resumable session whose steps say
//! which record to fetch next, and the schedule lookup translates the
//! records handed back.

use crate::date::Date;
use crate::date::DateRange;
use crate::date::date_in_range;
use crate::date::in_range;
use crate::date::parse_date;
use crate::date::parse_date_spec;
use crate::model::Address;
use crate::model::AddressId;
use crate::model::AddressView;
use crate::model::CityId;
use crate::model::CityMeta;
use crate::model::Fraction;
use crate::model::FractionView;
use crate::model::PickupEvent;
use crate::model::PickupEventView;
use crate::model::addresses_view;
use crate::model::events_view;
use crate::numbers::dec_int;
use crate::numbers::i64_to_string;
use crate::numbers::parse_i32;
use crate::numbers::parse_i32_spec;
use crate::plugin::CityPlugin;
use crate::plugin::ProviderKind;
use crate::ports::AddressSearch;
use crate::ports::PortError;
use crate::sorting::events_sorted;
use crate::sorting::lemma_equal_multiset_map;
use crate::sorting::sort_events;
use crate::text::contains_seq;
use crate::text::contains_sub;
use crate::text::lemma_lex_le_total;
use crate::text::lemma_lex_le_trans;
use crate::text::lex_le;
use crate::text::lower_of;
use crate::text::lowercase;
use crate::text::str_lex_le;
use crate::text::trim;
use crate::text::trim_of;
use vstd::prelude::*;
use vstd::string::StrSliceExecFns;
use vstd::string::StringExecFns;

verus! {

/// Metadata of the Nuremberg provider.
pub fn city_meta() -> (r: CityMeta)
    ensures
        r.id@ == "nuremberg"@,
        r.name@ == "Nürnberg"@,
{
    CityMeta { id: CityId("nuremberg".to_owned()), name: "Nürnberg".to_owned() }
}

/// The fraction a backend fraction name denotes, by case-insensitive keyword
/// match on the case-folded name; an unknown name keeps its original text.
pub open spec fn nuremberg_fraction(lowered: Seq<char>, raw: Seq<char>) -> FractionView {
    if contains_seq(lowered, "rest"@) {
        FractionView::Residual
    } else if contains_seq(lowered, "bio"@) {
        FractionView::Organic
    } else if contains_seq(lowered, "papier"@) || contains_seq(lowered, "pappe"@) {
        FractionView::Paper
    } else if contains_seq(lowered, "gelb"@) || contains_seq(lowered, "leichtverpackung"@)
        || contains_seq(lowered, "lvp"@) {
        FractionView::Plastic
    } else if contains_seq(lowered, "glas"@) {
        FractionView::Glass
    } else if contains_seq(lowered, "metall"@) || contains_seq(lowered, "schrott"@) {
        FractionView::Metal
    } else {
        FractionView::Other(raw)
    }
}

/// Map a backend fraction name to the fraction taxonomy.
pub fn map_fraction(name: &str) -> (r: Fraction)
    ensures
        r@ == nuremberg_fraction(lower_of(name@), name@),
{
    let normalized = lowercase(name);
    let n = normalized.as_str();
    if contains_sub(n, "rest") {
        Fraction::Residual
    } else if contains_sub(n, "bio") {
        Fraction::Organic
    } else if contains_sub(n, "papier") || contains_sub(n, "pappe") {
        Fraction::Paper
    } else if contains_sub(n, "gelb") || contains_sub(n, "leichtverpackung") || contains_sub(
        n,
        "lvp",
    ) {
        Fraction::Plastic
    } else if contains_sub(n, "glas") {
        Fraction::Glass
    } else if contains_sub(n, "metall") || contains_sub(n, "schrott") {
        Fraction::Metal
    } else {
        Fraction::Other(name.to_owned())
    }
}

/// One street of the backend's street list, as plain values.
#[derive(Debug)]
pub struct StreetRec {
    /// Backend street id.
    pub id: i64,
    /// Street name.
    pub name: String,
}

/// One house number of a street's detail record, as plain values.
#[derive(Debug)]
pub struct HouseRec {
    /// Backend house-number id.
    pub id: i64,
    /// House number text.
    pub number: String,
}

/// One fraction of the backend's fraction list, as plain values.
#[derive(Debug)]
pub struct FractionRec {
    /// Backend fraction id.
    pub id: i64,
    /// Fraction display name.
    pub name: String,
}

/// One pickup of the backend's schedule response, as plain values.
#[derive(Debug)]
pub struct PickupRec {
    /// Pickup date in ISO `YYYY-MM-DD` form.
    pub date: String,
    /// Fraction id of the district entry, when the backend sent one.
    pub fraction_id: Option<i64>,
}

/// Whether a street's name matches the case-folded query.
pub open spec fn street_matches(st: StreetRec, q: Seq<char>) -> bool {
    contains_seq(lower_of(st.name@), q)
}

/// The streets whose names match the case-folded query, in backend order.
pub open spec fn matching_streets(streets: Seq<StreetRec>, q: Seq<char>) -> Seq<StreetRec> {
    streets.filter(|st: StreetRec| street_matches(st, q))
}

/// Extending the scanned streets by one extends the matches by at most that
/// street.
proof fn lemma_matching_streets_step(streets: Seq<StreetRec>, q: Seq<char>, i: int)
    requires
        0 <= i < streets.len(),
    ensures
        street_matches(streets[i], q) ==> matching_streets(streets.subrange(0, i + 1), q)
            == matching_streets(streets.subrange(0, i), q).push(streets[i]),
        !street_matches(streets[i], q) ==> matching_streets(streets.subrange(0, i + 1), q)
            == matching_streets(streets.subrange(0, i), q),
{
    reveal(Seq::filter);
    let p1 = streets.subrange(0, i + 1);
    let p0 = streets.subrange(0, i);
    assert(p1.drop_last() =~= p0);
    assert(p1.last() == streets[i]);
    if street_matches(streets[i], q) {
        assert(matching_streets(p1, q) =~= matching_streets(p0, q).push(streets[i]));
    } else {
        assert(matching_streets(p1, q) =~= matching_streets(p0, q));
    }
}

/// Whether a house number passes the optional case-folded filter.
pub open spec fn house_matches(h: HouseRec, filter: Option<String>) -> bool {
    match filter {
        Option::Some(f) => contains_seq(lower_of(h.number@), f@),
        Option::None => true,
    }
}

/// The house numbers passing the filter, in the order given.
pub open spec fn matching_houses(houses: Seq<HouseRec>, filter: Option<String>) -> Seq<HouseRec> {
    houses.filter(|h: HouseRec| house_matches(h, filter))
}

/// Extending the scanned houses by one extends the matches by at most that
/// house.
proof fn lemma_matching_houses_step(houses: Seq<HouseRec>, filter: Option<String>, i: int)
    requires
        0 <= i < houses.len(),
    ensures
        house_matches(houses[i], filter) ==> matching_houses(houses.subrange(0, i + 1), filter)
            == matching_houses(houses.subrange(0, i), filter).push(houses[i]),
        !house_matches(houses[i], filter) ==> matching_houses(houses.subrange(0, i + 1), filter)
            == matching_houses(houses.subrange(0, i), filter),
{
    reveal(Seq::filter);
    let p1 = houses.subrange(0, i + 1);
    let p0 = houses.subrange(0, i);
    assert(p1.drop_last() =~= p0);
    assert(p1.last() == houses[i]);
    if house_matches(houses[i], filter) {
        assert(matching_houses(p1, filter) =~= matching_houses(p0, filter).push(houses[i]));
    } else {
        assert(matching_houses(p1, filter) =~= matching_houses(p0, filter));
    }
}

/// At most the first `n` elements.
pub open spec fn take_at_most<A>(s: Seq<A>, n: int) -> Seq<A> {
    if s.len() <= n {
        s
    } else {
        s.subrange(0, n)
    }
}

/// The address a house number of the named street translates to: the house
/// id rendered in decimal is the provider-private address identifier.
pub open spec fn house_address(h: HouseRec, street_name: Seq<char>) -> AddressView {
    AddressView {
        id: dec_int(h.id as int),
        city: "nuremberg"@,
        label: street_name + seq![' '] + h.number@,
        street: street_name,
        house_number: h.number@,
    }
}

/// The addresses of the given house numbers.
pub open spec fn house_addresses(houses: Seq<HouseRec>, street_name: Seq<char>) -> Seq<
    AddressView,
> {
    houses.map_values(|h: HouseRec| house_address(h, street_name))
}

/// Whether house records are in lexicographic order of their number text.
pub open spec fn houses_sorted(s: Seq<HouseRec>) -> bool {
    forall|i: int, j: int|
        0 <= i <= j < s.len() ==> lex_le((#[trigger] s[i]).number@, (#[trigger] s[j]).number@)
}

/// Sort house records by their number text, keeping exactly the same
/// records.
fn sort_houses(houses: Vec<HouseRec>) -> (r: Vec<HouseRec>)
    ensures
        houses_sorted(r@),
        r@.to_multiset() == houses@.to_multiset(),
{
    broadcast use vstd::seq_lib::group_to_multiset_ensures;
    broadcast use vstd::multiset::group_multiset_axioms;

    let ghost orig = houses@;
    let mut out: Vec<HouseRec> = Vec::new();
    let mut houses = houses;
    while houses.len() > 0
        invariant
            houses_sorted(out@),
            out@.to_multiset().add(houses@.to_multiset()) == orig.to_multiset(),
        decreases houses@.len(),
    {
        let ghost before = houses@;
        let h = houses.remove(0);
        proof {
            vstd::seq_lib::to_multiset_remove(before, 0);
            assert(houses@ == before.remove(0));
            assert(before[0] == h);
            assert(before.contains(h)) by {
                assert(before[0] == h);
            }
            vstd::seq_lib::to_multiset_contains(before, h);
            assert(houses@.to_multiset() == before.to_multiset().remove(h));
        }
        let mut p: usize = 0;
        while p < out.len() && str_lex_le(out[p].number.as_str(), h.number.as_str())
            invariant
                p <= out@.len(),
                forall|k: int| 0 <= k < p ==> lex_le((#[trigger] out@[k]).number@, h.number@),
            decreases out@.len() - p,
        {
            p += 1;
        }
        let ghost old_out = out@;
        out.insert(p, h);
        proof {
            old_out.insert_ensures(p as int, h);
            vstd::seq_lib::to_multiset_insert(old_out, p as int, h);
            broadcast use vstd::multiset::group_multiset_axioms;

            assert forall|x: HouseRec|
                #[trigger] out@.to_multiset().add(houses@.to_multiset()).count(x)
                    == orig.to_multiset().count(x) by {
                assert(old_out.to_multiset().add(before.to_multiset()).count(x)
                    == orig.to_multiset().count(x));
            }
            assert(out@.to_multiset().add(houses@.to_multiset()) =~= orig.to_multiset());
            if p < old_out.len() {
                lemma_lex_le_total(old_out[p as int].number@, h.number@);
            }
            assert forall|a: int, b: int| 0 <= a <= b < out@.len() implies lex_le(
                (#[trigger] out@[a]).number@,
                (#[trigger] out@[b]).number@,
            ) by {
                if a == b {
                    lemma_lex_le_total(out@[a].number@, out@[a].number@);
                } else if b == p as int {
                    assert(out@[a] == old_out[a]);
                } else if a == p as int {
                    assert(out@[b] == old_out[b - 1]);
                    lemma_lex_le_trans(h.number@, old_out[p as int].number@, old_out[b - 1].number@);
                } else if a < p as int && b > p as int {
                    assert(out@[a] == old_out[a]);
                    assert(out@[b] == old_out[b - 1]);
                } else if b < p as int {
                    assert(out@[a] == old_out[a]);
                    assert(out@[b] == old_out[b]);
                } else {
                    assert(out@[a] == old_out[a - 1]);
                    assert(out@[b] == old_out[b - 1]);
                }
            }
        }
    }
    proof {
        broadcast use vstd::multiset::group_multiset_axioms;

        vstd::seq_lib::to_multiset_len(houses@);
        assert(houses@.to_multiset() =~= vstd::multiset::Multiset::<HouseRec>::empty());
        assert(out@.to_multiset() =~= orig.to_multiset());
    }
    out
}

/// The house-number filter a search query applies: the case-folded trimmed
/// house number, or none when empty or absent.
pub open spec fn shaped_filter(q: AddressSearch) -> Option<Seq<char>> {
    match q.house_number {
        Option::Some(h) => if trim_of(h@).len() == 0 {
            Option::None
        } else {
            Option::Some(lower_of(trim_of(h@)))
        },
        Option::None => Option::None,
    }
}

/// A resumable Nuremberg address search. The caller fetches the year's
/// street list, hands it to [`NurembergSearch::on_streets`], then fetches
/// the detail of each street [`NurembergSearch::next_street`] names and
/// hands it to [`NurembergSearch::on_detail`], until no street is left.
#[derive(Debug)]
pub struct NurembergSearch {
    /// Maximum number of addresses to return.
    pub limit: usize,
    /// Year the street list is requested for.
    pub year: i32,
    /// Case-folded trimmed street query.
    pub query_lower: String,
    /// Case-folded house-number filter, when one was given.
    pub house_filter: Option<String>,
    /// Matching streets whose details are still to be fetched.
    pub pending: Vec<StreetRec>,
    /// Addresses collected so far.
    pub results: Vec<Address>,
}

impl NurembergSearch {
    /// The session never collects more addresses than its limit.
    pub open spec fn inv(&self) -> bool {
        self.results@.len() <= self.limit
    }

    /// Shape a search query, or short-circuit: no session (and so no
    /// backend call) exactly when the limit is zero or the street is blank.
    pub fn begin(query: &AddressSearch, limit: usize, year: i32) -> (r: Option<NurembergSearch>)
        ensures
            r is None <==> (limit == 0 || query.is_blank_query()),
            r matches Some(s) ==> s.inv() && s.limit == limit && s.year == year && s.query_lower@
                == lower_of(trim_of(query.street@)) && (match s.house_filter {
                Option::Some(f) => shaped_filter(*query) == Option::Some(f@),
                Option::None => shaped_filter(*query) is None,
            }) && s.pending@.len() == 0 && s.results@.len() == 0,
    {
        if limit == 0 || query.is_empty() {
            return None;
        }
        let query_lower = lowercase(trim(query.street.as_str()));
        let house_filter = match &query.house_number {
            Option::Some(h) => {
                let t = trim(h.as_str());
                if t.is_empty() {
                    None
                } else {
                    Some(lowercase(t))
                }
            },
            Option::None => None,
        };
        Some(
            NurembergSearch {
                limit,
                year,
                query_lower,
                house_filter,
                pending: Vec::new(),
                results: Vec::new(),
            },
        )
    }

    /// Take the backend's street list and keep, in order, the streets whose
    /// names contain the query.
    pub fn on_streets(&mut self, streets: Vec<StreetRec>)
        requires
            old(self).inv(),
        ensures
            final(self).inv(),
            final(self).pending@ == matching_streets(streets@, old(self).query_lower@),
            final(self).limit == old(self).limit,
            final(self).year == old(self).year,
            final(self).query_lower == old(self).query_lower,
            final(self).house_filter == old(self).house_filter,
            final(self).results == old(self).results,
    {
        let ghost orig = streets@;
        let ghost q = self.query_lower@;
        let n: usize = streets.len();
        let mut streets = streets;
        let mut kept: Vec<StreetRec> = Vec::new();
        let mut i: usize = 0;
        proof {
            assert(orig.subrange(0, 0) =~= Seq::<StreetRec>::empty());
            reveal(Seq::filter);
            assert(kept@ =~= matching_streets(orig.subrange(0, 0), q));
        }
        while streets.len() > 0
            invariant
                orig.len() == n as int,
                i <= n,
                streets@ == orig.skip(i as int),
                q == self.query_lower@,
                kept@ == matching_streets(orig.subrange(0, i as int), q),
            decreases streets@.len(),
        {
            let st = streets.remove(0);
            proof {
                assert((i as int) < orig.len());
                assert(orig.skip(i as int).remove(0) =~= orig.skip(i + 1));
                assert(st == orig[i as int]);
                lemma_matching_streets_step(orig, q, i as int);
                assert(orig.subrange(0, i + 1).drop_last() =~= orig.subrange(0, i as int));
            }
            if contains_sub(lowercase(st.name.as_str()).as_str(), self.query_lower.as_str()) {
                kept.push(st);
            }
            i += 1;
        }
        proof {
            assert(orig.subrange(0, i as int) =~= orig);
        }
        self.pending = kept;
    }

    /// The street whose detail record should be fetched next: the first
    /// pending street, as long as the limit is not yet reached.
    pub fn next_street(&self) -> (r: Option<i64>)
        ensures
            r is Some <==> (self.results@.len() < self.limit && self.pending@.len() > 0),
            r matches Some(id) ==> id == self.pending@[0].id,
    {
        if self.results.len() < self.limit && self.pending.len() > 0 {
            Some(self.pending[0].id)
        } else {
            None
        }
    }

    /// Take the detail record of the first pending street: sort its house
    /// numbers, keep those passing the filter up to the remaining limit, and
    /// translate each into an address of that street.
    pub fn on_detail(&mut self, houses: Vec<HouseRec>)
        requires
            old(self).inv(),
            old(self).pending@.len() > 0,
            old(self).results@.len() < old(self).limit,
        ensures
            final(self).inv(),
            final(self).pending@ == old(self).pending@.drop_first(),
            final(self).limit == old(self).limit,
            final(self).year == old(self).year,
            final(self).query_lower == old(self).query_lower,
            final(self).house_filter == old(self).house_filter,
            exists|sorted: Seq<HouseRec>|
                {
                    &&& #[trigger] sorted.to_multiset() == houses@.to_multiset()
                    &&& houses_sorted(sorted)
                    &&& addresses_view(final(self).results@) == addresses_view(
                        old(self).results@,
                    ) + house_addresses(
                        take_at_most(
                            matching_houses(sorted, old(self).house_filter),
                            old(self).limit - old(self).results@.len(),
                        ),
                        old(self).pending@[0].name@,
                    )
                },
    {
        let st = self.pending.remove(0);
        proof {
            assert(old(self).pending@.remove(0) =~= old(self).pending@.drop_first());
        }
        let sorted = sort_houses(houses);
        let ghost sv = sorted@;
        let ghost filter = self.house_filter;
        let ghost street_name = st.name@;
        let remaining: usize = self.limit - self.results.len();
        let n: usize = sorted.len();
        let ghost old_results = self.results@;
        let mut taken: usize = 0;
        let mut i: usize = 0;
        proof {
            assert(sv.subrange(0, 0) =~= Seq::<HouseRec>::empty());
            reveal(Seq::filter);
            assert(matching_houses(sv.subrange(0, 0), filter) =~= Seq::<HouseRec>::empty());
            assert(addresses_view(self.results@) =~= addresses_view(old_results)
                + house_addresses(
                take_at_most(matching_houses(sv.subrange(0, 0), filter), remaining as int),
                street_name,
            ));
        }
        while i < n
            invariant
                n == sv.len(),
                sv == sorted@,
                filter == self.house_filter,
                street_name == st.name@,
                self.limit == old(self).limit,
                self.year == old(self).year,
                self.query_lower == old(self).query_lower,
                self.house_filter == old(self).house_filter,
                self.pending@ == old(self).pending@.drop_first(),
                old_results == old(self).results@,
                remaining as int == old(self).limit - old(self).results@.len(),
                i <= n,
                taken <= remaining,
                self.results@.len() == old_results.len() + taken,
                taken as int == take_at_most(
                    matching_houses(sv.subrange(0, i as int), filter),
                    remaining as int,
                ).len(),
                addresses_view(self.results@) == addresses_view(old_results) + house_addresses(
                    take_at_most(matching_houses(sv.subrange(0, i as int), filter), remaining as int),
                    street_name,
                ),
            decreases n - i,
        {
            let h = &sorted[i];
            proof {
                lemma_matching_houses_step(sv, filter, i as int);
            }
            let keep: bool = match &self.house_filter {
                Option::Some(f) => contains_sub(lowercase(h.number.as_str()).as_str(), f.as_str()),
                Option::None => true,
            };
            if keep && taken < remaining {
                let mut id = i64_to_string(h.id);
                let mut label = st.name.clone();
                label.append(" ");
                label.append(h.number.as_str());
                proof {
                    reveal_strlit(" ");
                    assert(" "@ =~= seq![' ']);
                }
                let addr = Address {
                    id: AddressId(id),
                    city: CityId("nuremberg".to_owned()),
                    label,
                    street: st.name.clone(),
                    house_number: h.number.clone(),
                };
                let ghost old_map = addresses_view(self.results@);
                self.results.push(addr);
                taken += 1;
                proof {
                    assert(addr@ == house_address(sv[i as int], street_name));
                    assert(addresses_view(self.results@) =~= old_map.push(addr@));
                    let m0 = matching_houses(sv.subrange(0, i as int), filter);
                    let m1 = matching_houses(sv.subrange(0, i + 1), filter);
                    assert(m1 == m0.push(sv[i as int]));
                    assert(take_at_most(m1, remaining as int) =~= take_at_most(
                        m0,
                        remaining as int,
                    ).push(sv[i as int]));
                    assert(house_addresses(take_at_most(m1, remaining as int), street_name)
                        =~= house_addresses(take_at_most(m0, remaining as int), street_name).push(
                        addr@,
                    ));
                }
            } else {
                proof {
                    let m0 = matching_houses(sv.subrange(0, i as int), filter);
                    let m1 = matching_houses(sv.subrange(0, i + 1), filter);
                    if keep {
                        assert(taken == remaining);
                        assert(m1 == m0.push(sv[i as int]));
                        assert(take_at_most(m1, remaining as int) =~= take_at_most(
                            m0,
                            remaining as int,
                        ));
                    } else {
                        assert(m1 == m0);
                    }
                }
            }
            i += 1;
        }
        proof {
            assert(sv.subrange(0, n as int) =~= sv);
        }
    }

    /// The collected addresses, at most the limit many.
    pub fn finish(self) -> (r: Vec<Address>)
        requires
            self.inv(),
        ensures
            r == self.results,
            r@.len() <= self.limit,
    {
        self.results
    }
}

/// Address identity: an identifier this provider issues for a house whose
/// backend id fits the decodable 32-bit range is decoded back to that same
/// id by this provider's schedule lookup.
pub proof fn lemma_nuremberg_address_id_round_trip(h: HouseRec, street_name: Seq<char>)
    requires
        0 <= h.id <= 2147483647,
    ensures
        parse_i32_spec(house_address(h, street_name).id) == Some(h.id as i32),
{
    crate::numbers::lemma_decimal_round_trip(h.id as int);
}

/// The display name the backend's fraction list gives an id; on duplicate
/// ids the last entry wins.
pub open spec fn last_fraction_name(fractions: Seq<FractionRec>, id: i64) -> Option<String>
    decreases fractions.len(),
{
    if fractions.len() == 0 {
        Option::None
    } else if fractions.last().id == id {
        Option::Some(fractions.last().name)
    } else {
        last_fraction_name(fractions.drop_last(), id)
    }
}

/// Find the display name of a fraction id.
fn find_fraction_name(fractions: &Vec<FractionRec>, id: i64) -> (r: Option<String>)
    ensures
        r == last_fraction_name(fractions@, id),
{
    let mut j: usize = fractions.len();
    proof {
        assert(fractions@.subrange(0, fractions@.len() as int) =~= fractions@);
    }
    loop
        invariant
            j <= fractions@.len(),
            last_fraction_name(fractions@, id) == last_fraction_name(
                fractions@.subrange(0, j as int),
                id,
            ),
        ensures
            j <= fractions@.len(),
            last_fraction_name(fractions@, id) == last_fraction_name(
                fractions@.subrange(0, j as int),
                id,
            ),
            j == 0 || fractions@[j - 1].id == id,
        decreases j,
    {
        if j == 0 {
            break ;
        }
        if fractions[j - 1].id == id {
            break ;
        }
        proof {
            assert(fractions@.subrange(0, j as int).drop_last() =~= fractions@.subrange(
                0,
                j - 1,
            ));
            assert(fractions@.subrange(0, j as int).last() == fractions@[j - 1]);
        }
        j -= 1;
    }
    if j == 0 {
        proof {
            assert(fractions@.subrange(0, 0).len() == 0);
        }
        None
    } else {
        proof {
            assert(fractions@.subrange(0, j as int).last() == fractions@[j - 1]);
        }
        Some(fractions[j - 1].name.clone())
    }
}

/// The event a pickup with the parsed date `d` translates to: the fraction
/// list names its district's fraction, which the keyword mapping then
/// classifies; a missing district or unknown id degrades to an `Other`
/// fraction, never to a dropped event.
pub open spec fn pickup_event(p: PickupRec, d: Date, fractions: Seq<FractionRec>) -> PickupEventView {
    match p.fraction_id {
        Option::None => PickupEventView {
            date: d,
            fraction: FractionView::Other("Unknown fraction"@),
            note: Option::None,
        },
        Option::Some(fid) => match last_fraction_name(fractions, fid) {
            Option::Some(name) => PickupEventView {
                date: d,
                fraction: nuremberg_fraction(lower_of(name@), name@),
                note: Option::Some(name@),
            },
            Option::None => PickupEventView {
                date: d,
                fraction: FractionView::Other("Fraction "@ + dec_int(fid as int)),
                note: Option::None,
            },
        },
    }
}

/// The events of the in-range pickups whose dates parse, in response order.
pub open spec fn nuremberg_events(
    pickups: Seq<PickupRec>,
    fractions: Seq<FractionRec>,
    range: DateRange,
) -> Seq<PickupEventView>
    decreases pickups.len(),
{
    if pickups.len() == 0 {
        Seq::empty()
    } else {
        let rest = nuremberg_events(pickups.drop_last(), fractions, range);
        let p = pickups.last();
        match parse_date_spec(p.date@) {
            Option::Some(d) => if in_range(d, range) {
                rest.push(pickup_event(p, d, fractions))
            } else {
                rest
            },
            Option::None => rest,
        }
    }
}

/// Fraction totality: every backend fraction name maps to a canonical
/// fraction or to `Other` carrying the original name unchanged — never to
/// anything else, and the name is never dropped.
pub proof fn lemma_nuremberg_fraction_total(lowered: Seq<char>, raw: Seq<char>)
    ensures
        nuremberg_fraction(lowered, raw) == FractionView::Residual || nuremberg_fraction(
            lowered,
            raw,
        ) == FractionView::Organic || nuremberg_fraction(lowered, raw) == FractionView::Paper
            || nuremberg_fraction(lowered, raw) == FractionView::Plastic || nuremberg_fraction(
            lowered,
            raw,
        ) == FractionView::Glass || nuremberg_fraction(lowered, raw) == FractionView::Metal
            || nuremberg_fraction(lowered, raw) == FractionView::Other(raw),
{
}

/// Every event of the translated schedule lies within the requested range.
proof fn lemma_nuremberg_events_in_range(
    pickups: Seq<PickupRec>,
    fractions: Seq<FractionRec>,
    range: DateRange,
)
    ensures
        forall|i: int|
            0 <= i < nuremberg_events(pickups, fractions, range).len() ==> in_range(
                (#[trigger] nuremberg_events(pickups, fractions, range)[i]).date,
                range,
            ),
    decreases pickups.len(),
{
    if pickups.len() > 0 {
        lemma_nuremberg_events_in_range(pickups.drop_last(), fractions, range);
    }
}

/// Range filtering: a successful schedule fetch returns only events dated
/// within the requested inclusive range.
pub proof fn lemma_nuremberg_schedule_range(
    pickups: Seq<PickupRec>,
    fractions: Seq<FractionRec>,
    range: DateRange,
    v: Seq<PickupEvent>,
)
    requires
        events_view(v).to_multiset() == nuremberg_events(pickups, fractions, range).to_multiset(),
    ensures
        forall|i: int| 0 <= i < v.len() ==> in_range((#[trigger] v[i])@.date, range),
{
    lemma_nuremberg_events_in_range(pickups, fractions, range);
    assert forall|i: int| 0 <= i < v.len() implies in_range(v[i]@.date, range) by {
        assert(events_view(v)[i] == v[i]@);
        crate::sorting::lemma_multiset_elem_source(
            events_view(v),
            nuremberg_events(pickups, fractions, range),
            i,
        );
    }
}

/// A pending Nuremberg schedule lookup: the decoded house-number id and the
/// requested range.
#[derive(Debug)]
pub struct NurembergSchedule {
    /// Backend house-number id the address identifier decodes to.
    pub house_id: i32,
    /// Requested inclusive date range.
    pub range: DateRange,
}

impl NurembergSchedule {
    /// Decode the provider-private address identifier, failing with an
    /// invalid-address-id error exactly when it is not a decimal 32-bit
    /// number.
    pub fn begin(address_id: &AddressId, range: DateRange) -> (r: Result<
        NurembergSchedule,
        PortError,
    >)
        ensures
            r is Err <==> parse_i32_spec(address_id@) is None,
            r matches Err(e) ==> e == PortError::InvalidAddressId,
            r matches Ok(s) ==> Option::Some(s.house_id) == parse_i32_spec(address_id@) && s.range
                == range,
    {
        match parse_i32(address_id.0.as_str()) {
            Option::Some(house_id) => Ok(NurembergSchedule { house_id, range }),
            Option::None => Err(PortError::InvalidAddressId),
        }
    }

    /// The fraction ids to request pickups for: each fraction of the
    /// backend's list, in order.
    pub fn fraction_ids(&self, fractions: &Vec<FractionRec>) -> (r: Vec<i64>)
        ensures
            r@ == fractions@.map_values(|f: FractionRec| f.id),
    {
        let n: usize = fractions.len();
        let mut out: Vec<i64> = Vec::new();
        let mut i: usize = 0;
        while i < n
            invariant
                i <= n,
                n == fractions@.len(),
                out@.len() == i,
                forall|t: int| 0 <= t < i ==> out@[t] == fractions@[t].id,
            decreases n - i,
        {
            out.push(fractions[i].id);
            i += 1;
        }
        proof {
            assert(out@ =~= fractions@.map_values(|f: FractionRec| f.id));
        }
        out
    }

    /// Translate the backend's pickups: reject the response when any date
    /// does not parse, otherwise keep the in-range events, each classified
    /// through the fraction list, sorted ascending by date.
    pub fn finish(&self, pickups: Vec<PickupRec>, fractions: &Vec<FractionRec>) -> (r: Result<
        Vec<PickupEvent>,
        PortError,
    >)
        ensures
            r is Ok <==> (forall|i: int|
                0 <= i < pickups@.len() ==> parse_date_spec(
                    (#[trigger] pickups@[i]).date@,
                ) is Some),
            r matches Err(e) ==> (e matches PortError::Parse(m) && exists|i: int|
                0 <= i < pickups@.len() && parse_date_spec((#[trigger] pickups@[i]).date@) is None
                    && m@ == pickups@[i].date@),
            r matches Ok(v) ==> events_sorted(v@) && events_view(v@).to_multiset()
                == nuremberg_events(pickups@, fractions@, self.range).to_multiset(),
    {
        let n: usize = pickups.len();
        let mut events: Vec<PickupEvent> = Vec::new();
        let mut i: usize = 0;
        proof {
            assert(pickups@.subrange(0, 0) =~= Seq::<PickupRec>::empty());
            assert(events_view(events@) =~= nuremberg_events(
                pickups@.subrange(0, 0),
                fractions@,
                self.range,
            ));
        }
        while i < n
            invariant
                i <= n,
                n == pickups@.len(),
                forall|t: int|
                    0 <= t < i ==> parse_date_spec((#[trigger] pickups@[t]).date@) is Some,
                events_view(events@) == nuremberg_events(
                    pickups@.subrange(0, i as int),
                    fractions@,
                    self.range,
                ),
            decreases n - i,
        {
            let p = &pickups[i];
            let date = match parse_date(p.date.as_str()) {
                Option::Some(d) => d,
                Option::None => {
                    return Err(PortError::Parse(p.date.clone()));
                },
            };
            proof {
                assert(pickups@.subrange(0, i + 1).drop_last() =~= pickups@.subrange(0, i as int));
                assert(pickups@.subrange(0, i + 1).last() == pickups@[i as int]);
            }
            if date_in_range(&date, &self.range) {
                let (fraction, note): (Fraction, Option<String>) = match &p.fraction_id {
                    Option::None => (Fraction::Other("Unknown fraction".to_owned()), None),
                    Option::Some(fid) => {
                        match find_fraction_name(fractions, *fid) {
                            Option::Some(name) => {
                                let f = map_fraction(name.as_str());
                                (f, Some(name))
                            },
                            Option::None => {
                                let mut s = "Fraction ".to_owned();
                                s.append(i64_to_string(*fid).as_str());
                                proof {
                                    assert(s@ == "Fraction "@ + dec_int(*fid as int));
                                }
                                (Fraction::Other(s), None)
                            },
                        }
                    },
                };
                let ev = PickupEvent { date, fraction, note };
                let ghost old_map = events_view(events@);
                events.push(ev);
                proof {
                    assert(ev@ == pickup_event(pickups@[i as int], date, fractions@));
                    assert(events_view(events@) =~= old_map.push(ev@));
                    assert(events_view(events@) =~= nuremberg_events(
                        pickups@.subrange(0, i + 1),
                        fractions@,
                        self.range,
                    ));
                }
            } else {
                proof {
                    assert(events_view(events@) =~= nuremberg_events(
                        pickups@.subrange(0, i + 1),
                        fractions@,
                        self.range,
                    ));
                }
            }
            i += 1;
        }
        proof {
            assert(pickups@.subrange(0, n as int) =~= pickups@);
        }
        let sorted = sort_events(events);
        proof {
            lemma_equal_multiset_map(sorted@, events@, |pe: PickupEvent| pe@);
            assert(sorted@.map_values(|pe: PickupEvent| pe@) =~= events_view(sorted@));
            assert(events@.map_values(|pe: PickupEvent| pe@) =~= events_view(events@));
        }
        Ok(sorted)
    }
}

/// Build the plugin bundle for the Nuremberg provider.
pub fn plugin() -> (r: CityPlugin)
    ensures
        r.meta.id@ == "nuremberg"@,
        r.meta.name@ == "Nürnberg"@,
        r.provider == ProviderKind::Nuremberg,
{
    CityPlugin { meta: city_meta(), provider: ProviderKind::Nuremberg }
}

} // verus!
