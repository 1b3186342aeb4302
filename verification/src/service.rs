//! Service facade: the single entry point resolving a city to its provider
//! bundle and shaping that provider's session, propagating provider errors
//! unchanged.

use crate::cologne;
use crate::date::DateRange;
use crate::model::Address;
use crate::model::AddressId;
use crate::model::CityId;
use crate::nuremberg;
use crate::plugin::PluginRegistry;
use crate::plugin::ProviderKind;
use crate::plugin::lookup;
use crate::plugin::registered;
use crate::ports::AddressSearch;
use crate::ports::PortError;
use crate::text::lower_of;
use crate::text::trim_of;
use vstd::prelude::*;

verus! {

/// An address search routed to the resolved provider: either already
/// finished (the short-circuit case), or a provider session for the caller
/// to drive.
#[derive(Debug)]
pub enum SearchSession {
    /// The search finished without any backend call; these are its results.
    Done(Vec<Address>),
    /// A pending Cologne search.
    Cologne(cologne::CologneSearch),
    /// A pending Nuremberg search.
    Nuremberg(nuremberg::NurembergSearch),
}

/// A schedule lookup routed to the resolved provider.
#[derive(Debug)]
pub enum ScheduleSession {
    /// A pending Cologne schedule lookup.
    Cologne(cologne::CologneSchedule),
    /// A pending Nuremberg schedule lookup.
    Nuremberg(nuremberg::NurembergSchedule),
}

/// Public entry point for searching addresses and schedules.
#[derive(Debug)]
pub struct TonneliService {
    /// The immutable registry resolving cities to providers.
    pub registry: PluginRegistry,
}

impl TonneliService {
    /// Create a new service bound to the provided registry.
    pub fn new(registry: PluginRegistry) -> (r: TonneliService)
        ensures
            r.registry == registry,
    {
        TonneliService { registry }
    }

    /// List all available cities and their display names, in registry
    /// order.
    pub fn cities(&self) -> (r: Vec<(CityId, String)>)
        ensures
            r@.len() == self.registry@.len(),
            forall|i: int|
                0 <= i < r@.len() ==> (#[trigger] r@[i]).0@ == self.registry@[i].meta.id@
                    && r@[i].1@ == self.registry@[i].meta.name@,
    {
        let metas = self.registry.cities();
        let ghost mv = metas@;
        let n: usize = metas.len();
        let mut metas = metas;
        let mut out: Vec<(CityId, String)> = Vec::new();
        let mut i: usize = 0;
        while metas.len() > 0
            invariant
                mv.len() == n as int,
                n == self.registry@.len(),
                i <= n,
                metas@ == mv.skip(i as int),
                out@.len() == i,
                forall|t: int|
                    0 <= t < mv.len() ==> (#[trigger] mv[t])@ == self.registry@[t].meta@,
                forall|t: int|
                    0 <= t < i ==> (#[trigger] out@[t]).0@ == self.registry@[t].meta.id@
                        && out@[t].1@ == self.registry@[t].meta.name@,
            decreases metas@.len(),
        {
            let meta = metas.remove(0);
            proof {
                assert((i as int) < mv.len());
                assert(mv.skip(i as int).remove(0) =~= mv.skip(i + 1));
                assert(meta == mv[i as int]);
            }
            out.push((meta.id, meta.name));
            i += 1;
        }
        out
    }

    /// Route an address search: resolve the city, propagating the
    /// unsupported-city failure unchanged, then shape the resolved
    /// provider's search. A zero limit or a blank street finishes at once
    /// with no results and no backend call.
    pub fn search_addresses(
        &self,
        city: &CityId,
        query: &AddressSearch,
        limit: usize,
        year: i32,
    ) -> (r: Result<SearchSession, PortError>)
        ensures
            r is Err <==> !registered(self.registry@, city@),
            r matches Err(e) ==> e == PortError::UnsupportedCity,
            r matches Ok(s) ==> (lookup(self.registry@, city@) matches Some(p) && {
                &&& ((limit == 0 || query.is_blank_query()) <==> s is Done)
                &&& (s matches SearchSession::Done(v) ==> v@.len() == 0)
                &&& (s matches SearchSession::Cologne(cs) ==> p.provider == ProviderKind::Cologne
                    && cs.limit == limit && cs.query.street_name@ == trim_of(query.street@)
                    && cs.query.building_number@ == cologne::shaped_house(*query))
                &&& (s matches SearchSession::Nuremberg(ns) ==> p.provider
                    == ProviderKind::Nuremberg && ns.inv() && ns.limit == limit && ns.year == year
                    && ns.query_lower@ == lower_of(trim_of(query.street@)) && (match ns
                    .house_filter {
                    Option::Some(f) => nuremberg::shaped_filter(*query) == Option::Some(f@),
                    Option::None => nuremberg::shaped_filter(*query) is None,
                }) && ns.pending@.len() == 0 && ns.results@.len() == 0)
                &&& (p.provider == ProviderKind::Cologne && !(limit == 0 || query.is_blank_query())
                    ==> s is Cologne)
                &&& (p.provider == ProviderKind::Nuremberg && !(limit == 0
                    || query.is_blank_query()) ==> s is Nuremberg)
            }),
    {
        let plugin = match self.registry.plugin(city) {
            Ok(p) => p,
            Err(e) => {
                return Err(e);
            },
        };
        match plugin.provider {
            ProviderKind::Cologne => match cologne::CologneSearch::begin(query, limit) {
                Option::Some(cs) => Ok(SearchSession::Cologne(cs)),
                Option::None => Ok(SearchSession::Done(Vec::new())),
            },
            ProviderKind::Nuremberg => match nuremberg::NurembergSearch::begin(query, limit, year) {
                Option::Some(ns) => Ok(SearchSession::Nuremberg(ns)),
                Option::None => Ok(SearchSession::Done(Vec::new())),
            },
        }
    }

    /// Route a schedule lookup: resolve the city, propagating the
    /// unsupported-city failure unchanged, then decode the address
    /// identifier with the resolved provider, failing with an
    /// invalid-address-id error exactly when the identifier does not follow
    /// that provider's encoding.
    pub fn schedule_for(&self, city: &CityId, address_id: &AddressId, range: DateRange) -> (r:
        Result<ScheduleSession, PortError>)
        ensures
            !registered(self.registry@, city@) ==> (r matches Err(e) && e
                == PortError::UnsupportedCity),
            registered(self.registry@, city@) ==> (lookup(self.registry@, city@) matches Some(p)
                && {
                &&& (p.provider == ProviderKind::Cologne ==> {
                    &&& (r is Err <==> !cologne::id_decodes(address_id@))
                    &&& (r matches Err(e) ==> e == PortError::InvalidAddressId)
                    &&& (r matches Ok(s) ==> (s matches ScheduleSession::Cologne(cs) && cs.range
                        == range && cs.key.street_code@ == cologne::decoded_street_code(
                        address_id@,
                    ) && cs.key.building_number@ == cologne::decoded_building_number(address_id@)
                        && cs.key.addition@ == cologne::decoded_addition(address_id@)))
                })
                &&& (p.provider == ProviderKind::Nuremberg ==> {
                    &&& (r is Err <==> crate::numbers::parse_i32_spec(address_id@) is None)
                    &&& (r matches Err(e) ==> e == PortError::InvalidAddressId)
                    &&& (r matches Ok(s) ==> (s matches ScheduleSession::Nuremberg(ns) && ns.range
                        == range && Option::Some(ns.house_id) == crate::numbers::parse_i32_spec(
                        address_id@,
                    )))
                })
            }),
    {
        let plugin = match self.registry.plugin(city) {
            Ok(p) => p,
            Err(e) => {
                return Err(e);
            },
        };
        match plugin.provider {
            ProviderKind::Cologne => match cologne::CologneSchedule::begin(address_id, range) {
                Ok(cs) => Ok(ScheduleSession::Cologne(cs)),
                Err(e) => Err(e),
            },
            ProviderKind::Nuremberg => match nuremberg::NurembergSchedule::begin(
                address_id,
                range,
            ) {
                Ok(ns) => Ok(ScheduleSession::Nuremberg(ns)),
                Err(e) => Err(e),
            },
        }
    }
}

} // verus!
