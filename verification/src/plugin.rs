//! Registry resolving a city identifier to the bundle of metadata and
//! provider implementation registered for it.

use crate::model::CityId;
use crate::model::CityMeta;
use crate::ports::PortError;
use vstd::prelude::*;

verus! {

/// The provider implementation a city's plugin dispatches to.
#[derive(Debug, Clone, Copy, PartialEq, Eq, Structural)]
pub enum ProviderKind {
    /// The Cologne AWB backend.
    Cologne,
    /// The Nuremberg waste-collection backend.
    Nuremberg,
}

/// Bundle wiring one city's metadata to its provider implementation.
#[derive(Debug)]
pub struct CityPlugin {
    /// Static metadata describing the city.
    pub meta: CityMeta,
    /// The provider implementation answering for this city.
    pub provider: ProviderKind,
}

/// Index of the first plugin at or after `i` whose id is `id`, or the length
/// when none matches.
pub open spec fn find_plugin_idx(s: Seq<CityPlugin>, id: Seq<char>, i: int) -> int
    decreases s.len() - i,
{
    if 0 <= i < s.len() {
        if s[i].meta.id@ == id {
            i
        } else {
            find_plugin_idx(s, id, i + 1)
        }
    } else {
        s.len() as int
    }
}

/// Whether some plugin with identifier `id` is present.
pub open spec fn registered(s: Seq<CityPlugin>, id: Seq<char>) -> bool {
    exists|i: int| 0 <= i < s.len() && (#[trigger] s[i]).meta.id@ == id
}

/// What `find_plugin_idx` finds: the first match, or nothing at all.
pub proof fn lemma_find_plugin_idx(s: Seq<CityPlugin>, id: Seq<char>, i: int)
    requires
        0 <= i <= s.len(),
    ensures
        i <= find_plugin_idx(s, id, i) <= s.len(),
        find_plugin_idx(s, id, i) < s.len() ==> s[find_plugin_idx(s, id, i)].meta.id@ == id,
        forall|j: int| i <= j < find_plugin_idx(s, id, i) ==> (#[trigger] s[j]).meta.id@ != id,
    decreases s.len() - i,
{
    if i < s.len() && s[i].meta.id@ != id {
        lemma_find_plugin_idx(s, id, i + 1);
    }
}

/// The registry contents after registering each plugin in order: a later
/// plugin under an already-registered id replaces the earlier one in place.
pub open spec fn register_all(s: Seq<CityPlugin>) -> Seq<CityPlugin>
    decreases s.len(),
{
    if s.len() == 0 {
        Seq::empty()
    } else {
        let acc = register_all(s.drop_last());
        let p = s.last();
        let i = find_plugin_idx(acc, p.meta.id@, 0);
        if i < acc.len() {
            acc.update(i, p)
        } else {
            acc.push(p)
        }
    }
}

/// An id is registered exactly when some plugin of the input list carries it.
pub proof fn lemma_register_all_ids(s: Seq<CityPlugin>, id: Seq<char>)
    ensures
        registered(register_all(s), id) <==> (exists|i: int|
            0 <= i < s.len() && (#[trigger] s[i]).meta.id@ == id),
    decreases s.len(),
{
    if s.len() > 0 {
        let acc = register_all(s.drop_last());
        let p = s.last();
        let k = find_plugin_idx(acc, p.meta.id@, 0);
        lemma_register_all_ids(s.drop_last(), id);
        lemma_find_plugin_idx(acc, p.meta.id@, 0);
        let out = register_all(s);
        if p.meta.id@ == id {
            assert(out[if k < acc.len() {
                k
            } else {
                acc.len() as int
            }].meta.id@ == id);
            assert(registered(out, id));
            assert(s[s.len() - 1].meta.id@ == id);
        } else {
            assert forall|a: int| 0 <= a < out.len() && (#[trigger] out[a]).meta.id@ == id implies
                registered(acc, id) by {
                if a != k {
                    assert(out[a] == acc[a]);
                }
            }
            assert forall|a: int| 0 <= a < acc.len() && (#[trigger] acc[a]).meta.id@ == id implies
                registered(out, id) by {
                assert(a != k);
                assert(out[a] == acc[a]);
            }
            assert forall|a: int| 0 <= a < s.len() && (#[trigger] s[a]).meta.id@ == id implies (
            exists|i: int|
                0 <= i < s.drop_last().len() && (#[trigger] s.drop_last()[i]).meta.id@ == id) by {
                assert(a < s.len() - 1);
                assert(s.drop_last()[a].meta.id@ == id);
            }
            assert forall|a: int|
                0 <= a < s.drop_last().len() && (#[trigger] s.drop_last()[a]).meta.id@ == id
                implies (exists|i: int| 0 <= i < s.len() && (#[trigger] s[i]).meta.id@ == id) by {
                assert(s[a].meta.id@ == id);
            }
        }
    }
}

/// The plugin registered under `id`, if any.
pub open spec fn lookup(s: Seq<CityPlugin>, id: Seq<char>) -> Option<CityPlugin> {
    let i = find_plugin_idx(s, id, 0);
    if i < s.len() {
        Some(s[i])
    } else {
        None
    }
}

/// Registry that resolves plugins by city identifier.
#[derive(Debug)]
pub struct PluginRegistry {
    /// The registered plugins, ids pairwise distinct.
    pub plugins: Vec<CityPlugin>,
}

impl View for PluginRegistry {
    type V = Seq<CityPlugin>;

    open spec fn view(&self) -> Seq<CityPlugin> {
        self.plugins@
    }
}

/// Scan for the index registered under `id`.
fn find_index(plugins: &Vec<CityPlugin>, id: &CityId) -> (r: usize)
    ensures
        r as int == find_plugin_idx(plugins@, id@, 0),
{
    let n: usize = plugins.len();
    let mut i: usize = 0;
    loop
        invariant
            i <= n,
            n == plugins@.len(),
            find_plugin_idx(plugins@, id@, 0) == find_plugin_idx(plugins@, id@, i as int),
        ensures
            i <= n,
            find_plugin_idx(plugins@, id@, 0) == i as int,
        decreases n - i,
    {
        if i >= n {
            break ;
        }
        if plugins[i].meta.id.0 == id.0 {
            break ;
        }
        i += 1;
    }
    i
}

impl PluginRegistry {
    /// Build a registry from the provided plugin list; on duplicate ids the
    /// later plugin wins.
    pub fn new(plugins: Vec<CityPlugin>) -> (r: PluginRegistry)
        ensures
            r@ == register_all(plugins@),
    {
        let ghost orig = plugins@;
        let n: usize = plugins.len();
        let mut plugins = plugins;
        let mut out: Vec<CityPlugin> = Vec::new();
        let mut k: usize = 0;
        proof {
            assert(orig.subrange(0, 0) =~= Seq::<CityPlugin>::empty());
        }
        while plugins.len() > 0
            invariant
                orig.len() == n as int,
                k <= orig.len(),
                plugins@ == orig.skip(k as int),
                out@ == register_all(orig.subrange(0, k as int)),
            decreases plugins@.len(),
        {
            let p = plugins.remove(0);
            proof {
                assert((k as int) < orig.len());
                assert(orig.skip(k as int).remove(0) =~= orig.skip(k + 1));
                assert(p == orig[k as int]);
            }
            let idx = find_index(&out, &p.meta.id);
            let ghost old_out = out@;
            proof {
                lemma_find_plugin_idx(old_out, p.meta.id@, 0);
            }
            if idx < out.len() {
                out.remove(idx);
                out.insert(idx, p);
                proof {
                    assert(out@ =~= old_out.update(idx as int, orig[k as int]));
                }
            } else {
                out.push(p);
            }
            proof {
                assert(orig.subrange(0, k + 1).drop_last() =~= orig.subrange(0, k as int));
                assert(orig.subrange(0, k + 1).last() == orig[k as int]);
                assert(out@ =~= register_all(orig.subrange(0, k + 1)));
            }
            k += 1;
        }
        proof {
            assert(orig.subrange(0, k as int) =~= orig);
        }
        PluginRegistry { plugins: out }
    }

    /// Return metadata for all registered cities, in registry order.
    pub fn cities(&self) -> (r: Vec<CityMeta>)
        ensures
            r@.len() == self@.len(),
            forall|i: int| 0 <= i < r@.len() ==> (#[trigger] r@[i])@ == self@[i].meta@,
    {
        let n: usize = self.plugins.len();
        let mut out: Vec<CityMeta> = Vec::new();
        let mut i: usize = 0;
        while i < n
            invariant
                i <= n,
                n == self@.len(),
                out@.len() == i,
                forall|t: int| 0 <= t < i ==> (#[trigger] out@[t])@ == self@[t].meta@,
            decreases n - i,
        {
            let meta = CityMeta {
                id: CityId(self.plugins[i].meta.id.0.clone()),
                name: self.plugins[i].meta.name.clone(),
            };
            out.push(meta);
            i += 1;
        }
        out
    }

    /// Look up the plugin for the given city: the registered bundle, whose
    /// metadata carries that same id, or an unsupported-city error exactly
    /// when no plugin is registered under it.
    pub fn plugin(&self, city: &CityId) -> (r: Result<&CityPlugin, PortError>)
        ensures
            r is Ok <==> registered(self@, city@),
            r matches Ok(p) ==> Some(*p) == lookup(self@, city@) && p.meta.id@ == city@,
            r matches Err(e) ==> e == PortError::UnsupportedCity,
    {
        let idx = find_index(&self.plugins, city);
        proof {
            lemma_find_plugin_idx(self@, city@, 0);
            if registered(self@, city@) {
                let w = choose|i: int| 0 <= i < self@.len() && (#[trigger] self@[i]).meta.id@
                    == city@;
                assert(find_plugin_idx(self@, city@, 0) <= w);
            }
        }
        if idx < self.plugins.len() {
            Ok(&self.plugins[idx])
        } else {
            Err(PortError::UnsupportedCity)
        }
    }
}

} // verus!
