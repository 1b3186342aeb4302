//! Stable-order sorting of pickup events by date, together with the multiset
//! bookkeeping the sorting proofs need.

use crate::model::PickupEvent;
use vstd::multiset::Multiset;
use vstd::prelude::*;

verus! {

/// Sequences holding the same elements, in any order, still hold the same
/// elements after mapping each one.
pub proof fn lemma_equal_multiset_map<A, B>(s: Seq<A>, t: Seq<A>, f: spec_fn(A) -> B)
    requires
        s.to_multiset() == t.to_multiset(),
    ensures
        s.map_values(f).to_multiset() == t.map_values(f).to_multiset(),
    decreases s.len(),
{
    broadcast use vstd::multiset::group_multiset_axioms;

    vstd::seq_lib::to_multiset_len(s);
    vstd::seq_lib::to_multiset_len(t);
    if s.len() == 0 {
        assert(s.map_values(f) =~= t.map_values(f));
    } else {
        let a = s.last();
        assert(s.contains(a)) by {
            assert(s[s.len() - 1] == a);
        }
        vstd::seq_lib::to_multiset_contains(s, a);
        vstd::seq_lib::to_multiset_contains(t, a);
        assert(t.contains(a));
        let j = choose|j: int| 0 <= j < t.len() && t[j] == a;
        let dl = s.drop_last();
        assert(dl.push(a) =~= s);
        vstd::seq_lib::to_multiset_build(dl, a);
        vstd::seq_lib::to_multiset_remove(t, j);
        assert(dl.to_multiset() =~= t.remove(j).to_multiset()) by {
            assert forall|x: A| #[trigger] dl.to_multiset().count(x) == t.remove(
                j,
            ).to_multiset().count(x) by {
                assert(dl.to_multiset().insert(a).count(x) == t.to_multiset().count(x));
            }
        }
        lemma_equal_multiset_map(dl, t.remove(j), f);
        let ms = s.map_values(f);
        let mt = t.map_values(f);
        assert(ms =~= dl.map_values(f).push(f(a)));
        vstd::seq_lib::to_multiset_build(dl.map_values(f), f(a));
        assert(t.remove(j).map_values(f) =~= mt.remove(j));
        vstd::seq_lib::to_multiset_remove(mt, j);
        assert(mt[j] == f(a));
        assert(mt.contains(f(a))) by {
            assert(mt[j] == f(a));
        }
        vstd::seq_lib::to_multiset_contains(mt, f(a));
        assert(ms.to_multiset() =~= mt.to_multiset()) by {
            assert forall|x: B| #[trigger] ms.to_multiset().count(x) == mt.to_multiset().count(
                x,
            ) by {
                assert(mt.remove(j).to_multiset().count(x) == mt.to_multiset().remove(f(a)).count(
                    x,
                ));
            }
        }
    }
}

/// Every element of a sequence occurs in any sequence holding the same
/// elements.
pub proof fn lemma_multiset_elem_source<A>(s: Seq<A>, t: Seq<A>, i: int)
    requires
        s.to_multiset() == t.to_multiset(),
        0 <= i < s.len(),
    ensures
        exists|j: int| 0 <= j < t.len() && t[j] == s[i],
{
    vstd::seq_lib::to_multiset_contains(s, s[i]);
    assert(s.contains(s[i]));
    vstd::seq_lib::to_multiset_contains(t, s[i]);
    assert(t.contains(s[i]));
}

/// Whether the events are in non-decreasing date order.
pub open spec fn events_sorted(s: Seq<PickupEvent>) -> bool {
    forall|i: int, j: int|
        0 <= i <= j < s.len() ==> (#[trigger] s[i].date).le_spec(#[trigger] s[j].date)
}

/// Sort pickup events by date, keeping exactly the same events.
pub fn sort_events(events: Vec<PickupEvent>) -> (r: Vec<PickupEvent>)
    ensures
        events_sorted(r@),
        r@.to_multiset() == events@.to_multiset(),
        r@.len() == events@.len(),
{
    broadcast use vstd::seq_lib::group_to_multiset_ensures;
    broadcast use vstd::multiset::group_multiset_axioms;

    let ghost orig = events@;
    let mut out: Vec<PickupEvent> = Vec::new();
    let mut events = events;
    while events.len() > 0
        invariant
            events_sorted(out@),
            out@.to_multiset().add(events@.to_multiset()) == orig.to_multiset(),
            out@.len() + events@.len() == orig.len(),
        decreases events@.len(),
    {
        let ghost before = events@;
        let ev = events.remove(0);
        proof {
            vstd::seq_lib::to_multiset_remove(before, 0);
            assert(events@ == before.remove(0));
            assert(before[0] == ev);
            assert(before.contains(ev)) by {
                assert(before[0] == ev);
            }
            vstd::seq_lib::to_multiset_contains(before, ev);
            assert(before.to_multiset().count(ev) > 0);
            assert(events@.to_multiset() == before.to_multiset().remove(ev));
        }
        let mut p: usize = 0;
        while p < out.len() && out[p].date.le(&ev.date)
            invariant
                p <= out@.len(),
                forall|k: int| 0 <= k < p ==> out@[k].date.le_spec(ev.date),
            decreases out@.len() - p,
        {
            p += 1;
        }
        let ghost old_out = out@;
        out.insert(p, ev);
        proof {
            old_out.insert_ensures(p as int, ev);
            vstd::seq_lib::to_multiset_insert(old_out, p as int, ev);
            assert forall|x: PickupEvent|
                #[trigger] out@.to_multiset().add(events@.to_multiset()).count(x)
                    == orig.to_multiset().count(x) by {
                assert(old_out.to_multiset().add(before.to_multiset()).count(x)
                    == orig.to_multiset().count(x));
            }
            assert(out@.to_multiset().add(events@.to_multiset()) =~= orig.to_multiset());
            assert forall|a: int, b: int| 0 <= a <= b < out@.len() implies (
            #[trigger] out@[a].date).le_spec(#[trigger] out@[b].date) by {
                if b == p as int && a < b {
                    assert(out@[a] == old_out[a]);
                } else if a == p as int && a < b {
                    assert(out@[b] == old_out[b - 1]);
                    assert(!old_out[p as int].date.le_spec(ev.date));
                    assert(ev.date.le_spec(old_out[p as int].date));
                    assert(old_out[p as int].date.le_spec(old_out[b - 1].date));
                } else if a < p as int && b > p as int {
                    assert(out@[a] == old_out[a]);
                    assert(out@[b] == old_out[b - 1]);
                } else if b < p as int {
                    assert(out@[a] == old_out[a]);
                    assert(out@[b] == old_out[b]);
                } else if a > p as int {
                    assert(out@[a] == old_out[a - 1]);
                    assert(out@[b] == old_out[b - 1]);
                }
            }
        }
    }
    proof {
        vstd::seq_lib::to_multiset_len(events@);
        vstd::seq_lib::to_multiset_len(out@);
        vstd::seq_lib::to_multiset_len(orig);
        assert(events@.to_multiset() =~= Multiset::<PickupEvent>::empty());
        assert(out@.to_multiset() =~= orig.to_multiset());
    }
    out
}

} // verus!
