//! Collections keyed by entity or context id.
use std::collections::HashMap;
use vstd::prelude::*;

verus! {

broadcast use vstd::std_specs::hash::group_hash_axioms;

/// Whether a sequence lists each element of a set exactly once.
pub open spec fn lists(ids: Seq<u64>, set: Set<u64>) -> bool {
    ids.no_duplicates() && ids.to_set() == set
}

/// The keys of a map, each once, in the map's own order.
pub fn map_ids<V>(map: &HashMap<u64, V>) -> (r: Vec<u64>)
    ensures
        lists(r@, map@.dom()),
{
    let mut out: Vec<u64> = Vec::new();
    let ghost keys = vstd::std_specs::iter::IteratorSpec::remaining(
        &vstd::std_specs::hash::spec_keys_iter(map),
    ).unref();
    for k in it: map.keys()
        invariant
            it.seq().unref() == keys,
            out@ == keys.take(it.index()),
    {
        proof {
            assert(keys.take(it.index() + 1) =~= keys.take(it.index()).push(*k));
        }
        out.push(*k);
    }
    proof {
        assert(keys.take(keys.len() as int) =~= keys);
        assert(forall|id: u64| keys.contains(id) <==> keys.to_set().contains(id));
        assert(out@.to_set() =~= map@.dom());
    }
    out
}

/// Whether a list holds an id.
pub fn contains_id(ids: &Vec<u64>, id: u64) -> (r: bool)
    ensures
        r == ids@.contains(id),
{
    let mut index: usize = 0;
    while index < ids.len()
        invariant
            index <= ids@.len(),
            forall|i: int| 0 <= i < index ==> ids@[i] != id,
        decreases ids@.len() - index,
    {
        if ids[index] == id {
            assert(ids@[index as int] == id);
            return true;
        }
        index = index + 1;
    }
    false
}

/// Removes every entry whose key is not in a list.
pub fn retain_ids<V>(map: &mut HashMap<u64, V>, live: &Vec<u64>)
    ensures
        final(map)@ == old(map)@.restrict(live@.to_set()),
{
    let ids = map_ids(map);
    let ghost before = map@;
    let mut index: usize = 0;
    while index < ids.len()
        invariant
            index <= ids@.len(),
            lists(ids@, before.dom()),
            forall|id: u64| #[trigger]
                map@.dom().contains(id) ==> before.contains_key(id) && map@[id] == before[id],
            forall|id: u64|
                before.contains_key(id) && #[trigger] live@.contains(id) ==> map@.contains_key(id),
            forall|j: int|
                0 <= j < index && !live@.contains(#[trigger] ids@[j]) ==> !map@.contains_key(
                    ids@[j],
                ),
        decreases ids@.len() - index,
    {
        let id: u64 = ids[index];
        if !contains_id(live, id) {
            map.remove(&id);
        }
        index = index + 1;
    }
    proof {
        let kept = before.restrict(live@.to_set());
        assert forall|id: u64| kept.contains_key(id) <==> map@.contains_key(id) by {
            if before.contains_key(id) {
                assert(ids@.to_set().contains(id));
                let j = choose|j: int| 0 <= j < ids@.len() && ids@[j] == id;
                assert(ids@[j] == id);
            }
            assert(live@.to_set().contains(id) <==> live@.contains(id));
        }
        assert(map@ =~= kept);
    }
}

/// A copy of a map from ids to numbers.
pub fn copy_map(map: &HashMap<u64, u64>) -> (r: HashMap<u64, u64>)
    ensures
        r@ == map@,
{
    let ids = map_ids(map);
    let mut out: HashMap<u64, u64> = HashMap::new();
    let mut index: usize = 0;
    while index < ids.len()
        invariant
            index <= ids@.len(),
            lists(ids@, map@.dom()),
            forall|id: u64| #[trigger]
                out@.dom().contains(id) ==> map@.contains_key(id) && out@[id] == map@[id],
            forall|i: int| 0 <= i < index ==> out@.contains_key(#[trigger] ids@[i]),
        decreases ids@.len() - index,
    {
        let id: u64 = ids[index];
        proof {
            assert(ids@.to_set().contains(id));
        }
        if let Some(value) = map.get(&id) {
            out.insert(id, *value);
        }
        index = index + 1;
    }
    proof {
        assert forall|id: u64| map@.contains_key(id) <==> out@.contains_key(id) by {
            if map@.contains_key(id) {
                assert(ids@.to_set().contains(id));
                let i = choose|i: int| 0 <= i < ids@.len() && ids@[i] == id;
                assert(out@.contains_key(ids@[i]));
            }
        }
        assert(out@ =~= map@);
    }
    out
}

/// Whether ids grow strictly.
pub open spec fn ascending(ids: Seq<u64>) -> bool {
    forall|i: int, j: int| 0 <= i < j < ids.len() ==> ids[i] < ids[j]
}

/// Inserts a new id into growing ids.
fn insert_ascending(ids: &mut Vec<u64>, id: u64)
    requires
        ascending(old(ids)@),
        !old(ids)@.contains(id),
    ensures
        ascending(final(ids)@),
        final(ids)@.to_set() == old(ids)@.to_set().insert(id),
{
    let ghost before = ids@;
    let mut at: usize = 0;
    while at < ids.len() && ids[at] < id
        invariant
            at <= ids@.len(),
            ids@ == before,
            forall|i: int| 0 <= i < at ==> before[i] < id,
        decreases ids@.len() - at,
    {
        at = at + 1;
    }
    ids.insert(at, id);
    proof {
        let after = before.insert(at as int, id);
        assert(ids@ == after);
        assert forall|i: int, j: int| 0 <= i < j < after.len() implies after[i] < after[j] by {
            if i < at {
                assert(before[i] < id);
            }
            if at < before.len() {
                assert(before[at as int] != id);
                if j > at {
                    assert(before[at as int] <= before[j - 1]);
                }
            }
        }
        assert forall|k: u64| after.to_set().contains(k) <==> before.to_set().insert(id).contains(k) by {
            if before.contains(k) {
                let i = choose|i: int| 0 <= i < before.len() && before[i] == k;
                if i < at {
                    assert(after[i] == k);
                } else {
                    assert(after[i + 1] == k);
                }
            }
            if after.contains(k) {
                let i = choose|i: int| 0 <= i < after.len() && after[i] == k;
                if i < at {
                    assert(before[i] == k);
                } else if i > at {
                    assert(before[i - 1] == k);
                }
            }
            assert(after[at as int] == id);
        }
        assert(after.to_set() =~= before.to_set().insert(id));
    }
}

/// The keys of a map, smallest first.
pub fn ascending_ids<V>(map: &HashMap<u64, V>) -> (r: Vec<u64>)
    ensures
        ascending(r@),
        r@.to_set() == map@.dom(),
{
    let ids = map_ids(map);
    let mut out: Vec<u64> = Vec::new();
    let mut index: usize = 0;
    proof {
        assert(out@.to_set() =~= ids@.take(0).to_set());
    }
    while index < ids.len()
        invariant
            index <= ids@.len(),
            ids@.no_duplicates(),
            ascending(out@),
            out@.to_set() == ids@.take(index as int).to_set(),
        decreases ids@.len() - index,
    {
        proof {
            let id = ids@[index as int];
            let done = ids@.take(index as int);
            let next = ids@.take(index + 1);
            if out@.contains(id) {
                assert(out@.to_set().contains(id));
                assert(done.to_set().contains(id));
                let i = choose|i: int| 0 <= i < done.len() && done[i] == id;
                assert(ids@[i] == ids@[index as int]);
            }
            assert(next =~= done.push(id));
            assert forall|k: u64| next.to_set().contains(k) <==> done.to_set().insert(id).contains(k) by {
                if done.contains(k) {
                    let i = choose|i: int| 0 <= i < done.len() && done[i] == k;
                    assert(next[i] == k);
                }
                assert(next[index as int] == id);
                if next.contains(k) {
                    let i = choose|i: int| 0 <= i < next.len() && next[i] == k;
                    if i < index {
                        assert(done[i] == k);
                    }
                }
            }
            assert(next.to_set() =~= done.to_set().insert(id));
        }
        insert_ascending(&mut out, ids[index]);
        index = index + 1;
    }
    proof {
        assert(ids@.take(ids@.len() as int) =~= ids@);
    }
    out
}

} // verus!
