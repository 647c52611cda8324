//! What holds of the servers and of the order in which they are tried.

use crate::sources::{
    address, chosen, completed, completed_covers, completed_keeps, feed_order, file_order, matching,
    places, preferred_place, source_ids, Source, FEED_NAME,
};
use vstd::prelude::*;

verus! {

/// A file lies at one address, behind what a server puts before it.
pub proof fn files_have_addresses(prefix: Seq<char>, path: Seq<char>)
    ensures
        address(prefix, path) == prefix
            + "https://raw.githubusercontent.com/lixiaobaivv/Codex-Skin-Store/main/"@ + path,
        FEED_NAME@ == "desktop-catalog-v2.json"@,
{
}

/// The identifiers of servers stand in the order of the servers, and places stand for themselves.
pub proof fn servers_are_what_they_hold(sources: Seq<Source>, order: Seq<usize>, i: int)
    ensures
        source_ids(sources).len() == sources.len(),
        0 <= i < sources.len() ==> source_ids(sources)[i] == sources[i].id@,
        places(order).len() == order.len(),
        0 <= i < order.len() ==> places(order)[i] == order[i],
{
}

/// Whether a place is the first one of the identifier that stands there.
pub open spec fn first_place(ids: Seq<Seq<char>>, place: int) -> bool {
    forall|j: int| 0 <= j < place ==> #[trigger] ids[j] != ids[place]
}

/// What is put behind the chosen servers: first places of identifiers that none of them has, in
/// ascending order.
proof fn added_places(ids: Seq<Seq<char>>, start: Seq<int>, n: int)
    requires
        n <= ids.len(),
    ensures
        start.len() <= completed(ids, start, n).len(),
        completed(ids, start, n).take(start.len() as int) == start,
        forall|k: int|
            start.len() <= k < completed(ids, start, n).len() ==> {
                let place = #[trigger] completed(ids, start, n)[k];
                &&& 0 <= place < n
                &&& !chosen(ids, start, ids[place])
                &&& first_place(ids, place)
            },
        forall|k: int, l: int|
            start.len() <= k < l < completed(ids, start, n).len() ==> #[trigger] completed(
                ids,
                start,
                n,
            )[k] < #[trigger] completed(ids, start, n)[l],
    decreases n,
{
    completed_keeps(ids, start, n);
    if n > 0 {
        added_places(ids, start, n - 1);
        let earlier = completed(ids, start, n - 1);
        let now = completed(ids, start, n);
        let m = start.len() as int;
        if !chosen(ids, earlier, ids[n - 1]) {
            assert(!chosen(ids, start, ids[n - 1])) by {
                if chosen(ids, start, ids[n - 1]) {
                    let k = choose|k: int|
                        0 <= k < start.len() && ids[#[trigger] start[k]] == ids[n - 1];
                    assert(earlier.take(m)[k] == start[k]);
                    assert(earlier[k] == start[k]);
                }
            }
            assert forall|j: int| 0 <= j < n - 1 implies #[trigger] ids[j] != ids[n - 1] by {
                completed_covers(ids, start, n - 1, j);
            }
        }
        assert forall|k: int| m <= k < now.len() implies ({
            let place = #[trigger] now[k];
            &&& 0 <= place < n
            &&& !chosen(ids, start, ids[place])
            &&& first_place(ids, place)
        }) by {
            if k < earlier.len() {
                assert(now[k] == earlier[k]);
            } else {
                assert(now[k] == n - 1);
            }
        }
        assert forall|k: int, l: int| m <= k < l < now.len() implies #[trigger] now[k]
            < #[trigger] now[l] by {
            assert(now[k] == earlier[k]);
            if l < earlier.len() {
                assert(now[l] == earlier[l]);
            }
        }
    }
}

/// The places of an identifier are all there, in ascending order.
proof fn matching_places(ids: Seq<Seq<char>>, id: Seq<char>, n: int)
    requires
        n <= ids.len(),
    ensures
        forall|k: int|
            0 <= k < matching(ids, id, n).len() ==> 0 <= #[trigger] matching(ids, id, n)[k] < n
                && ids[matching(ids, id, n)[k]] == id,
        forall|k: int, l: int|
            0 <= k < l < matching(ids, id, n).len() ==> #[trigger] matching(ids, id, n)[k]
                < #[trigger] matching(ids, id, n)[l],
        forall|i: int|
            0 <= i < n && #[trigger] ids[i] == id ==> matching(ids, id, n).contains(i),
    decreases n,
{
    if n > 0 {
        matching_places(ids, id, n - 1);
        let earlier = matching(ids, id, n - 1);
        let now = matching(ids, id, n);
        assert forall|k: int| 0 <= k < now.len() implies 0 <= #[trigger] now[k] < n && ids[now[k]]
            == id by {
            if k < earlier.len() {
                assert(now[k] == earlier[k]);
            }
        }
        assert forall|k: int, l: int| 0 <= k < l < now.len() implies #[trigger] now[k]
            < #[trigger] now[l] by {
            assert(now[k] == earlier[k]);
            if l < earlier.len() {
                assert(now[l] == earlier[l]);
            }
        }
        assert forall|i: int| 0 <= i < n && #[trigger] ids[i] == id implies now.contains(i) by {
            if i == n - 1 {
                assert(now[earlier.len() as int] == n - 1);
            } else {
                let k = earlier.index_of(i);
                assert(now[k] == i);
            }
        }
    }
}

/// The catalog is fetched from the first server with the preferred identifier, or from the first
/// one of all where none has it; then, in their order, from the first server with each of the
/// other identifiers.
pub proof fn catalogs_are_fetched_in_order(ids: Seq<Seq<char>>, preferred: Seq<char>)
    requires
        ids.len() > 0,
    ensures
        ({
            let order = feed_order(ids, preferred);
            &&& order.len() > 0
            &&& 0 <= order[0] < ids.len()
            &&& ids.contains(preferred) ==> ids[order[0]] == preferred
            &&& forall|j: int| 0 <= j < order[0] ==> #[trigger] ids[j] != preferred
            &&& !ids.contains(preferred) ==> order[0] == 0
            &&& forall|k: int, l: int|
                1 <= k < l < order.len() ==> #[trigger] order[k] < #[trigger] order[l]
            &&& forall|k: int|
                1 <= k < order.len() ==> 0 <= #[trigger] order[k] < ids.len() && ids[order[k]]
                    != ids[order[0]]
            &&& forall|k: int|
                1 <= k < order.len() ==> first_place(ids, #[trigger] order[k])
            &&& forall|i: int|
                0 <= i < ids.len() ==> exists|k: int|
                    0 <= k < order.len() && ids[#[trigger] order[k]] == #[trigger] ids[i]
        }),
{
    let n = ids.len() as int;
    let first = preferred_place(ids, preferred);
    let start = seq![first];
    let order = feed_order(ids, preferred);
    let found = matching(ids, preferred, n);
    matching_places(ids, preferred, n);
    added_places(ids, start, n);
    assert(order.take(1)[0] == order[0]);
    assert(order[0] == first);
    if ids.contains(preferred) {
        let i = ids.index_of(preferred);
        assert(ids[i] == preferred);
        assert(found.contains(i));
    }
    assert forall|j: int| 0 <= j < order[0] implies #[trigger] ids[j] != preferred by {
        if ids[j] == preferred {
            assert(found.contains(j));
            let k = found.index_of(j);
            if k > 0 {
                assert(found[0] < found[k]);
            }
        }
    }
    assert forall|k: int| 1 <= k < order.len() implies 0 <= #[trigger] order[k] < ids.len()
        && ids[order[k]] != ids[order[0]] by {
        if ids[order[k]] == ids[order[0]] {
            assert(start[0] == first);
            assert(chosen(ids, start, ids[order[k]]));
        }
    }
    assert forall|i: int| 0 <= i < ids.len() implies exists|k: int|
        0 <= k < order.len() && ids[#[trigger] order[k]] == #[trigger] ids[i] by {
        completed_covers(ids, start, n, i);
    }
}

/// A file is fetched from every server with the preferred identifier, in their order; then, in
/// their order, from the first server with each of the other identifiers.
pub proof fn files_are_fetched_in_order(ids: Seq<Seq<char>>, preferred: Seq<char>) -> (m: int)
    ensures
        ({
            let order = file_order(ids, preferred);
            &&& 0 <= m <= order.len()
            &&& forall|k: int|
                0 <= k < order.len() ==> 0 <= #[trigger] order[k] < ids.len() && (ids[order[k]]
                    == preferred <==> k < m)
            &&& forall|k: int, l: int|
                0 <= k < l < m ==> #[trigger] order[k] < #[trigger] order[l]
            &&& forall|k: int, l: int|
                m <= k < l < order.len() ==> #[trigger] order[k] < #[trigger] order[l]
            &&& forall|k: int|
                m <= k < order.len() ==> first_place(ids, #[trigger] order[k])
            &&& forall|i: int|
                0 <= i < ids.len() && #[trigger] ids[i] == preferred ==> order.contains(i)
            &&& forall|i: int|
                0 <= i < ids.len() ==> exists|k: int|
                    0 <= k < order.len() && ids[#[trigger] order[k]] == #[trigger] ids[i]
        }),
{
    let n = ids.len() as int;
    let start = matching(ids, preferred, n);
    let m = start.len() as int;
    let order = file_order(ids, preferred);
    matching_places(ids, preferred, n);
    added_places(ids, start, n);
    assert forall|k: int| 0 <= k < m implies #[trigger] order[k] == start[k] by {
        assert(order.take(m)[k] == order[k]);
    }
    assert forall|k: int| 0 <= k < order.len() implies 0 <= #[trigger] order[k] < ids.len() && (
    ids[order[k]] == preferred <==> k < m) by {
        if k < m {
            assert(order[k] == start[k]);
        } else if ids[order[k]] == preferred {
            assert(start.contains(order[k]));
            let l = start.index_of(order[k]);
            assert(ids[start[l]] == ids[order[k]]);
            assert(chosen(ids, start, ids[order[k]]));
        }
    }
    assert forall|k: int, l: int| 0 <= k < l < m implies #[trigger] order[k]
        < #[trigger] order[l] by {
        assert(order[k] == start[k] && order[l] == start[l]);
    }
    assert forall|i: int| 0 <= i < ids.len() && #[trigger] ids[i] == preferred implies order.contains(
        i,
    ) by {
        let k = start.index_of(i);
        assert(order[k] == start[k]);
    }
    assert forall|i: int| 0 <= i < ids.len() implies exists|k: int|
        0 <= k < order.len() && ids[#[trigger] order[k]] == #[trigger] ids[i] by {
        completed_covers(ids, start, n, i);
    }
    m
}

} // verus!
