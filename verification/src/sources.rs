//! The servers that themes are fetched from, and the order in which they are tried.

use crate::text::{join3, same};
use vstd::prelude::*;

verus! {

/// Where the catalog and its files lie.
pub const UPSTREAM_ROOT: &'static str =
    "https://raw.githubusercontent.com/lixiaobaivv/Codex-Skin-Store/main/";

/// The name of the catalog.
pub const FEED_NAME: &'static str = "desktop-catalog-v2.json";

/// A server.
#[derive(Debug)]
pub struct Source {
    pub id: String,
    pub name: String,
    /// What stands before the address of a file.
    pub prefix: String,
}

/// The identifiers of servers.
pub open spec fn source_ids(sources: Seq<Source>) -> Seq<Seq<char>> {
    Seq::new(sources.len(), |i: int| sources[i].id@)
}

/// The address of a file at a server.
pub open spec fn address(prefix: Seq<char>, path: Seq<char>) -> Seq<char> {
    prefix + UPSTREAM_ROOT@ + path
}

/// The address of a file at a server.
pub fn address_of(prefix: &str, path: &str) -> (r: String)
    ensures
        r@ == address(prefix@, path@),
{
    join3(prefix, UPSTREAM_ROOT, path)
}

/// Whether one of the chosen servers has that identifier.
pub open spec fn chosen(ids: Seq<Seq<char>>, order: Seq<int>, id: Seq<char>) -> bool {
    exists|k: int| 0 <= k < order.len() && ids[#[trigger] order[k]] == id
}

/// The first `n` servers put behind the chosen ones, each unless one with its identifier is
/// there already.
pub open spec fn completed(ids: Seq<Seq<char>>, order: Seq<int>, n: int) -> Seq<int>
    decreases n,
{
    if n <= 0 {
        order
    } else {
        let earlier = completed(ids, order, n - 1);
        if chosen(ids, earlier, ids[n - 1]) {
            earlier
        } else {
            earlier.push(n - 1)
        }
    }
}

/// The places of the servers with that identifier, among the first `n`.
pub open spec fn matching(ids: Seq<Seq<char>>, id: Seq<char>, n: int) -> Seq<int>
    decreases n,
{
    if n <= 0 {
        Seq::empty()
    } else if ids[n - 1] == id {
        matching(ids, id, n - 1).push(n - 1)
    } else {
        matching(ids, id, n - 1)
    }
}

/// The place of the first server with that identifier, or else of the first one.
pub open spec fn preferred_place(ids: Seq<Seq<char>>, id: Seq<char>) -> int {
    let found = matching(ids, id, ids.len() as int);
    if found.len() > 0 {
        found[0]
    } else {
        0
    }
}

/// The order in which servers are tried for the catalog: the preferred one, then the others.
pub open spec fn feed_order(ids: Seq<Seq<char>>, preferred: Seq<char>) -> Seq<int> {
    completed(ids, seq![preferred_place(ids, preferred)], ids.len() as int)
}

/// The order in which servers are tried for a file: those with the preferred identifier, then
/// the others.
pub open spec fn file_order(ids: Seq<Seq<char>>, preferred: Seq<char>) -> Seq<int> {
    completed(ids, matching(ids, preferred, ids.len() as int), ids.len() as int)
}

/// The numbers in a list of places.
pub open spec fn places(order: Seq<usize>) -> Seq<int> {
    Seq::new(order.len(), |i: int| order[i] as int)
}

/// Whether each place in an order is the place of a server.
pub open spec fn within(order: Seq<int>, n: int) -> bool {
    forall|k: int| 0 <= k < order.len() ==> 0 <= #[trigger] order[k] < n
}

fn is_chosen(sources: &Vec<Source>, order: &Vec<usize>, id: &str) -> (r: bool)
    requires
        within(places(order@), sources@.len() as int),
    ensures
        r == chosen(source_ids(sources@), places(order@), id@),
{
    let ghost ids = source_ids(sources@);
    let ghost tried = places(order@);
    let mut k: usize = 0;
    while k < order.len()
        invariant
            k <= order@.len(),
            ids == source_ids(sources@),
            tried == places(order@),
            within(tried, sources@.len() as int),
            forall|j: int| 0 <= j < k ==> ids[#[trigger] tried[j]] != id@,
        decreases order@.len() - k,
    {
        assert(tried[k as int] == order@[k as int]);
        if same(&sources[order[k]].id, id) {
            assert(ids[tried[k as int]] == id@);
            return true;
        }
        k += 1;
    }
    false
}

fn complete(sources: &Vec<Source>, order: Vec<usize>) -> (r: Vec<usize>)
    requires
        within(places(order@), sources@.len() as int),
    ensures
        places(r@) == completed(source_ids(sources@), places(order@), sources@.len() as int),
        within(places(r@), sources@.len() as int),
{
    let ghost ids = source_ids(sources@);
    let ghost start = places(order@);
    let mut order = order;
    let mut i: usize = 0;
    while i < sources.len()
        invariant
            i <= sources@.len(),
            ids == source_ids(sources@),
            places(order@) == completed(ids, start, i as int),
            within(places(order@), sources@.len() as int),
        decreases sources@.len() - i,
    {
        let ghost earlier = places(order@);
        if !is_chosen(sources, &order, &sources[i].id) {
            order.push(i);
            assert(places(order@) =~= earlier.push(i as int));
        }
        i += 1;
    }
    order
}

fn match_id(sources: &Vec<Source>, id: &str) -> (r: Vec<usize>)
    ensures
        places(r@) == matching(source_ids(sources@), id@, sources@.len() as int),
        within(places(r@), sources@.len() as int),
{
    let ghost ids = source_ids(sources@);
    let mut found: Vec<usize> = Vec::new();
    let mut i: usize = 0;
    assert(places(found@) =~= Seq::empty());
    while i < sources.len()
        invariant
            i <= sources@.len(),
            ids == source_ids(sources@),
            places(found@) == matching(ids, id@, i as int),
            within(places(found@), sources@.len() as int),
        decreases sources@.len() - i,
    {
        let ghost earlier = places(found@);
        if same(&sources[i].id, id) {
            found.push(i);
            assert(places(found@) =~= earlier.push(i as int));
        }
        i += 1;
    }
    found
}

/// The order in which servers are tried for the catalog.
pub fn order_for_feed(sources: &Vec<Source>, preferred: &str) -> (r: Vec<usize>)
    requires
        sources@.len() > 0,
    ensures
        places(r@) == feed_order(source_ids(sources@), preferred@),
        within(places(r@), sources@.len() as int),
        r@.len() > 0,
{
    let found = match_id(sources, preferred);
    assert(places(found@).len() == found@.len());
    let first: usize = if found.len() > 0 {
        assert(places(found@)[0] == found@[0]);
        found[0]
    } else {
        0
    };
    let mut order: Vec<usize> = Vec::new();
    order.push(first);
    assert(places(order@) =~= seq![first as int]);
    let r = complete(sources, order);
    proof {
        completed_keeps(
            source_ids(sources@),
            seq![first as int],
            sources@.len() as int,
        );
    }
    assert(places(r@).len() == r@.len());
    r
}

/// The order in which servers are tried for a file.
pub fn order_for_file(sources: &Vec<Source>, preferred: &str) -> (r: Vec<usize>)
    ensures
        places(r@) == file_order(source_ids(sources@), preferred@),
        within(places(r@), sources@.len() as int),
{
    complete(sources, match_id(sources, preferred))
}

/// Servers that are chosen stay chosen, in their order, before the others.
pub proof fn completed_keeps(ids: Seq<Seq<char>>, order: Seq<int>, n: int)
    ensures
        order.len() <= completed(ids, order, n).len(),
        completed(ids, order, n).take(order.len() as int) == order,
    decreases n,
{
    if n > 0 {
        completed_keeps(ids, order, n - 1);
        assert(completed(ids, order, n).take(order.len() as int) =~= order);
    } else {
        assert(order.take(order.len() as int) =~= order);
    }
}

/// Every server among the first ones is reached by its identifier.
pub proof fn completed_covers(ids: Seq<Seq<char>>, order: Seq<int>, n: int, i: int)
    requires
        0 <= i < n,
    ensures
        chosen(ids, completed(ids, order, n), ids[i]),
    decreases n,
{
    let earlier = completed(ids, order, n - 1);
    let now = completed(ids, order, n);
    if i < n - 1 {
        completed_covers(ids, order, n - 1, i);
    }
    if chosen(ids, earlier, ids[i]) {
        let k = choose|k: int| 0 <= k < earlier.len() && ids[#[trigger] earlier[k]] == ids[i];
        assert(now[k] == earlier[k]);
    } else {
        assert(now[earlier.len() as int] == n - 1);
    }
}

proof fn completed_differ(ids: Seq<Seq<char>>, order: Seq<int>, n: int)
    requires
        different(ids, order),
    ensures
        different(ids, completed(ids, order, n)),
    decreases n,
{
    if n > 0 {
        completed_differ(ids, order, n - 1);
        let earlier = completed(ids, order, n - 1);
        let now = completed(ids, order, n);
        assert forall|k: int, l: int| 0 <= k < l < now.len() implies ids[#[trigger] now[k]]
            != ids[#[trigger] now[l]] by {
            assert(now[k] == earlier[k]);
            if l < earlier.len() {
                assert(now[l] == earlier[l]);
            }
        }
    }
}

/// Whether no two servers of an order have the same identifier.
pub open spec fn different(ids: Seq<Seq<char>>, order: Seq<int>) -> bool {
    forall|k: int, l: int|
        0 <= k < l < order.len() ==> ids[#[trigger] order[k]] != ids[#[trigger] order[l]]
}

proof fn matching_matches(ids: Seq<Seq<char>>, id: Seq<char>, n: int)
    requires
        n <= ids.len(),
    ensures
        forall|k: int|
            0 <= k < matching(ids, id, n).len() ==> 0 <= #[trigger] matching(ids, id, n)[k] < n
                && ids[matching(ids, id, n)[k]] == id,
        forall|i: int|
            0 <= i < n && #[trigger] ids[i] == id ==> matching(ids, id, n).len() > 0,
    decreases n,
{
    if n > 0 {
        matching_matches(ids, id, n - 1);
        let earlier = matching(ids, id, n - 1);
        let now = matching(ids, id, n);
        assert forall|k: int| 0 <= k < now.len() implies 0 <= #[trigger] now[k] < n && ids[now[k]]
            == id by {
            if k < earlier.len() {
                assert(now[k] == earlier[k]);
            }
        }
    }
}

/// The order for the catalog starts with the preferred server, where it is known; it reaches
/// every server by its identifier, and none twice.
pub proof fn feed_order_is_complete(ids: Seq<Seq<char>>, preferred: Seq<char>)
    requires
        ids.len() > 0,
    ensures
        feed_order(ids, preferred).len() > 0,
        ids.contains(preferred) ==> ids[feed_order(ids, preferred)[0]] == preferred,
        !ids.contains(preferred) ==> feed_order(ids, preferred)[0] == 0,
        forall|i: int|
            0 <= i < ids.len() ==> chosen(ids, feed_order(ids, preferred), #[trigger] ids[i]),
        different(ids, feed_order(ids, preferred)),
{
    let n = ids.len() as int;
    let start = seq![preferred_place(ids, preferred)];
    matching_matches(ids, preferred, n);
    completed_keeps(ids, start, n);
    completed_differ(ids, start, n);
    let order = feed_order(ids, preferred);
    assert(order.take(1)[0] == order[0]);
    if ids.contains(preferred) {
        let i = ids.index_of(preferred);
        assert(ids[i] == preferred);
    }
    assert forall|i: int| 0 <= i < ids.len() implies chosen(ids, order, #[trigger] ids[i]) by {
        completed_covers(ids, start, n, i);
    }
}

proof fn completed_within(ids: Seq<Seq<char>>, order: Seq<int>, n: int, most: int)
    requires
        within(order, most),
        n <= most,
    ensures
        within(completed(ids, order, n), most),
    decreases n,
{
    if n > 0 {
        completed_within(ids, order, n - 1, most);
        let earlier = completed(ids, order, n - 1);
        let now = completed(ids, order, n);
        assert forall|k: int| 0 <= k < now.len() implies 0 <= #[trigger] now[k] < most by {
            if k < earlier.len() {
                assert(now[k] == earlier[k]);
            }
        }
    }
}

/// The order for the catalog holds places of servers only.
pub proof fn feed_order_is_within(ids: Seq<Seq<char>>, preferred: Seq<char>)
    requires
        ids.len() > 0,
    ensures
        within(feed_order(ids, preferred), ids.len() as int),
{
    let n = ids.len() as int;
    matching_matches(ids, preferred, n);
    completed_within(ids, seq![preferred_place(ids, preferred)], n, n);
}

/// The order for a file starts with a server that has the preferred identifier, where there is
/// one, and reaches every server by its identifier.
pub proof fn file_order_is_complete(ids: Seq<Seq<char>>, preferred: Seq<char>)
    ensures
        ids.contains(preferred) ==> file_order(ids, preferred).len() > 0
            && ids[file_order(ids, preferred)[0]] == preferred,
        forall|i: int|
            0 <= i < ids.len() ==> chosen(ids, file_order(ids, preferred), #[trigger] ids[i]),
{
    let n = ids.len() as int;
    let start = matching(ids, preferred, n);
    matching_matches(ids, preferred, n);
    completed_keeps(ids, start, n);
    let order = file_order(ids, preferred);
    if ids.contains(preferred) {
        let i = ids.index_of(preferred);
        assert(ids[i] == preferred);
        assert(order.take(start.len() as int)[0] == order[0]);
    }
    assert forall|i: int| 0 <= i < ids.len() implies chosen(ids, order, #[trigger] ids[i]) by {
        completed_covers(ids, start, n, i);
    }
}

proof fn matching_once(ids: Seq<Seq<char>>, n: int, i: int)
    requires
        0 <= i < n <= ids.len(),
        ids.no_duplicates(),
    ensures
        matching(ids, ids[i], n) == seq![i],
    decreases n,
{
    if n - 1 > i {
        matching_once(ids, n - 1, i);
    } else {
        matching_none(ids, ids[i], n - 1);
        assert(matching(ids, ids[i], n) =~= seq![i]);
    }
}

proof fn matching_none(ids: Seq<Seq<char>>, id: Seq<char>, n: int)
    requires
        n <= ids.len(),
        forall|j: int| 0 <= j < n ==> #[trigger] ids[j] != id,
    ensures
        matching(ids, id, n) == Seq::<int>::empty(),
    decreases n,
{
    if n > 0 {
        matching_none(ids, id, n - 1);
    }
}

/// Where no two servers have the same identifier and the preferred one is known, the catalog
/// and its files are fetched from the same servers in the same order.
pub proof fn orders_agree(ids: Seq<Seq<char>>, preferred: Seq<char>)
    requires
        ids.no_duplicates(),
        ids.contains(preferred),
    ensures
        feed_order(ids, preferred) == file_order(ids, preferred),
{
    let i = ids.index_of(preferred);
    assert(ids[i] == preferred);
    matching_once(ids, ids.len() as int, i);
}

} // verus!
