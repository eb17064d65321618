//! The route table: which upstream a path goes to.

use vstd::prelude::*;
use vstd::string::*;
use crate::outside;
use crate::text;

verus! {

/// A single reverse-proxy route: requests under `prefix` go to `upstream`.
#[derive(Debug)]
pub struct ProxyRoute {
    pub prefix: String,
    pub upstream: String,
}

impl Clone for ProxyRoute {
    fn clone(&self) -> (copy: ProxyRoute)
        ensures
            copy == *self,
    {
        ProxyRoute { prefix: self.prefix.clone(), upstream: self.upstream.clone() }
    }
}

// ---------------------------------------------------------------------------
// Longest-prefix matching
// ---------------------------------------------------------------------------

/// The table has a route for this prefix, and the path starts with it.
pub open spec fn route_applies(
    routes: Map<Seq<char>, Seq<char>>,
    path: Seq<char>,
    prefix: Seq<char>,
) -> bool {
    routes.contains_key(prefix) && prefix.is_prefix_of(path)
}

/// Of the routes that apply to a path, this is one with the longest prefix.
pub open spec fn is_longest_route(
    routes: Map<Seq<char>, Seq<char>>,
    path: Seq<char>,
    prefix: Seq<char>,
) -> bool {
    &&& route_applies(routes, path, prefix)
    &&& forall|other: Seq<char>| #[trigger]
        route_applies(routes, path, other) ==> other.len() <= prefix.len()
}

/// The prefix of the route that a path takes, if any route applies to it.
pub open spec fn route_of(routes: Map<Seq<char>, Seq<char>>, path: Seq<char>) -> Option<Seq<char>> {
    if exists|prefix: Seq<char>| #[trigger] route_applies(routes, path, prefix) {
        Some(choose|prefix: Seq<char>| is_longest_route(routes, path, prefix))
    } else {
        None
    }
}

/// The upstream that a path goes to, if any route applies to it.
pub open spec fn upstream_of(routes: Map<Seq<char>, Seq<char>>, path: Seq<char>) -> Option<Seq<char>> {
    match route_of(routes, path) {
        Some(prefix) => Some(routes[prefix]),
        None => None,
    }
}

/// Two routes of the same length that apply to one path are the same route.
proof fn lemma_same_length_same_route(
    routes: Map<Seq<char>, Seq<char>>,
    path: Seq<char>,
    a: Seq<char>,
    b: Seq<char>,
)
    requires
        route_applies(routes, path, a),
        route_applies(routes, path, b),
        a.len() == b.len(),
    ensures
        a == b,
{
    assert(a == path.subrange(0, a.len() as int));
    assert(b == path.subrange(0, b.len() as int));
}

/// Among the routes that apply to a path, one has the longest prefix.
proof fn lemma_longest_route_exists(
    routes: Map<Seq<char>, Seq<char>>,
    path: Seq<char>,
    prefix: Seq<char>,
) -> (longest: Seq<char>)
    requires
        route_applies(routes, path, prefix),
    ensures
        is_longest_route(routes, path, longest),
    decreases path.len() - prefix.len(),
{
    if exists|other: Seq<char>| #[trigger]
        route_applies(routes, path, other) && other.len() > prefix.len() {
        let other = choose|other: Seq<char>| #[trigger]
            route_applies(routes, path, other) && other.len() > prefix.len();
        lemma_longest_route_exists(routes, path, other)
    } else {
        prefix
    }
}

/// A path takes the route with the longest prefix that it starts with, and no other.
pub proof fn law_longest_prefix_wins(routes: Map<Seq<char>, Seq<char>>, path: Seq<char>, prefix: Seq<char>)
    ensures
        route_of(routes, path) == Some(prefix) <==> is_longest_route(routes, path, prefix),
{
    if exists|p: Seq<char>| #[trigger] route_applies(routes, path, p) {
        let some = choose|p: Seq<char>| #[trigger] route_applies(routes, path, p);
        let longest = lemma_longest_route_exists(routes, path, some);
        let chosen = choose|p: Seq<char>| is_longest_route(routes, path, p);
        assert(is_longest_route(routes, path, chosen));
        if is_longest_route(routes, path, prefix) {
            lemma_same_length_same_route(routes, path, prefix, chosen);
        }
    }
}

/// A path takes no route only where the table has none that it starts with.
pub proof fn law_unrouted_paths(routes: Map<Seq<char>, Seq<char>>, path: Seq<char>)
    ensures
        route_of(routes, path) is None <==> forall|prefix: Seq<char>| !#[trigger]
            route_applies(routes, path, prefix),
{
}

/// A route with the empty prefix catches every path.
pub proof fn law_empty_prefix_catches_all(routes: Map<Seq<char>, Seq<char>>, path: Seq<char>)
    requires
        routes.contains_key(Seq::<char>::empty()),
    ensures
        route_of(routes, path) is Some,
{
    assert(Seq::<char>::empty() =~= path.subrange(0, 0));
    assert(route_applies(routes, path, Seq::<char>::empty()));
}

// ---------------------------------------------------------------------------
// The table
// ---------------------------------------------------------------------------

/// The routes of a list, a later one replacing an earlier one of the same prefix.
pub open spec fn listed_routes(list: Seq<ProxyRoute>) -> Map<Seq<char>, Seq<char>>
    decreases list.len(),
{
    if list.len() == 0 {
        Map::empty()
    } else {
        listed_routes(list.drop_last()).insert(list.last().prefix@, list.last().upstream@)
    }
}

/// Routes by prefix, no prefix occurring twice.
#[derive(Debug)]
pub struct RouteTable {
    entries: Vec<ProxyRoute>,
}

impl View for RouteTable {
    type V = Map<Seq<char>, Seq<char>>;

    closed spec fn view(&self) -> Map<Seq<char>, Seq<char>> {
        listed_routes(self.entries@)
    }
}

spec fn distinct_prefixes(list: Seq<ProxyRoute>) -> bool {
    forall|i: int, j: int|
        0 <= i < j < list.len() ==> (#[trigger] list[i]).prefix@ != (#[trigger] list[j]).prefix@
}

/// A list of distinct prefixes has exactly its entries as routes.
proof fn lemma_listed_routes(list: Seq<ProxyRoute>)
    requires
        distinct_prefixes(list),
    ensures
        forall|i: int|
            0 <= i < list.len() ==> listed_routes(list).contains_key((#[trigger] list[i]).prefix@)
                && listed_routes(list)[list[i].prefix@] == list[i].upstream@,
        forall|prefix: Seq<char>| #[trigger]
            listed_routes(list).contains_key(prefix) ==> exists|i: int|
                0 <= i < list.len() && (#[trigger] list[i]).prefix@ == prefix,
    decreases list.len(),
{
    if list.len() > 0 {
        let front = list.drop_last();
        assert forall|i: int, j: int| 0 <= i < j < front.len() implies (#[trigger] front[i]).prefix@
            != (#[trigger] front[j]).prefix@ by {
            assert(front[i] == list[i] && front[j] == list[j]);
        }
        lemma_listed_routes(front);
        assert forall|i: int| 0 <= i < list.len() implies listed_routes(list).contains_key(
            (#[trigger] list[i]).prefix@,
        ) && listed_routes(list)[list[i].prefix@] == list[i].upstream@ by {
            if i < front.len() {
                assert(front[i] == list[i]);
                assert(list[i].prefix@ != list[list.len() - 1].prefix@);
            }
        }
        assert forall|prefix: Seq<char>| #[trigger]
            listed_routes(list).contains_key(prefix) implies exists|i: int|
            0 <= i < list.len() && (#[trigger] list[i]).prefix@ == prefix by {
            if prefix == list.last().prefix@ {
                assert(list[list.len() - 1].prefix@ == prefix);
            } else {
                assert(listed_routes(front).contains_key(prefix));
                let i = choose|i: int| 0 <= i < front.len() && (#[trigger] front[i]).prefix@ == prefix;
                assert(list[i] == front[i]);
            }
        }
    }
}

impl RouteTable {
    #[verifier::type_invariant]
    spec fn well_formed(self) -> bool {
        distinct_prefixes(self.entries@)
    }

    /// A table without routes.
    pub fn new() -> (table: RouteTable)
        ensures
            table@ == Map::<Seq<char>, Seq<char>>::empty(),
    {
        RouteTable { entries: Vec::new() }
    }

    /// The number of routes.
    pub fn len(&self) -> (count: usize)
        ensures
            count == self@.dom().len(),
            self@.dom().finite(),
    {
        proof {
            use_type_invariant(self);
            lemma_route_count(self.entries@);
        }
        self.entries.len()
    }

    /// The upstream of a prefix.
    pub fn get(&self, prefix: &str) -> (upstream: Option<&str>)
        ensures
            match upstream {
                Some(text) => self@.contains_key(prefix@) && text@ == self@[prefix@],
                None => !self@.contains_key(prefix@),
            },
    {
        proof {
            use_type_invariant(self);
            lemma_listed_routes(self.entries@);
        }
        match self.position(prefix) {
            Some(i) => Some(self.entries[i].upstream.as_str()),
            None => None,
        }
    }

    /// Adds a route, in place of the one that the table has for its prefix.
    pub fn insert(&mut self, prefix: String, upstream: String)
        ensures
            final(self)@ == old(self)@.insert(prefix@, upstream@),
    {
        proof {
            use_type_invariant(&*self);
            lemma_listed_routes(self.entries@);
        }
        let ghost before = self.entries@;
        let found = self.position(prefix.as_str());
        let route = ProxyRoute { prefix, upstream };
        let mut entries = Vec::new();
        std::mem::swap(&mut entries, &mut self.entries);
        match found {
            Some(i) => {
                entries.set(i, route);
                proof {
                    lemma_replace_route(before, i as int, route);
                }
            },
            None => {
                entries.push(route);
                proof {
                    assert(entries@.drop_last() == before);
                    assert(distinct_prefixes(entries@));
                }
            },
        }
        self.entries = entries;
    }

    /// Adds routes in their order.
    pub fn insert_pairs(&mut self, pairs: Vec<(String, String)>)
        ensures
            final(self)@ == old(self)@.union_prefer_right(outside::pairs_as_map(pairs@)),
    {
        let ghost before = self@;
        let ghost all = pairs@;
        let mut i: usize = 0;
        assert(all.take(0) == Seq::<(String, String)>::empty());
        assert(before.union_prefer_right(outside::pairs_as_map(all.take(0))) =~= before);
        while i < pairs.len()
            invariant
                i <= pairs@.len(),
                all == pairs@,
                self@ == before.union_prefer_right(outside::pairs_as_map(all.take(i as int))),
            decreases pairs@.len() - i,
        {
            self.insert(pairs[i].0.clone(), pairs[i].1.clone());
            proof {
                assert(all.take(i + 1).drop_last() == all.take(i as int));
                assert(self@ =~= before.union_prefer_right(outside::pairs_as_map(all.take(i + 1))));
            }
            i = i + 1;
        }
        assert(all.take(i as int) == all);
    }

    /// Adds routes in their order.
    pub fn insert_list(&mut self, list: &Vec<ProxyRoute>)
        ensures
            final(self)@ == old(self)@.union_prefer_right(listed_routes(list@)),
    {
        let ghost before = self@;
        let mut i: usize = 0;
        assert(list@.take(0) == Seq::<ProxyRoute>::empty());
        assert(before.union_prefer_right(listed_routes(list@.take(0))) =~= before);
        while i < list.len()
            invariant
                i <= list@.len(),
                self@ == before.union_prefer_right(listed_routes(list@.take(i as int))),
            decreases list@.len() - i,
        {
            self.insert(list[i].prefix.clone(), list[i].upstream.clone());
            proof {
                assert(list@.take(i + 1).drop_last() == list@.take(i as int));
                assert(self@ =~= before.union_prefer_right(listed_routes(list@.take(i + 1))));
            }
            i = i + 1;
        }
        assert(list@.take(i as int) == list@);
    }

    /// The routes, in some order.
    pub fn routes(&self) -> (list: &Vec<ProxyRoute>)
        ensures
            listed_routes(list@) == self@,
            forall|i: int, j: int|
                0 <= i < j < list@.len() ==> (#[trigger] list@[i]).prefix@ != (#[trigger] list@[j]).prefix@,
    {
        proof {
            use_type_invariant(self);
        }
        &self.entries
    }

    /// The route that a path takes: of those whose prefix it starts with, the one with the
    /// longest prefix.
    pub fn route_for(&self, path: &str) -> (route: Option<&ProxyRoute>)
        ensures
            match route {
                Some(taken) => {
                    &&& route_of(self@, path@) == Some(taken.prefix@)
                    &&& is_longest_route(self@, path@, taken.prefix@)
                    &&& self@[taken.prefix@] == taken.upstream@
                },
                None => route_of(self@, path@) is None,
            },
    {
        proof {
            use_type_invariant(self);
            lemma_listed_routes(self.entries@);
        }
        let mut best: Option<usize> = None;
        let mut best_len: usize = 0;
        let mut i: usize = 0;
        while i < self.entries.len()
            invariant
                i <= self.entries@.len(),
                match best {
                    Some(b) => {
                        &&& b < i
                        &&& self.entries@[b as int].prefix@.is_prefix_of(path@)
                        &&& best_len == self.entries@[b as int].prefix@.len()
                        &&& forall|j: int|
                            0 <= j < i && (#[trigger] self.entries@[j]).prefix@.is_prefix_of(path@)
                                ==> self.entries@[j].prefix@.len() <= best_len
                    },
                    None => forall|j: int|
                        0 <= j < i ==> !(#[trigger] self.entries@[j]).prefix@.is_prefix_of(path@),
                },
            decreases self.entries@.len() - i,
        {
            let prefix = self.entries[i].prefix.as_str();
            if text::starts_with(path, prefix) {
                let length: usize = prefix.unicode_len();
                if best.is_none() || length > best_len {
                    best = Some(i);
                    best_len = length;
                }
            }
            i = i + 1;
        }
        match best {
            Some(b) => {
                let taken = &self.entries[b];
                proof {
                    assert(route_applies(self@, path@, taken.prefix@));
                    assert(is_longest_route(self@, path@, taken.prefix@));
                    law_longest_prefix_wins(self@, path@, taken.prefix@);
                }
                Some(taken)
            },
            None => None,
        }
    }

    fn position(&self, prefix: &str) -> (found: Option<usize>)
        ensures
            match found {
                Some(i) => i < self.entries@.len() && self.entries@[i as int].prefix@ == prefix@,
                None => forall|i: int|
                    0 <= i < self.entries@.len() ==> (#[trigger] self.entries@[i]).prefix@ != prefix@,
            },
    {
        let mut i: usize = 0;
        while i < self.entries.len()
            invariant
                i <= self.entries@.len(),
                forall|j: int| 0 <= j < i ==> (#[trigger] self.entries@[j]).prefix@ != prefix@,
            decreases self.entries@.len() - i,
        {
            if text::same_text(self.entries[i].prefix.as_str(), prefix) {
                return Some(i);
            }
            i = i + 1;
        }
        None
    }
}

impl Clone for RouteTable {
    fn clone(&self) -> (copy: RouteTable)
        ensures
            copy@ == self@,
    {
        let mut copy = RouteTable::new();
        copy.insert_list(self.routes());
        assert(copy@ =~= self@);
        copy
    }
}

/// Changing the upstream of one entry changes the route of its prefix and no other.
proof fn lemma_replace_route(list: Seq<ProxyRoute>, i: int, route: ProxyRoute)
    requires
        distinct_prefixes(list),
        0 <= i < list.len(),
        list[i].prefix@ == route.prefix@,
    ensures
        distinct_prefixes(list.update(i, route)),
        listed_routes(list.update(i, route)) == listed_routes(list).insert(route.prefix@, route.upstream@),
{
    let changed = list.update(i, route);
    assert forall|a: int, b: int| 0 <= a < b < changed.len() implies (#[trigger] changed[a]).prefix@
        != (#[trigger] changed[b]).prefix@ by {
        assert(list[a].prefix@ != list[b].prefix@);
    }
    lemma_listed_routes(list);
    lemma_listed_routes(changed);
    let left = listed_routes(changed);
    let right = listed_routes(list).insert(route.prefix@, route.upstream@);
    assert forall|prefix: Seq<char>| left.contains_key(prefix) == right.contains_key(prefix) by {
        if left.contains_key(prefix) {
            let j = choose|j: int| 0 <= j < changed.len() && (#[trigger] changed[j]).prefix@ == prefix;
            assert(list[j].prefix@ == prefix);
        }
        if listed_routes(list).contains_key(prefix) {
            let j = choose|j: int| 0 <= j < list.len() && (#[trigger] list[j]).prefix@ == prefix;
            assert(changed[j].prefix@ == prefix);
        }
        assert(changed[i].prefix@ == route.prefix@);
    }
    assert forall|prefix: Seq<char>| left.contains_key(prefix) implies left[prefix] == right[prefix] by {
        let j = choose|j: int| 0 <= j < changed.len() && (#[trigger] changed[j]).prefix@ == prefix;
        assert(list[j].prefix@ == prefix);
        if j != i {
            assert(list[i].prefix@ != list[j].prefix@) by {
                assert(i < j || j < i);
            }
        }
    }
    assert(left =~= right);
}

/// A list of distinct prefixes has as many routes as entries.
proof fn lemma_route_count(list: Seq<ProxyRoute>)
    requires
        distinct_prefixes(list),
    ensures
        listed_routes(list).dom().finite(),
        listed_routes(list).dom().len() == list.len(),
    decreases list.len(),
{
    if list.len() > 0 {
        let front = list.drop_last();
        assert(distinct_prefixes(front)) by {
            assert forall|i: int, j: int| 0 <= i < j < front.len() implies (#[trigger] front[i]).prefix@
                != (#[trigger] front[j]).prefix@ by {
                assert(front[i] == list[i] && front[j] == list[j]);
            }
        }
        lemma_route_count(front);
        lemma_listed_routes(front);
        if listed_routes(front).contains_key(list.last().prefix@) {
            let i = choose|i: int|
                0 <= i < front.len() && (#[trigger] front[i]).prefix@ == list.last().prefix@;
            assert(list[i].prefix@ != list[list.len() - 1].prefix@);
        }
        assert(listed_routes(list).dom() =~= listed_routes(front).dom().insert(list.last().prefix@));
    }
}

// ---------------------------------------------------------------------------
// Laws of the table
// ---------------------------------------------------------------------------

/// A path takes the route of a prefix exactly where the table has the prefix, the path starts with
/// it, and every prefix of the table that the path starts with is no longer. It goes to the upstream
/// that the table has for that prefix.
pub proof fn law_route_by_prefix(routes: Map<Seq<char>, Seq<char>>, path: Seq<char>, prefix: Seq<char>)
    ensures
        route_of(routes, path) == Some(prefix) <==> {
            &&& routes.contains_key(prefix)
            &&& prefix.is_prefix_of(path)
            &&& forall|other: Seq<char>| #[trigger]
                routes.contains_key(other) && other.is_prefix_of(path) ==> other.len() <= prefix.len()
        },
        route_of(routes, path) == Some(prefix) ==> upstream_of(routes, path) == Some(routes[prefix]),
{
    law_longest_prefix_wins(routes, path, prefix);
    if is_longest_route(routes, path, prefix) {
        assert forall|other: Seq<char>| #[trigger]
            routes.contains_key(other) && other.is_prefix_of(path) implies other.len() <= prefix.len() by {
            assert(route_applies(routes, path, other));
        }
    }
}

/// A path goes nowhere exactly where it starts with no prefix of the table.
pub proof fn law_no_route_by_prefix(routes: Map<Seq<char>, Seq<char>>, path: Seq<char>)
    ensures
        route_of(routes, path) is None <==> forall|prefix: Seq<char>| #[trigger]
            routes.contains_key(prefix) ==> !prefix.is_prefix_of(path),
        upstream_of(routes, path) is None <==> route_of(routes, path) is None,
{
    if route_of(routes, path) is None {
        assert forall|prefix: Seq<char>| #[trigger]
            routes.contains_key(prefix) implies !prefix.is_prefix_of(path) by {
            assert(!route_applies(routes, path, prefix));
        }
    }
}

/// A list of routes gives a route to the prefixes that occur in it, and to no other.
pub proof fn law_listed_prefixes(list: Seq<ProxyRoute>, prefix: Seq<char>)
    ensures
        listed_routes(list).contains_key(prefix) <==> exists|i: int|
            0 <= i < list.len() && (#[trigger] list[i]).prefix@ == prefix,
    decreases list.len(),
{
    if list.len() > 0 {
        let front = list.drop_last();
        let last = list[list.len() - 1];
        law_listed_prefixes(front, prefix);
        if last.prefix@ != prefix {
            if listed_routes(list).contains_key(prefix) {
                let i = choose|i: int| 0 <= i < front.len() && (#[trigger] front[i]).prefix@ == prefix;
                assert(list[i].prefix@ == prefix);
            }
            if exists|i: int| 0 <= i < list.len() && (#[trigger] list[i]).prefix@ == prefix {
                let i = choose|i: int| 0 <= i < list.len() && (#[trigger] list[i]).prefix@ == prefix;
                assert(front[i].prefix@ == prefix);
            }
        }
    }
}

/// A list of pairs writes a map of the first parts that occur in it, and of no other.
pub proof fn law_paired_keys(pairs: Seq<(String, String)>, key: Seq<char>)
    ensures
        outside::pairs_as_map(pairs).contains_key(key) <==> exists|i: int|
            0 <= i < pairs.len() && (#[trigger] pairs[i]).0@ == key,
    decreases pairs.len(),
{
    if pairs.len() > 0 {
        let front = pairs.drop_last();
        let last = pairs[pairs.len() - 1];
        law_paired_keys(front, key);
        if last.0@ != key {
            if outside::pairs_as_map(pairs).contains_key(key) {
                let i = choose|i: int| 0 <= i < front.len() && (#[trigger] front[i]).0@ == key;
                assert(pairs[i].0@ == key);
            }
            if exists|i: int| 0 <= i < pairs.len() && (#[trigger] pairs[i]).0@ == key {
                let i = choose|i: int| 0 <= i < pairs.len() && (#[trigger] pairs[i]).0@ == key;
                assert(front[i].0@ == key);
            }
        }
    }
}

/// Of several pairs with one first part, the last one counts.
pub proof fn law_last_pair_counts(pairs: Seq<(String, String)>, i: int)
    requires
        0 <= i < pairs.len(),
        forall|j: int| i < j < pairs.len() ==> (#[trigger] pairs[j]).0@ != pairs[i].0@,
    ensures
        outside::pairs_as_map(pairs)[pairs[i].0@] == pairs[i].1@,
    decreases pairs.len(),
{
    if i < pairs.len() - 1 {
        let front = pairs.drop_last();
        assert forall|j: int| i < j < front.len() implies (#[trigger] front[j]).0@ != front[i].0@ by {
            assert(front[j] == pairs[j]);
        }
        law_last_pair_counts(front, i);
        assert(pairs[pairs.len() - 1].0@ != pairs[i].0@);
    }
}

} // verus!
