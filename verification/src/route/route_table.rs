//! Which way traffic goes, by where it is headed.
//!
//! What a matcher looks at is left to the caller, who passes the function that
//! asks one. Matchers may refer to others by name; the names that were looked
//! at for one address are kept, so that none is looked at twice.

use std::sync::Arc;

use vstd::prelude::*;
use vstd::string::*;
use crate::addr::InternetAddr;
use crate::key_map::KeyMap;
use crate::route::conn_chain::{ProbeFutures, SharableConfig, WeightedConnChain};
use crate::route::hop_config::HopConfig;
use crate::route::route_selector::{
    configured_weight, RouteSelector, RouteSelectorBuildError, RouteSelectorBuilder,
};

verus! {

/// What is done with traffic.
#[derive(Debug)]
pub enum RouteAction<G> {
    Direct,
    Block,
    RouteSelector(Arc<RouteSelector<G>>),
}

/// What is done with traffic that a matcher lets through.
#[derive(Debug)]
pub struct RouteTableEntry<M, G> {
    pub matcher_name: Option<String>,
    pub matcher: Arc<M>,
    pub action: RouteAction<G>,
}

impl<M, G> RouteTableEntry<M, G> {
    pub fn new(matcher_name: Option<String>, matcher: Arc<M>, action: RouteAction<G>) -> (r: Self)
        ensures
            r == (RouteTableEntry { matcher_name, matcher, action }),
    {
        RouteTableEntry { matcher_name, matcher, action }
    }

    pub fn matcher_name(&self) -> (r: Option<&String>)
        ensures
            match self.matcher_name {
                Some(name) => r == Some(&name),
                None => r is None,
            },
    {
        match &self.matcher_name {
            Some(name) => Some(name),
            None => None,
        }
    }

    pub fn matcher(&self) -> (r: &M)
        ensures
            *r == *self.matcher,
    {
        &self.matcher
    }

    pub fn action(&self) -> (r: &RouteAction<G>)
        ensures
            *r == self.action,
    {
        &self.action
    }
}

/// Entries, the first that matches wins; what none matches is blocked.
#[derive(Debug)]
pub struct RouteTable<M, G> {
    pub entries: Vec<RouteTableEntry<M, G>>,
    pub unmatched: RouteAction<G>,
}

/// Whether the name is among those that were looked at.
pub open spec fn visited_has(visited: Seq<String>, name: Seq<char>) -> bool {
    exists|i: int| 0 <= i < visited.len() && (#[trigger] visited[i])@ == name
}

/// The names that were looked at once an entry is.
pub open spec fn visited_with(visited: Seq<String>, name: Option<String>) -> Seq<String> {
    match name {
        Some(name) => visited.push(name),
        None => visited,
    }
}

/// Whether asking a matcher may answer `hit` and leave `after` as the names
/// that were looked at.
pub open spec fn matcher_answers<M, F: Fn(&M, &InternetAddr, Vec<String>) -> (bool, Vec<String>)>(
    matches: F,
    matcher: M,
    addr: InternetAddr,
    visited: Seq<String>,
    hit: bool,
    after: Vec<String>,
) -> bool {
    exists|v: Vec<String>|
        v@ == visited && #[trigger] call_ensures(matches, (&matcher, &addr, v), (hit, after))
}

/// Whether looking through the entries from `i` on may find `found`.
pub open spec fn finds<M, G, F: Fn(&M, &InternetAddr, Vec<String>) -> (bool, Vec<String>)>(
    matches: F,
    entries: Seq<RouteTableEntry<M, G>>,
    addr: InternetAddr,
    i: int,
    visited: Seq<String>,
    found: Option<int>,
) -> bool
    decreases entries.len() - i,
{
    if i >= entries.len() {
        found is None
    } else if entries[i].matcher_name is Some && visited_has(
        visited,
        entries[i].matcher_name->0@,
    ) {
        finds(matches, entries, addr, i + 1, visited, found)
    } else {
        exists|hit: bool, after: Vec<String>| #[trigger]
            matcher_answers(
                matches,
                *entries[i].matcher,
                addr,
                visited_with(visited, entries[i].matcher_name),
                hit,
                after,
            ) && if hit {
                found == Some(i)
            } else {
                finds(matches, entries, addr, i + 1, after@, found)
            }
    }
}

fn is_visited(visited: &Vec<String>, name: &String) -> (r: bool)
    ensures
        r == visited_has(visited@, name@),
{
    let mut i: usize = 0;
    while i < visited.len()
        invariant
            i <= visited@.len(),
            forall|j: int| 0 <= j < i ==> (#[trigger] visited@[j])@ != name@,
        decreases visited@.len() - i,
    {
        if visited[i] == *name {
            return true;
        }
        i += 1;
    }
    false
}

impl<M, G> RouteTable<M, G> {
    pub open spec fn wf(self) -> bool {
        self.unmatched is Block
    }

    pub fn new(entries: Vec<RouteTableEntry<M, G>>) -> (r: Self)
        ensures
            r.wf(),
            r.entries == entries,
    {
        RouteTable { entries, unmatched: RouteAction::Block }
    }

    /// What is done with traffic for the address: the action of the first
    /// entry that matches. An entry whose shared matcher was looked at before
    /// is passed over.
    pub fn action<F: Fn(&M, &InternetAddr, Vec<String>) -> (bool, Vec<String>)>(
        &self,
        addr: &InternetAddr,
        matches: &F,
    ) -> (r: &RouteAction<G>)
        requires
            self.wf(),
            forall|m: &M, a: &InternetAddr, v: Vec<String>| call_requires(*matches, (m, a, v)),
        ensures
            exists|found: Option<int>| #[trigger]
                finds(*matches, self.entries@, *addr, 0, Seq::empty(), found) && match found {
                    Some(i) => 0 <= i < self.entries@.len() && *r == self.entries@[i].action,
                    None => *r is Block,
                },
    {
        let mut visited: Vec<String> = Vec::new();
        assert(visited@ =~= Seq::<String>::empty());
        let mut i: usize = 0;
        while i < self.entries.len()
            invariant
                i <= self.entries@.len(),
                self.wf(),
                forall|m: &M, a: &InternetAddr, v: Vec<String>| call_requires(*matches, (m, a, v)),
                forall|found: Option<int>| #[trigger]
                    finds(*matches, self.entries@, *addr, i as int, visited@, found) ==> finds(
                        *matches,
                        self.entries@,
                        *addr,
                        0,
                        Seq::empty(),
                        found,
                    ),
            decreases self.entries@.len() - i,
        {
            let ghost before = visited@;
            let entry = &self.entries[i];
            let mut skip = false;
            if let Some(name) = entry.matcher_name() {
                if is_visited(&visited, name) {
                    skip = true;
                } else {
                    visited.push(name.clone());
                }
            }
            if !skip {
                assert(visited@ == visited_with(before, self.entries@[i as int].matcher_name));
                let ghost asked = visited@;
                let (hit, after) = matches(entry.matcher(), addr, visited);
                assert(matcher_answers(
                    *matches,
                    *self.entries@[i as int].matcher,
                    *addr,
                    asked,
                    hit,
                    after,
                ));
                if hit {
                    assert(finds(
                        *matches,
                        self.entries@,
                        *addr,
                        i as int,
                        before,
                        Some(i as int),
                    ));
                    return entry.action();
                }
                visited = after;
            }
            proof {
                assert forall|found: Option<int>| #[trigger]
                    finds(
                        *matches,
                        self.entries@,
                        *addr,
                        i + 1,
                        visited@,
                        found,
                    ) implies finds(
                    *matches,
                    self.entries@,
                    *addr,
                    0,
                    Seq::empty(),
                    found,
                ) by {
                    assert(finds(*matches, self.entries@, *addr, i as int, before, found));
                }
            }
            i += 1;
        }
        assert(finds(*matches, self.entries@, *addr, i as int, visited@, None));
        &self.unmatched
    }
}

/// An empty table blocks everything.
pub proof fn empty_table_blocks<
    M,
    G,
    F: Fn(&M, &InternetAddr, Vec<String>) -> (bool, Vec<String>),
>(matches: F, addr: InternetAddr, found: Option<int>)
    requires
        finds(
            matches,
            Seq::<RouteTableEntry<M, G>>::empty(),
            addr,
            0,
            Seq::<String>::empty(),
            found,
        ),
    ensures
        found is None,
{
}

/// An entry without a name that matches is found, unless an earlier one is:
/// the first matching entry wins.
pub proof fn first_match_wins<M, G, F: Fn(&M, &InternetAddr, Vec<String>) -> (bool, Vec<String>)>(
    matches: F,
    entries: Seq<RouteTableEntry<M, G>>,
    addr: InternetAddr,
    i: int,
    visited: Seq<String>,
    found: Option<int>,
    k: int,
)
    requires
        0 <= i <= k < entries.len(),
        entries[k].matcher_name is None,
        forall|v: Seq<String>, hit: bool, after: Vec<String>| #[trigger]
            matcher_answers(matches, *entries[k].matcher, addr, v, hit, after) ==> hit,
        finds(matches, entries, addr, i, visited, found),
    ensures
        found matches Some(at) && i <= at <= k,
    decreases k - i,
{
    if entries[i].matcher_name is Some && visited_has(visited, entries[i].matcher_name->0@) {
        first_match_wins(matches, entries, addr, i + 1, visited, found, k);
    } else {
        let v = visited_with(visited, entries[i].matcher_name);
        let (hit, after) = choose|hit: bool, after: Vec<String>| #[trigger]
            matcher_answers(matches, *entries[i].matcher, addr, v, hit, after) && if hit {
                found == Some(i)
            } else {
                finds(matches, entries, addr, i + 1, after@, found)
            };
        if !hit {
            assert(i < k);
            first_match_wins(matches, entries, addr, i + 1, after@, found, k);
        }
    }
}

/// Whether asking matchers never forgets a name that was looked at.
pub open spec fn remembers<M, F: Fn(&M, &InternetAddr, Vec<String>) -> (bool, Vec<String>)>(
    matches: F,
) -> bool {
    forall|m: M, addr: InternetAddr, v: Seq<String>, hit: bool, after: Vec<String>, name: Seq<char>|
        #[trigger] matcher_answers(matches, m, addr, v, hit, after) && #[trigger] visited_has(
            v,
            name,
        ) ==> visited_has(after@, name)
}

/// A shared matcher is looked at once: of two entries with the same name the
/// later one is never found.
pub proof fn shared_matcher_is_consulted_once<
    M,
    G,
    F: Fn(&M, &InternetAddr, Vec<String>) -> (bool, Vec<String>),
>(
    matches: F,
    entries: Seq<RouteTableEntry<M, G>>,
    addr: InternetAddr,
    i: int,
    visited: Seq<String>,
    found: Option<int>,
    first: int,
    second: int,
)
    requires
        remembers::<M, F>(matches),
        0 <= i,
        0 <= first < second < entries.len(),
        entries[first].matcher_name is Some,
        entries[second].matcher_name is Some,
        entries[first].matcher_name->0@ == entries[second].matcher_name->0@,
        i > first ==> visited_has(visited, entries[first].matcher_name->0@),
        finds(matches, entries, addr, i, visited, found),
    ensures
        found != Some(second),
    decreases entries.len() - i,
{
    if i < entries.len() {
        let name = entries[first].matcher_name->0@;
        if entries[i].matcher_name is Some && visited_has(visited, entries[i].matcher_name->0@) {
            shared_matcher_is_consulted_once(
                matches,
                entries,
                addr,
                i + 1,
                visited,
                found,
                first,
                second,
            );
        } else {
            let v = visited_with(visited, entries[i].matcher_name);
            let (hit, after) = choose|hit: bool, after: Vec<String>| #[trigger]
                matcher_answers(matches, *entries[i].matcher, addr, v, hit, after) && if hit {
                    found == Some(i)
                } else {
                    finds(matches, entries, addr, i + 1, after@, found)
                };
            if !hit {
                if i >= first {
                    assert(visited_has(v, name)) by {
                        if i == first {
                            assert(v[visited.len() as int]@ == name);
                        } else {
                            let k = choose|k: int|
                                0 <= k < visited.len() && (#[trigger] visited[k])@ == name;
                            assert(v[k] == visited[k]);
                        }
                    }
                    assert(visited_has(after@, name));
                }
                shared_matcher_is_consulted_once(
                    matches,
                    entries,
                    addr,
                    i + 1,
                    after@,
                    found,
                    first,
                    second,
                );
            }
        }
    }
}

/// The actions that are configured by a word.
#[derive(Debug, Clone, Copy, PartialEq, Eq, Structural)]
pub enum RouteActionTagBuilder {
    Direct,
    Block,
}

/// A selector that is configured by name or in place.
#[derive(Debug)]
pub enum RouteActionSelector<R> {
    Named { conn_selector: String },
    Sharable(SharableConfig<RouteSelectorBuilder<R>>),
}

/// An action as it is configured.
#[derive(Debug)]
pub enum RouteActionBuilder<R> {
    Tagged(RouteActionTagBuilder),
    RouteSelector(RouteActionSelector<R>),
}

/// Why a table could not be put together.
#[derive(Debug)]
pub enum RouteTableBuildError<R> {
    RouteSelectorKeyNotFound(String),
    MatcherKeyNotFound(String),
    RouteSelector(RouteSelectorBuildError<R>),
    ReservedRouteSelectorName(String),
}

/// What configurations refer to by name.
#[derive(Debug)]
pub struct Registries<M, G> {
    pub conn: KeyMap<String, HopConfig>,
    pub matcher: KeyMap<String, Arc<M>>,
    pub conn_selector: KeyMap<String, Arc<RouteSelector<G>>>,
}

impl<M, G> Registries<M, G> {
    pub open spec fn wf(self) -> bool {
        self.conn.wf() && self.matcher.wf() && self.conn_selector.wf()
    }
}

/// Whether a name is taken by a built-in action.
pub open spec fn is_reserved(name: Seq<char>) -> bool {
    name == "direct"@ || name == "block"@
}

fn forbid_reserved_selector_name<R>(name: &String) -> (r: Result<(), RouteTableBuildError<R>>)
    ensures
        match r {
            Ok(()) => !is_reserved(name@),
            Err(e) => is_reserved(name@) && e == RouteTableBuildError::<
                R,
            >::ReservedRouteSelectorName(*name),
        },
{
    if *name == "direct".to_owned() || *name == "block".to_owned() {
        return Err(RouteTableBuildError::ReservedRouteSelectorName(name.clone()));
    }
    Ok(())
}

/// What a selector's name stands for.
pub open spec fn named_selector<M, G, R>(
    registries: Registries<M, G>,
    name: String,
) -> Result<RouteAction<G>, RouteTableBuildError<R>> {
    if is_reserved(name@) {
        Err(RouteTableBuildError::ReservedRouteSelectorName(name))
    } else if registries.conn_selector@.dom().contains(name@) {
        Ok(RouteAction::RouteSelector(registries.conn_selector@[name@]))
    } else {
        Err(RouteTableBuildError::RouteSelectorKeyNotFound(name))
    }
}

fn resolve_named<M, G, R>(registries: &Registries<M, G>, name: String) -> (r: Result<
    RouteAction<G>,
    RouteTableBuildError<R>,
>)
    requires
        registries.wf(),
    ensures
        r == named_selector::<M, G, R>(*registries, name),
{
    match forbid_reserved_selector_name::<R>(&name) {
        Ok(()) => {},
        Err(e) => {
            return Err(e);
        },
    }
    match registries.conn_selector.get(&name) {
        Some(selector) => Ok(RouteAction::RouteSelector(selector.clone())),
        None => Err(RouteTableBuildError::RouteSelectorKeyNotFound(name)),
    }
}

impl<R> RouteActionBuilder<R> {
    /// The weights of a selector that is configured in place can be added up.
    pub open spec fn wf(self) -> bool {
        match self {
            RouteActionBuilder::RouteSelector(
                RouteActionSelector::Sharable(SharableConfig::Private(builder)),
            ) => {
                &&& configured_weight(builder.chains@) <= usize::MAX
                &&& builder.active_chains matches Some(active) ==> active > 0
            },
            _ => true,
        }
    }

    /// Whether making the action may end in `r`, the collected probes going
    /// from `before` to `after`. Only a selector that is configured in place
    /// adds probes.
    pub open spec fn builds_to<
        M,
        G,
        F,
        P: Fn(&WeightedConnChain) -> F,
        Q: Fn(R) -> Result<G, R>,
    >(
        self,
        registries: Registries<M, G>,
        make_probe: P,
        gate_of: Q,
        before: Seq<F>,
        after: Seq<F>,
        r: Result<RouteAction<G>, RouteTableBuildError<R>>,
    ) -> bool {
        match self {
            RouteActionBuilder::Tagged(RouteActionTagBuilder::Direct) => after == before && r
                == Ok::<RouteAction<G>, RouteTableBuildError<R>>(RouteAction::Direct),
            RouteActionBuilder::Tagged(RouteActionTagBuilder::Block) => after == before && r
                == Ok::<RouteAction<G>, RouteTableBuildError<R>>(RouteAction::Block),
            RouteActionBuilder::RouteSelector(RouteActionSelector::Named { conn_selector }) =>
                after == before && r == named_selector::<M, G, R>(registries, conn_selector),
            RouteActionBuilder::RouteSelector(
                RouteActionSelector::Sharable(SharableConfig::SharingKey(key)),
            ) => after == before && r == named_selector::<M, G, R>(registries, key),
            RouteActionBuilder::RouteSelector(
                RouteActionSelector::Sharable(SharableConfig::Private(builder)),
            ) => match r {
                Ok(RouteAction::RouteSelector(selector)) => builder.builds_to(
                    registries.conn,
                    make_probe,
                    gate_of,
                    before,
                    after,
                    Ok(*selector),
                ),
                Err(RouteTableBuildError::RouteSelector(e)) => builder.builds_to::<G, F, P, Q>(
                    registries.conn,
                    make_probe,
                    gate_of,
                    before,
                    after,
                    Err(e),
                ),
                _ => false,
            },
        }
    }

    /// Looks up a selector that is configured by name, or makes one that is
    /// configured in place.
    pub fn resolve<
        M,
        G,
        F,
        P: Fn(&WeightedConnChain) -> F,
        Q: Fn(R) -> Result<G, R>,
    >(
        self,
        registries: &Registries<M, G>,
        make_probe: &P,
        gate_of: &Q,
        probes: &mut ProbeFutures<F>,
    ) -> (r: Result<RouteAction<G>, RouteTableBuildError<R>>)
        requires
            registries.wf(),
            self.wf(),
            forall|c: &WeightedConnChain| call_requires(*make_probe, (c,)),
            forall|ratio: R| call_requires(*gate_of, (ratio,)),
        ensures
            self.builds_to(
                *registries,
                *make_probe,
                *gate_of,
                old(probes).futures@,
                final(probes).futures@,
                r,
            ),
    {
        match self {
            RouteActionBuilder::Tagged(RouteActionTagBuilder::Direct) => Ok(RouteAction::Direct),
            RouteActionBuilder::Tagged(RouteActionTagBuilder::Block) => Ok(RouteAction::Block),
            RouteActionBuilder::RouteSelector(RouteActionSelector::Named { conn_selector }) => {
                resolve_named(registries, conn_selector)
            },
            RouteActionBuilder::RouteSelector(
                RouteActionSelector::Sharable(SharableConfig::SharingKey(key)),
            ) => { resolve_named(registries, key) },
            RouteActionBuilder::RouteSelector(
                RouteActionSelector::Sharable(SharableConfig::Private(builder)),
            ) => {
                match builder.resolve(&registries.conn, make_probe, gate_of, probes) {
                    Ok(selector) => Ok(RouteAction::RouteSelector(Arc::new(selector))),
                    Err(e) => Err(RouteTableBuildError::RouteSelector(e)),
                }
            },
        }
    }
}

/// An entry as it is configured.
#[derive(Debug)]
pub struct RouteTableEntryBuilder<M, R> {
    pub matcher: SharableConfig<Arc<M>>,
    pub action: RouteActionBuilder<R>,
}

impl<M, R> RouteTableEntryBuilder<M, R> {
    /// Whether making the entry may end in `r`, the collected probes going
    /// from `before` to `after`: a matcher that is not known comes first, then
    /// an error of the action.
    pub open spec fn builds_to<
        G,
        F,
        P: Fn(&WeightedConnChain) -> F,
        Q: Fn(R) -> Result<G, R>,
    >(
        self,
        registries: Registries<M, G>,
        make_probe: P,
        gate_of: Q,
        before: Seq<F>,
        after: Seq<F>,
        r: Result<RouteTableEntry<M, G>, RouteTableBuildError<R>>,
    ) -> bool {
        let matcher = match self.matcher {
            SharableConfig::SharingKey(key) => if registries.matcher@.dom().contains(key@) {
                Ok((Some(key), registries.matcher@[key@]))
            } else {
                Err(RouteTableBuildError::<R>::MatcherKeyNotFound(key))
            },
            SharableConfig::Private(matcher) => Ok((None, matcher)),
        };
        match (matcher, r) {
            (Err(e), _) => r == Err::<RouteTableEntry<M, G>, _>(e) && after == before,
            (Ok((name, matcher)), Ok(entry)) => {
                &&& entry.matcher_name == name
                &&& entry.matcher == matcher
                &&& self.action.builds_to(
                    registries,
                    make_probe,
                    gate_of,
                    before,
                    after,
                    Ok(entry.action),
                )
            },
            (Ok(_), Err(e)) => self.action.builds_to(
                registries,
                make_probe,
                gate_of,
                before,
                after,
                Err(e),
            ),
        }
    }

    /// Looks up the matcher, or takes the one that is configured in place, and
    /// makes the action.
    pub fn resolve<
        G,
        F,
        P: Fn(&WeightedConnChain) -> F,
        Q: Fn(R) -> Result<G, R>,
    >(
        self,
        registries: &Registries<M, G>,
        make_probe: &P,
        gate_of: &Q,
        probes: &mut ProbeFutures<F>,
    ) -> (r: Result<RouteTableEntry<M, G>, RouteTableBuildError<R>>)
        requires
            registries.wf(),
            self.action.wf(),
            forall|c: &WeightedConnChain| call_requires(*make_probe, (c,)),
            forall|ratio: R| call_requires(*gate_of, (ratio,)),
        ensures
            self.builds_to(
                *registries,
                *make_probe,
                *gate_of,
                old(probes).futures@,
                final(probes).futures@,
                r,
            ),
    {
        let (name, matcher) = match self.matcher {
            SharableConfig::SharingKey(key) => match registries.matcher.get(&key) {
                Some(matcher) => (Some(key), matcher.clone()),
                None => {
                    return Err(RouteTableBuildError::MatcherKeyNotFound(key));
                },
            },
            SharableConfig::Private(matcher) => (None, matcher),
        };
        match self.action.resolve(registries, make_probe, gate_of, probes) {
            Ok(action) => Ok(RouteTableEntry::new(name, matcher, action)),
            Err(e) => Err(e),
        }
    }
}

/// A table as it is configured.
#[derive(Debug)]
pub struct RouteTableBuilder<M, R> {
    pub entries: Vec<RouteTableEntryBuilder<M, R>>,
}

impl<M, R> RouteTableBuilder<M, R> {
    pub open spec fn wf(self) -> bool {
        forall|i: int| 0 <= i < self.entries@.len() ==> (#[trigger] self.entries@[i]).action.wf()
    }

    /// Whether making the table may end in `r`, the collected probes going
    /// from `before` to `after`: all entries are made, or those before the
    /// first that fails. Each adds its probes behind those of the entries
    /// before it.
    pub open spec fn builds_to<
        G,
        F,
        P: Fn(&WeightedConnChain) -> F,
        Q: Fn(R) -> Result<G, R>,
    >(
        self,
        registries: Registries<M, G>,
        make_probe: P,
        gate_of: Q,
        before: Seq<F>,
        after: Seq<F>,
        r: Result<RouteTable<M, G>, RouteTableBuildError<R>>,
    ) -> bool {
        match r {
            Ok(table) => {
                &&& table.wf()
                &&& table.entries@.len() == self.entries@.len()
                &&& exists|collected: Seq<Seq<F>>|
                    {
                        &&& #[trigger] entries_build(
                            self.entries@,
                            registries,
                            make_probe,
                            gate_of,
                            collected,
                            table.entries@,
                        )
                        &&& collected[0] == before
                        &&& collected.last() == after
                    }
            },
            Err(e) => exists|collected: Seq<Seq<F>>, built: Seq<RouteTableEntry<M, G>>|
                {
                    &&& #[trigger] entries_build(
                        self.entries@,
                        registries,
                        make_probe,
                        gate_of,
                        collected,
                        built,
                    )
                    &&& collected[0] == before
                    &&& built.len() < self.entries@.len()
                    &&& self.entries@[built.len() as int].builds_to::<G, F, P, Q>(
                        registries,
                        make_probe,
                        gate_of,
                        collected.last(),
                        after,
                        Err(e),
                    )
                },
        }
    }

    /// Makes the entries in order; the first error ends it.
    pub fn resolve<
        G,
        F,
        P: Fn(&WeightedConnChain) -> F,
        Q: Fn(R) -> Result<G, R>,
    >(
        self,
        registries: &Registries<M, G>,
        make_probe: &P,
        gate_of: &Q,
        probes: &mut ProbeFutures<F>,
    ) -> (r: Result<RouteTable<M, G>, RouteTableBuildError<R>>)
        requires
            registries.wf(),
            self.wf(),
            forall|c: &WeightedConnChain| call_requires(*make_probe, (c,)),
            forall|ratio: R| call_requires(*gate_of, (ratio,)),
        ensures
            self.builds_to(
                *registries,
                *make_probe,
                *gate_of,
                old(probes).futures@,
                final(probes).futures@,
                r,
            ),
    {
        let ghost configured = self.entries@;
        let ghost mut collected = seq![probes.futures@];
        let mut rest: Vec<RouteTableEntryBuilder<M, R>> = self.entries;
        let mut built: Vec<RouteTableEntry<M, G>> = Vec::new();
        while rest.len() > 0
            invariant
                registries.wf(),
                configured == self.entries@,
                forall|i: int|
                    0 <= i < configured.len() ==> (#[trigger] configured[i]).action.wf(),
                built@.len() + rest@.len() == configured.len(),
                rest@ == configured.skip(built@.len() as int),
                forall|c: &WeightedConnChain| call_requires(*make_probe, (c,)),
                forall|ratio: R| call_requires(*gate_of, (ratio,)),
                entries_build(
                    configured,
                    *registries,
                    *make_probe,
                    *gate_of,
                    collected,
                    built@,
                ),
                collected[0] == old(probes).futures@,
                collected.last() == probes.futures@,
            decreases rest@.len(),
        {
            let ghost i = built@.len() as int;
            let ghost before = collected;
            let ghost made = built@;
            let entry = rest.remove(0);
            assert(entry == configured[i]);
            assert(rest@ =~= configured.skip(i + 1));
            match entry.resolve(registries, make_probe, gate_of, probes) {
                Ok(entry) => {
                    built.push(entry);
                    proof {
                        collected = before.push(probes.futures@);
                        assert forall|k: int| 0 <= k < built@.len() implies (
                        #[trigger] configured[k]).builds_to(
                            *registries,
                            *make_probe,
                            *gate_of,
                            collected[k],
                            collected[k + 1],
                            Ok(built@[k]),
                        ) by {
                            if k < i {
                                assert(made[k] == built@[k]);
                            }
                        }
                    }
                },
                Err(e) => {
                    return Err(e);
                },
            }
        }
        Ok(RouteTable::new(built))
    }
}

/// Whether the first of the configured entries may be made into `built`, one by
/// one, the collected probes going through the stages of `collected`.
pub open spec fn entries_build<
    M,
    G,
    R,
    F,
    P: Fn(&WeightedConnChain) -> F,
    Q: Fn(R) -> Result<G, R>,
>(
    configured: Seq<RouteTableEntryBuilder<M, R>>,
    registries: Registries<M, G>,
    make_probe: P,
    gate_of: Q,
    collected: Seq<Seq<F>>,
    built: Seq<RouteTableEntry<M, G>>,
) -> bool {
    &&& collected.len() == built.len() + 1
    &&& built.len() <= configured.len()
    &&& forall|i: int|
        0 <= i < built.len() ==> (#[trigger] configured[i]).builds_to(
            registries,
            make_probe,
            gate_of,
            collected[i],
            collected[i + 1],
            Ok(built[i]),
        )
}

/// An entry is found only if its matcher was asked for the address and said
/// yes. If it is a shared one, its name was among those looked at by then.
pub proof fn a_found_entry_said_yes<
    M,
    G,
    F: Fn(&M, &InternetAddr, Vec<String>) -> (bool, Vec<String>),
>(
    matches: F,
    entries: Seq<RouteTableEntry<M, G>>,
    addr: InternetAddr,
    i: int,
    visited: Seq<String>,
    k: int,
)
    requires
        0 <= i,
        finds(matches, entries, addr, i, visited, Some(k)),
    ensures
        i <= k < entries.len(),
        exists|v: Vec<String>, after: Vec<String>|
            {
                &&& #[trigger] call_ensures(
                    matches,
                    (&*entries[k].matcher, &addr, v),
                    (true, after),
                )
                &&& entries[k].matcher_name matches Some(name) ==> v@.len() > 0 && v@.last() == name
            },
    decreases entries.len() - i,
{
    if i < entries.len() {
        let found = Some(k);
        if entries[i].matcher_name is Some && visited_has(visited, entries[i].matcher_name->0@) {
            a_found_entry_said_yes(matches, entries, addr, i + 1, visited, k);
        } else {
            let asked = visited_with(visited, entries[i].matcher_name);
            let (hit, after) = choose|hit: bool, after: Vec<String>| #[trigger]
                matcher_answers(matches, *entries[i].matcher, addr, asked, hit, after) && if hit {
                    found == Some(i)
                } else {
                    finds(matches, entries, addr, i + 1, after@, found)
                };
            if hit {
                let v = choose|v: Vec<String>|
                    v@ == asked && #[trigger] call_ensures(
                        matches,
                        (&*entries[i].matcher, &addr, v),
                        (hit, after),
                    );
                assert(call_ensures(matches, (&*entries[k].matcher, &addr, v), (true, after)));
            } else {
                a_found_entry_said_yes(matches, entries, addr, i + 1, after@, k);
            }
        }
    }
}

/// Traffic that no matcher lets through is blocked: if no matcher can say yes
/// of the address, nothing is found.
pub proof fn what_no_matcher_lets_through_is_not_found<
    M,
    G,
    F: Fn(&M, &InternetAddr, Vec<String>) -> (bool, Vec<String>),
>(
    matches: F,
    entries: Seq<RouteTableEntry<M, G>>,
    addr: InternetAddr,
    found: Option<int>,
)
    requires
        forall|m: &M, v: Vec<String>, after: Vec<String>|
            !(#[trigger] call_ensures(matches, (m, &addr, v), (true, after))),
        finds(matches, entries, addr, 0, Seq::empty(), found),
    ensures
        found is None,
{
    if let Some(k) = found {
        a_found_entry_said_yes(matches, entries, addr, 0, Seq::empty(), k);
    }
}

/// An entry before the one that is found, or any entry if none is, was asked and
/// said no: unless it shares its matcher's name with an earlier one. (A matcher
/// that looks at others by name may take names away from later entries; what is
/// said of an entry with a name is said of matchers that do not.)
pub proof fn an_entry_is_passed_over_if_it_says_no<
    M,
    G,
    F: Fn(&M, &InternetAddr, Vec<String>) -> (bool, Vec<String>),
>(
    matches: F,
    entries: Seq<RouteTableEntry<M, G>>,
    addr: InternetAddr,
    i: int,
    visited: Seq<String>,
    found: Option<int>,
    j: int,
)
    requires
        0 <= i <= j < entries.len(),
        found matches Some(k) ==> j < k,
        entries[j].matcher_name is Some ==> {
            &&& forall|t: int|
                0 <= t < visited.len() ==> (#[trigger] visited[t])@ != entries[j].matcher_name->0@
            &&& forall|t: int|
                i <= t < j && (#[trigger] entries[t]).matcher_name is Some
                    ==> entries[t].matcher_name->0@ != entries[j].matcher_name->0@
            &&& forall|m: &M, a: &InternetAddr, v: Vec<String>, hit: bool, after: Vec<String>|
                #[trigger] call_ensures(matches, (m, a, v), (hit, after)) ==> after@ == v@
        },
        finds(matches, entries, addr, i, visited, found),
    ensures
        exists|v: Vec<String>, after: Vec<String>| #[trigger]
            call_ensures(matches, (&*entries[j].matcher, &addr, v), (false, after)),
    decreases j - i,
{
    if entries[i].matcher_name is Some && visited_has(visited, entries[i].matcher_name->0@) {
        if i == j {
            let t = choose|t: int|
                0 <= t < visited.len() && (#[trigger] visited[t])@ == entries[i].matcher_name->0@;
            assert(visited[t]@ != entries[j].matcher_name->0@);
        }
        an_entry_is_passed_over_if_it_says_no(matches, entries, addr, i + 1, visited, found, j);
    } else {
        let asked = visited_with(visited, entries[i].matcher_name);
        let (hit, after) = choose|hit: bool, after: Vec<String>| #[trigger]
            matcher_answers(matches, *entries[i].matcher, addr, asked, hit, after) && if hit {
                found == Some(i)
            } else {
                finds(matches, entries, addr, i + 1, after@, found)
            };
        let v = choose|v: Vec<String>|
            v@ == asked && #[trigger] call_ensures(
                matches,
                (&*entries[i].matcher, &addr, v),
                (hit, after),
            );
        assert(!hit);
        if i == j {
            assert(call_ensures(matches, (&*entries[j].matcher, &addr, v), (false, after)));
        } else {
            if entries[j].matcher_name is Some {
                assert(after@ == v@);
                assert forall|t: int| 0 <= t < after@.len() implies (#[trigger] after@[t])@
                    != entries[j].matcher_name->0@ by {
                    if t < visited.len() {
                        assert(after@[t] == visited[t]);
                    } else {
                        assert(entries[i].matcher_name is Some);
                    }
                }
            }
            an_entry_is_passed_over_if_it_says_no(
                matches,
                entries,
                addr,
                i + 1,
                after@,
                found,
                j,
            );
        }
    }
}

/// A name stands for the selector that is registered under it. The words of the
/// built-in actions are refused, registered or not, and so is any other name
/// that is not registered.
pub proof fn a_name_stands_for_the_registered_selector<M, G, R>(
    registries: Registries<M, G>,
    name: String,
)
    ensures
        name@ == "direct"@ || name@ == "block"@ ==> named_selector::<M, G, R>(registries, name)
            == Err::<RouteAction<G>, _>(RouteTableBuildError::<R>::ReservedRouteSelectorName(name)),
        name@ != "direct"@ && name@ != "block"@ && registries.conn_selector@.contains_key(name@)
            ==> named_selector::<M, G, R>(registries, name) == Ok::<RouteAction<G>, RouteTableBuildError<R>>(
            RouteAction::RouteSelector(registries.conn_selector@[name@]),
        ),
        name@ != "direct"@ && name@ != "block"@ && !registries.conn_selector@.contains_key(name@)
            ==> named_selector::<M, G, R>(registries, name) == Err::<RouteAction<G>, _>(
            RouteTableBuildError::<R>::RouteSelectorKeyNotFound(name),
        ),
{
}

/// A table that could be put together has an entry for each configured one, in
/// order. A shared matcher is the one registered under its key, and keeps the
/// key as its name; one that is configured in place has no name. An action is
/// the one that was asked for.
pub proof fn a_built_table_is_as_configured<
    M,
    G,
    R,
    F,
    P: Fn(&WeightedConnChain) -> F,
    Q: Fn(R) -> Result<G, R>,
>(
    builder: RouteTableBuilder<M, R>,
    registries: Registries<M, G>,
    make_probe: P,
    gate_of: Q,
    before: Seq<F>,
    after: Seq<F>,
    table: RouteTable<M, G>,
    i: int,
)
    requires
        builder.builds_to(registries, make_probe, gate_of, before, after, Ok(table)),
        0 <= i < builder.entries@.len(),
    ensures
        table.entries@.len() == builder.entries@.len(),
        table.unmatched is Block,
        match builder.entries@[i].matcher {
            SharableConfig::SharingKey(key) => {
                &&& registries.matcher@.contains_key(key@)
                &&& table.entries@[i].matcher == registries.matcher@[key@]
                &&& table.entries@[i].matcher_name == Some(key)
            },
            SharableConfig::Private(matcher) => {
                &&& table.entries@[i].matcher == matcher
                &&& table.entries@[i].matcher_name is None
            },
        },
        match builder.entries@[i].action {
            RouteActionBuilder::Tagged(RouteActionTagBuilder::Direct) =>
                table.entries@[i].action is Direct,
            RouteActionBuilder::Tagged(RouteActionTagBuilder::Block) =>
                table.entries@[i].action is Block,
            RouteActionBuilder::RouteSelector(RouteActionSelector::Named { conn_selector: name })
            | RouteActionBuilder::RouteSelector(
                RouteActionSelector::Sharable(SharableConfig::SharingKey(name)),
            ) => {
                &&& name@ != "direct"@ && name@ != "block"@
                &&& registries.conn_selector@.contains_key(name@)
                &&& table.entries@[i].action == RouteAction::RouteSelector(
                    registries.conn_selector@[name@],
                )
            },
            RouteActionBuilder::RouteSelector(
                RouteActionSelector::Sharable(SharableConfig::Private(configured)),
            ) => {
                &&& table.entries@[i].action is RouteSelector
                &&& exists|from: Seq<F>, to: Seq<F>| #[trigger]
                    configured.builds_to(
                        registries.conn,
                        make_probe,
                        gate_of,
                        from,
                        to,
                        Ok(*table.entries@[i].action->RouteSelector_0),
                    )
            },
        },
{
    let collected = choose|collected: Seq<Seq<F>>|
        {
            &&& #[trigger] entries_build(
                builder.entries@,
                registries,
                make_probe,
                gate_of,
                collected,
                table.entries@,
            )
            &&& collected[0] == before
            &&& collected.last() == after
        };
    assert(builder.entries@[i].builds_to(
        registries,
        make_probe,
        gate_of,
        collected[i],
        collected[i + 1],
        Ok(table.entries@[i]),
    ));
    if let RouteActionBuilder::RouteSelector(
        RouteActionSelector::Sharable(SharableConfig::Private(configured)),
    ) = builder.entries@[i].action {
        assert(configured.builds_to(
            registries.conn,
            make_probe,
            gate_of,
            collected[i],
            collected[i + 1],
            Ok(*table.entries@[i].action->RouteSelector_0),
        ));
    }
}

/// A table that could not be put together has an entry that could not: its
/// matcher is not known, or the selector it names is not known or is a built-in
/// word, and the error names it; or its own selector could not be made. It is
/// the first such entry, and its matcher is looked up first.
pub proof fn a_table_fails_for_one_of_its_entries<
    M,
    G,
    R,
    F,
    P: Fn(&WeightedConnChain) -> F,
    Q: Fn(R) -> Result<G, R>,
>(
    builder: RouteTableBuilder<M, R>,
    registries: Registries<M, G>,
    make_probe: P,
    gate_of: Q,
    before: Seq<F>,
    after: Seq<F>,
    e: RouteTableBuildError<R>,
)
    requires
        builder.builds_to::<G, F, P, Q>(registries, make_probe, gate_of, before, after, Err(e)),
    ensures
        exists|i: int|
            {
                &&& 0 <= i < builder.entries@.len()
                &&& match e {
                    RouteTableBuildError::MatcherKeyNotFound(key) => {
                        &&& (#[trigger] builder.entries@[i]).matcher == SharableConfig::<
                            Arc<M>,
                        >::SharingKey(key)
                        &&& !registries.matcher@.contains_key(key@)
                    },
                    RouteTableBuildError::ReservedRouteSelectorName(name) => {
                        &&& name@ == "direct"@ || name@ == "block"@
                        &&& action_names(builder.entries@[i].action, name)
                    },
                    RouteTableBuildError::RouteSelectorKeyNotFound(name) => {
                        &&& name@ != "direct"@ && name@ != "block"@
                        &&& !registries.conn_selector@.contains_key(name@)
                        &&& action_names(builder.entries@[i].action, name)
                    },
                    RouteTableBuildError::RouteSelector(_) => !(builder.entries@[i].action is Tagged),
                }
                &&& forall|j: int|
                    0 <= j < i || (j == i && !(e is MatcherKeyNotFound)) ==> ((
                    #[trigger] builder.entries@[j]).matcher matches SharableConfig::SharingKey(key)
                        ==> registries.matcher@.contains_key(key@))
                &&& forall|j: int, name: String|
                    0 <= j < i && #[trigger] action_names(builder.entries@[j].action, name)
                        ==> registries.conn_selector@.contains_key(name@) && name@ != "direct"@
                        && name@ != "block"@
            },
{
    let (collected, built) = choose|collected: Seq<Seq<F>>, built: Seq<RouteTableEntry<M, G>>|
        {
            &&& #[trigger] entries_build(
                builder.entries@,
                registries,
                make_probe,
                gate_of,
                collected,
                built,
            )
            &&& collected[0] == before
            &&& built.len() < builder.entries@.len()
            &&& builder.entries@[built.len() as int].builds_to::<G, F, P, Q>(
                registries,
                make_probe,
                gate_of,
                collected.last(),
                after,
                Err(e),
            )
        };
    let i = built.len() as int;
    assert(0 <= i < builder.entries@.len());
    assert forall|j: int| 0 <= j < i || (j == i && !(e is MatcherKeyNotFound)) implies ((
    #[trigger] builder.entries@[j]).matcher matches SharableConfig::SharingKey(key)
        ==> registries.matcher@.contains_key(key@)) by {
        if j < i {
            assert(builder.entries@[j].builds_to(
                registries,
                make_probe,
                gate_of,
                collected[j],
                collected[j + 1],
                Ok(built[j]),
            ));
        }
    }
    assert forall|j: int, name: String|
        0 <= j < i && #[trigger] action_names(
            builder.entries@[j].action,
            name,
        ) implies registries.conn_selector@.contains_key(name@) && name@ != "direct"@ && name@
        != "block"@ by {
        assert(builder.entries@[j].builds_to(
            registries,
            make_probe,
            gate_of,
            collected[j],
            collected[j + 1],
            Ok(built[j]),
        ));
    }
}

/// Whether an action is configured by the name of a selector.
pub open spec fn action_names<R>(action: RouteActionBuilder<R>, name: String) -> bool {
    match action {
        RouteActionBuilder::RouteSelector(RouteActionSelector::Named { conn_selector }) =>
            conn_selector == name,
        RouteActionBuilder::RouteSelector(
            RouteActionSelector::Sharable(SharableConfig::SharingKey(key)),
        ) => key == name,
        _ => false,
    }
}

} // verus!
