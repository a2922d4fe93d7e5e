//! Which group traffic takes, by where it is headed.
//!
//! What a matcher looks at is left to the caller, who passes the function that
//! asks one.

use std::sync::Arc;

use vstd::prelude::*;
use crate::addr::InternetAddr;
use crate::key_map::KeyMap;
use crate::proxy_table::proxy_group::{
    ProxyGroup, ProxyGroupBuildError, ProxyGroupBuilder, WeightedProxyChain,
};
use crate::route::conn_chain::SharableConfig;

verus! {

/// What is done with traffic.
#[derive(Debug)]
pub enum ProxyAction<A> {
    Direct,
    Block,
    ProxyGroup(Arc<ProxyGroup<A>>),
}

/// What is done with traffic that a matcher lets through.
#[derive(Debug)]
pub struct ProxyTableEntry<M, A> {
    pub matcher: Arc<M>,
    pub action: ProxyAction<A>,
}

impl<M, A> ProxyTableEntry<M, A> {
    pub fn new(matcher: Arc<M>, action: ProxyAction<A>) -> (r: Self)
        ensures
            r == (ProxyTableEntry { matcher, action }),
    {
        ProxyTableEntry { matcher, action }
    }

    pub fn matcher(&self) -> (r: &M)
        ensures
            *r == *self.matcher,
    {
        &self.matcher
    }

    pub fn action(&self) -> (r: &ProxyAction<A>)
        ensures
            *r == self.action,
    {
        &self.action
    }
}

/// Entries, the first that matches wins; what none matches is blocked.
#[derive(Debug)]
pub struct ProxyTable<M, A> {
    pub entries: Vec<ProxyTableEntry<M, A>>,
    pub unmatched: ProxyAction<A>,
}

/// Whether a matcher may answer so.
pub open spec fn answers<M, F: Fn(&M, &InternetAddr) -> bool>(
    matches: F,
    matcher: M,
    addr: InternetAddr,
    hit: bool,
) -> bool {
    call_ensures(matches, (&matcher, &addr), hit)
}

/// Whether all entries before the `n`th may turn the address down.
pub open spec fn turned_down<M, A, F: Fn(&M, &InternetAddr) -> bool>(
    matches: F,
    entries: Seq<ProxyTableEntry<M, A>>,
    addr: InternetAddr,
    n: int,
) -> bool {
    forall|j: int| 0 <= j < n ==> answers(matches, *(#[trigger] entries[j]).matcher, addr, false)
}

/// Whether `found` may be the first entry that matches the address, if one
/// does.
pub open spec fn first_match<M, A, F: Fn(&M, &InternetAddr) -> bool>(
    matches: F,
    entries: Seq<ProxyTableEntry<M, A>>,
    addr: InternetAddr,
    found: Option<int>,
) -> bool {
    match found {
        Some(i) => {
            &&& 0 <= i < entries.len()
            &&& answers(matches, *entries[i].matcher, addr, true)
            &&& turned_down(matches, entries, addr, i)
        },
        None => turned_down(matches, entries, addr, entries.len() as int),
    }
}

impl<M, A> ProxyTable<M, A> {
    pub open spec fn wf(self) -> bool {
        self.unmatched is Block
    }

    pub fn new(entries: Vec<ProxyTableEntry<M, A>>) -> (r: Self)
        ensures
            r.wf(),
            r.entries == entries,
    {
        ProxyTable { entries, unmatched: ProxyAction::Block }
    }

    /// What is done with traffic for the address: the action of the first
    /// entry that matches. `matches` asks a matcher.
    pub fn action<F: Fn(&M, &InternetAddr) -> bool>(&self, addr: &InternetAddr, matches: &F) -> (r:
        &ProxyAction<A>)
        requires
            self.wf(),
            forall|m: &M, a: &InternetAddr| call_requires(*matches, (m, a)),
        ensures
            exists|found: Option<int>| #[trigger]
                first_match(*matches, self.entries@, *addr, found) && match found {
                    Some(i) => *r == self.entries@[i].action,
                    None => *r is Block,
                },
    {
        let mut i: usize = 0;
        while i < self.entries.len()
            invariant
                i <= self.entries@.len(),
                forall|m: &M, a: &InternetAddr| call_requires(*matches, (m, a)),
                self.wf(),
                turned_down(*matches, self.entries@, *addr, i as int),
            decreases self.entries@.len() - i,
        {
            let entry = &self.entries[i];
            if matches(entry.matcher(), addr) {
                assert(first_match(*matches, self.entries@, *addr, Some(i as int)));
                return entry.action();
            }
            i += 1;
        }
        assert(first_match(*matches, self.entries@, *addr, None));
        &self.unmatched
    }
}

/// The actions that are configured by a word.
#[derive(Debug, Clone, Copy, PartialEq, Eq, Structural)]
pub enum ProxyActionTagBuilder {
    Direct,
    Block,
}

/// An action as it is configured.
#[derive(Debug)]
pub enum ProxyActionBuilder<B> {
    Tagged(ProxyActionTagBuilder),
    ProxyGroup(SharableConfig<ProxyGroupBuilder<B>>),
}

/// Why a table could not be put together. `E` says what is wrong with a chain,
/// and `ME` what is wrong with a matcher.
#[derive(Debug)]
pub enum ProxyTableBuildError<E, ME> {
    ProxyGroupKeyNotFound(String),
    Matcher(ME),
    ProxyGroup(ProxyGroupBuildError<E>),
}

impl<B> ProxyActionBuilder<B> {
    /// The number of active chains of a group that is configured in place is
    /// not zero, and the weights of its chains can be added up.
    pub open spec fn wf<A, E, F: Fn(B) -> Result<WeightedProxyChain<A>, E>>(
        self,
        build_chain: F,
    ) -> bool {
        match self {
            ProxyActionBuilder::ProxyGroup(SharableConfig::Private(builder)) => {
                &&& builder.active_chains matches Some(active) ==> active > 0
                &&& forall|chains: Seq<WeightedProxyChain<A>>| #[trigger]
                    crate::proxy_table::proxy_group::chains_build_to(
                        build_chain,
                        builder.chains@,
                        Ok(chains),
                    ) ==> crate::proxy_table::proxy_group::group_weight(chains) <= usize::MAX
            },
            _ => true,
        }
    }

    /// Whether making the action may end in `r`.
    pub open spec fn builds_to<A, E, ME, F: Fn(B) -> Result<WeightedProxyChain<A>, E>>(
        self,
        proxy_group: KeyMap<String, Arc<ProxyGroup<A>>>,
        build_chain: F,
        r: Result<ProxyAction<A>, ProxyTableBuildError<E, ME>>,
    ) -> bool {
        match self {
            ProxyActionBuilder::Tagged(ProxyActionTagBuilder::Direct) => r == Ok::<
                ProxyAction<A>,
                ProxyTableBuildError<E, ME>,
            >(ProxyAction::Direct),
            ProxyActionBuilder::Tagged(ProxyActionTagBuilder::Block) => r == Ok::<
                ProxyAction<A>,
                ProxyTableBuildError<E, ME>,
            >(ProxyAction::Block),
            ProxyActionBuilder::ProxyGroup(SharableConfig::SharingKey(key)) => r == (
            if proxy_group@.dom().contains(key@) {
                Ok::<ProxyAction<A>, ProxyTableBuildError<E, ME>>(
                    ProxyAction::ProxyGroup(proxy_group@[key@]),
                )
            } else {
                Err(ProxyTableBuildError::ProxyGroupKeyNotFound(key))
            }),
            ProxyActionBuilder::ProxyGroup(SharableConfig::Private(builder)) => match r {
                Ok(ProxyAction::ProxyGroup(group)) => builder.builds_to(build_chain, Ok(*group)),
                Err(ProxyTableBuildError::ProxyGroup(e)) => builder.builds_to(build_chain, Err(e)),
                _ => false,
            },
        }
    }

    /// Looks up a group that is configured by name, or makes one that is
    /// configured in place.
    pub fn build<A, E, ME, F: Fn(B) -> Result<WeightedProxyChain<A>, E>>(
        self,
        proxy_group: &KeyMap<String, Arc<ProxyGroup<A>>>,
        build_chain: &F,
    ) -> (r: Result<ProxyAction<A>, ProxyTableBuildError<E, ME>>)
        requires
            proxy_group.wf(),
            self.wf(*build_chain),
            forall|b: B| call_requires(*build_chain, (b,)),
        ensures
            self.builds_to(*proxy_group, *build_chain, r),
    {
        match self {
            ProxyActionBuilder::Tagged(ProxyActionTagBuilder::Direct) => Ok(ProxyAction::Direct),
            ProxyActionBuilder::Tagged(ProxyActionTagBuilder::Block) => Ok(ProxyAction::Block),
            ProxyActionBuilder::ProxyGroup(SharableConfig::SharingKey(key)) => {
                match proxy_group.get(&key) {
                    Some(group) => Ok(ProxyAction::ProxyGroup(group.clone())),
                    None => Err(ProxyTableBuildError::ProxyGroupKeyNotFound(key)),
                }
            },
            ProxyActionBuilder::ProxyGroup(SharableConfig::Private(builder)) => {
                match builder.build(build_chain) {
                    Ok(group) => Ok(ProxyAction::ProxyGroup(Arc::new(group))),
                    Err(e) => Err(ProxyTableBuildError::ProxyGroup(e)),
                }
            },
        }
    }
}

/// What a configuration refers to by name.
#[derive(Debug)]
pub struct ProxyTableBuildContext<M, A> {
    pub matcher: KeyMap<String, Arc<M>>,
    pub proxy_group: KeyMap<String, Arc<ProxyGroup<A>>>,
}

impl<M, A> ProxyTableBuildContext<M, A> {
    pub open spec fn wf(self) -> bool {
        self.matcher.wf() && self.proxy_group.wf()
    }
}

/// An entry as it is configured. `MB` is what a matcher is configured as.
#[derive(Debug)]
pub struct ProxyTableEntryBuilder<MB, B> {
    pub matcher: SharableConfig<MB>,
    pub action: ProxyActionBuilder<B>,
}

impl<MB, B> ProxyTableEntryBuilder<MB, B> {
    /// Whether looking up the matcher, or making one that is configured in
    /// place, may end in `r`.
    pub open spec fn matcher_builds_to<M, A, E, ME, K: Fn(MB) -> Result<Arc<M>, ME>>(
        self,
        cx: ProxyTableBuildContext<M, A>,
        build_matcher: K,
        r: Result<Arc<M>, ProxyTableBuildError<E, ME>>,
    ) -> bool {
        match self.matcher {
            SharableConfig::SharingKey(key) => r == (if cx.matcher@.dom().contains(key@) {
                Ok::<Arc<M>, ProxyTableBuildError<E, ME>>(cx.matcher@[key@])
            } else {
                Err(ProxyTableBuildError::ProxyGroupKeyNotFound(key))
            }),
            SharableConfig::Private(configured) => match r {
                Ok(matcher) => call_ensures(build_matcher, (configured,), Ok(matcher)),
                Err(ProxyTableBuildError::Matcher(e)) => call_ensures(
                    build_matcher,
                    (configured,),
                    Err(e),
                ),
                Err(_) => false,
            },
        }
    }

    /// Whether making the entry may end in `r`: an error of the matcher comes
    /// first, then one of the action.
    pub open spec fn builds_to<
        M,
        A,
        E,
        ME,
        K: Fn(MB) -> Result<Arc<M>, ME>,
        F: Fn(B) -> Result<WeightedProxyChain<A>, E>,
    >(
        self,
        cx: ProxyTableBuildContext<M, A>,
        build_matcher: K,
        build_chain: F,
        r: Result<ProxyTableEntry<M, A>, ProxyTableBuildError<E, ME>>,
    ) -> bool {
        match r {
            Ok(entry) => {
                &&& self.matcher_builds_to::<M, A, E, ME, K>(cx, build_matcher, Ok(entry.matcher))
                &&& self.action.builds_to::<A, E, ME, F>(
                    cx.proxy_group,
                    build_chain,
                    Ok(entry.action),
                )
            },
            Err(e) => {
                ||| self.matcher_builds_to(cx, build_matcher, Err(e))
                ||| {
                    &&& matcher_builds::<MB, B, M, A, E, ME, K>(self, cx, build_matcher)
                    &&& self.action.builds_to(cx.proxy_group, build_chain, Err(e))
                }
            },
        }
    }

    /// Looks up the matcher, or makes the one that is configured in place, and
    /// makes the action.
    pub fn build<
        M,
        A,
        E,
        ME,
        K: Fn(MB) -> Result<Arc<M>, ME>,
        F: Fn(B) -> Result<WeightedProxyChain<A>, E>,
    >(
        self,
        cx: &ProxyTableBuildContext<M, A>,
        build_matcher: &K,
        build_chain: &F,
    ) -> (r: Result<ProxyTableEntry<M, A>, ProxyTableBuildError<E, ME>>)
        requires
            cx.wf(),
            self.action.wf(*build_chain),
            forall|m: MB| call_requires(*build_matcher, (m,)),
            forall|b: B| call_requires(*build_chain, (b,)),
        ensures
            self.builds_to(*cx, *build_matcher, *build_chain, r),
    {
        let matcher = match self.matcher {
            SharableConfig::SharingKey(key) => match cx.matcher.get(&key) {
                Some(matcher) => matcher.clone(),
                None => {
                    return Err(ProxyTableBuildError::ProxyGroupKeyNotFound(key));
                },
            },
            SharableConfig::Private(configured) => match build_matcher(configured) {
                Ok(matcher) => matcher,
                Err(e) => {
                    return Err(ProxyTableBuildError::Matcher(e));
                },
            },
        };
        assert(self.matcher_builds_to::<M, A, E, ME, K>(*cx, *build_matcher, Ok(matcher)));
        match self.action.build(&cx.proxy_group, build_chain) {
            Ok(action) => Ok(ProxyTableEntry::new(matcher, action)),
            Err(e) => Err(e),
        }
    }
}

/// Whether an entry may have its matcher.
pub open spec fn matcher_builds<MB, B, M, A, E, ME, K: Fn(MB) -> Result<Arc<M>, ME>>(
    configured: ProxyTableEntryBuilder<MB, B>,
    cx: ProxyTableBuildContext<M, A>,
    build_matcher: K,
) -> bool {
    exists|matcher: Arc<M>| #[trigger]
        configured.matcher_builds_to::<M, A, E, ME, K>(cx, build_matcher, Ok(matcher))
}

/// A table as it is configured.
#[derive(Debug)]
pub struct ProxyTableBuilder<MB, B> {
    pub entries: Vec<ProxyTableEntryBuilder<MB, B>>,
}

/// Whether an entry may be made.
pub open spec fn entry_builds<
    MB,
    B,
    M,
    A,
    E,
    ME,
    K: Fn(MB) -> Result<Arc<M>, ME>,
    F: Fn(B) -> Result<WeightedProxyChain<A>, E>,
>(
    configured: ProxyTableEntryBuilder<MB, B>,
    cx: ProxyTableBuildContext<M, A>,
    build_matcher: K,
    build_chain: F,
) -> bool {
    exists|entry: ProxyTableEntry<M, A>| #[trigger]
        configured.builds_to(cx, build_matcher, build_chain, Ok(entry))
}

impl<MB, B> ProxyTableBuilder<MB, B> {
    /// Makes the entries in order; the first error ends it.
    pub fn build<
        M,
        A,
        E,
        ME,
        K: Fn(MB) -> Result<Arc<M>, ME>,
        F: Fn(B) -> Result<WeightedProxyChain<A>, E>,
    >(
        self,
        cx: &ProxyTableBuildContext<M, A>,
        build_matcher: &K,
        build_chain: &F,
    ) -> (r: Result<ProxyTable<M, A>, ProxyTableBuildError<E, ME>>)
        requires
            cx.wf(),
            forall|i: int|
                0 <= i < self.entries@.len() ==> (#[trigger] self.entries@[i]).action.wf(
                    *build_chain,
                ),
            forall|m: MB| call_requires(*build_matcher, (m,)),
            forall|b: B| call_requires(*build_chain, (b,)),
        ensures
            match r {
                Ok(table) => {
                    &&& table.wf()
                    &&& table.entries@.len() == self.entries@.len()
                    &&& forall|i: int|
                        0 <= i < self.entries@.len() ==> (#[trigger] self.entries@[i]).builds_to(
                            *cx,
                            *build_matcher,
                            *build_chain,
                            Ok(table.entries@[i]),
                        )
                },
                Err(e) => exists|i: int|
                    0 <= i < self.entries@.len() && (#[trigger] self.entries@[i]).builds_to(
                        *cx,
                        *build_matcher,
                        *build_chain,
                        Err(e),
                    ) && forall|j: int|
                        0 <= j < i ==> entry_builds(
                            #[trigger] self.entries@[j],
                            *cx,
                            *build_matcher,
                            *build_chain,
                        ),
            },
    {
        let ghost configured = self.entries@;
        let mut rest: Vec<ProxyTableEntryBuilder<MB, B>> = self.entries;
        let mut built: Vec<ProxyTableEntry<M, A>> = Vec::new();
        while rest.len() > 0
            invariant
                cx.wf(),
                configured == self.entries@,
                forall|i: int|
                    0 <= i < configured.len() ==> (#[trigger] configured[i]).action.wf(
                        *build_chain,
                    ),
                forall|m: MB| call_requires(*build_matcher, (m,)),
                forall|b: B| call_requires(*build_chain, (b,)),
                built@.len() + rest@.len() == configured.len(),
                rest@ == configured.skip(built@.len() as int),
                forall|i: int|
                    0 <= i < built@.len() ==> (#[trigger] configured[i]).builds_to(
                        *cx,
                        *build_matcher,
                        *build_chain,
                        Ok(built@[i]),
                    ),
                forall|i: int|
                    0 <= i < built@.len() ==> entry_builds(
                        #[trigger] configured[i],
                        *cx,
                        *build_matcher,
                        *build_chain,
                    ),
            decreases rest@.len(),
        {
            let ghost i = built@.len() as int;
            let entry = rest.remove(0);
            assert(entry == configured[i]);
            assert(rest@ =~= configured.skip(i + 1));
            match entry.build(cx, build_matcher, build_chain) {
                Ok(entry) => {
                    assert(configured[i].builds_to(*cx, *build_matcher, *build_chain, Ok(entry)));
                    built.push(entry);
                },
                Err(e) => {
                    assert(configured[i].builds_to(*cx, *build_matcher, *build_chain, Err(e)));
                    return Err(e);
                },
            }
        }
        Ok(ProxyTable::new(built))
    }
}

/// The entry that is found said yes, and every entry before it said no; if none
/// is found, all said no.
pub proof fn the_found_entry_is_the_first_that_says_yes<
    M,
    A,
    F: Fn(&M, &InternetAddr) -> bool,
>(
    matches: F,
    entries: Seq<ProxyTableEntry<M, A>>,
    addr: InternetAddr,
    found: Option<int>,
    j: int,
)
    requires
        first_match(matches, entries, addr, found),
        0 <= j < entries.len(),
    ensures
        found matches Some(i) ==> {
            &&& 0 <= i < entries.len()
            &&& call_ensures(matches, (&*entries[i].matcher, &addr), true)
            &&& j < i ==> call_ensures(matches, (&*entries[j].matcher, &addr), false)
        },
        found is None ==> call_ensures(matches, (&*entries[j].matcher, &addr), false),
{
    if found is None || j < found->0 {
        assert(answers(matches, *entries[j].matcher, addr, false));
    }
}

/// With matchers that answer one way, an entry that says yes is found unless an
/// earlier one does, and if none says yes none is found.
pub proof fn the_first_entry_that_says_yes_is_found<M, A, F: Fn(&M, &InternetAddr) -> bool>(
    matches: F,
    entries: Seq<ProxyTableEntry<M, A>>,
    addr: InternetAddr,
    says_yes: Seq<bool>,
    found: Option<int>,
)
    requires
        says_yes.len() == entries.len(),
        forall|i: int, hit: bool|
            0 <= i < entries.len() && #[trigger] call_ensures(
                matches,
                (&*entries[i].matcher, &addr),
                hit,
            ) ==> hit == says_yes[i],
        first_match(matches, entries, addr, found),
    ensures
        match found {
            Some(k) => 0 <= k < says_yes.len() && says_yes[k] && forall|j: int|
                0 <= j < k ==> !(#[trigger] says_yes[j]),
            None => forall|j: int| 0 <= j < says_yes.len() ==> !(#[trigger] says_yes[j]),
        },
{
    let n = match found {
        Some(k) => k,
        None => entries.len() as int,
    };
    assert forall|j: int| 0 <= j < n implies !(#[trigger] says_yes[j]) by {
        the_found_entry_is_the_first_that_says_yes(matches, entries, addr, found, j);
    }
}

/// An entry that could be made has the matcher and the action that it was
/// configured with: those registered under their keys, or those made in place.
pub proof fn a_built_entry_is_as_configured<
    MB,
    B,
    M,
    A,
    E,
    ME,
    K: Fn(MB) -> Result<Arc<M>, ME>,
    F: Fn(B) -> Result<WeightedProxyChain<A>, E>,
>(
    builder: ProxyTableEntryBuilder<MB, B>,
    cx: ProxyTableBuildContext<M, A>,
    build_matcher: K,
    build_chain: F,
    entry: ProxyTableEntry<M, A>,
)
    requires
        builder.builds_to::<M, A, E, ME, K, F>(cx, build_matcher, build_chain, Ok(entry)),
    ensures
        match builder.matcher {
            SharableConfig::SharingKey(key) => cx.matcher@.contains_key(key@) && entry.matcher
                == cx.matcher@[key@],
            SharableConfig::Private(configured) => call_ensures(
                build_matcher,
                (configured,),
                Ok(entry.matcher),
            ),
        },
        match builder.action {
            ProxyActionBuilder::Tagged(ProxyActionTagBuilder::Direct) => entry.action is Direct,
            ProxyActionBuilder::Tagged(ProxyActionTagBuilder::Block) => entry.action is Block,
            ProxyActionBuilder::ProxyGroup(SharableConfig::SharingKey(key)) =>
                cx.proxy_group@.contains_key(key@) && entry.action == ProxyAction::ProxyGroup(
                    cx.proxy_group@[key@],
                ),
            ProxyActionBuilder::ProxyGroup(SharableConfig::Private(configured)) =>
                entry.action matches ProxyAction::ProxyGroup(group) && configured.builds_to(
                    build_chain,
                    Ok(*group),
                ),
        },
{
}

/// An entry cannot be made only if a key of it is not known, which the error
/// names, or if its matcher or its group could not be made.
pub proof fn an_entry_fails_for_a_reason<
    MB,
    B,
    M,
    A,
    E,
    ME,
    K: Fn(MB) -> Result<Arc<M>, ME>,
    F: Fn(B) -> Result<WeightedProxyChain<A>, E>,
>(
    builder: ProxyTableEntryBuilder<MB, B>,
    cx: ProxyTableBuildContext<M, A>,
    build_matcher: K,
    build_chain: F,
    e: ProxyTableBuildError<E, ME>,
)
    requires
        builder.builds_to::<M, A, E, ME, K, F>(cx, build_matcher, build_chain, Err(e)),
    ensures
        match e {
            ProxyTableBuildError::ProxyGroupKeyNotFound(key) => {
                ||| builder.matcher == SharableConfig::<MB>::SharingKey(key)
                    && !cx.matcher@.contains_key(key@)
                ||| builder.action == ProxyActionBuilder::<B>::ProxyGroup(
                    SharableConfig::SharingKey(key),
                ) && !cx.proxy_group@.contains_key(key@)
            },
            ProxyTableBuildError::Matcher(error) =>
                builder.matcher matches SharableConfig::Private(configured) && call_ensures(
                    build_matcher,
                    (configured,),
                    Err(error),
                ),
            ProxyTableBuildError::ProxyGroup(error) =>
                builder.action matches ProxyActionBuilder::ProxyGroup(
                    SharableConfig::Private(configured),
                ) && configured.builds_to(build_chain, Err::<ProxyGroup<A>, _>(error)),
        },
        e is ProxyGroup ==> (builder.matcher matches SharableConfig::SharingKey(key)
            ==> cx.matcher@.contains_key(key@)),
        builder.matcher matches SharableConfig::SharingKey(key) ==> (!cx.matcher@.contains_key(key@)
            ==> e == ProxyTableBuildError::<E, ME>::ProxyGroupKeyNotFound(key)),
{
}

/// An entry that may be made refers to nothing that is not known.
pub proof fn an_entry_is_made_only_of_what_is_known<
    MB,
    B,
    M,
    A,
    E,
    ME,
    K: Fn(MB) -> Result<Arc<M>, ME>,
    F: Fn(B) -> Result<WeightedProxyChain<A>, E>,
>(
    builder: ProxyTableEntryBuilder<MB, B>,
    cx: ProxyTableBuildContext<M, A>,
    build_matcher: K,
    build_chain: F,
)
    ensures
        matcher_builds::<MB, B, M, A, E, ME, K>(builder, cx, build_matcher) ==> (
        builder.matcher matches SharableConfig::SharingKey(key) ==> cx.matcher@.contains_key(key@)),
        entry_builds::<MB, B, M, A, E, ME, K, F>(builder, cx, build_matcher, build_chain) ==> {
            &&& builder.matcher matches SharableConfig::SharingKey(key) ==> cx.matcher@.contains_key(
                key@,
            )
            &&& builder.action matches ProxyActionBuilder::ProxyGroup(
                SharableConfig::SharingKey(key),
            ) ==> cx.proxy_group@.contains_key(key@)
        },
{
}

} // verus!
