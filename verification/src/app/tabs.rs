//! The tab registry: an ordered arena of tabs addressed by stable keys.
use std::collections::BTreeMap;
use std::marker::PhantomData;
use vstd::prelude::*;
use vstd::relations::injective_on;
use vstd::std_specs::cmp::OrdSpec;
use vstd::std_specs::iter::IteratorSpec;
use vstd::set_lib::{lemma_int_range, lemma_len_subset, lemma_map_size, set_int_range};

verus! {

/// Identifies one tab of the registry.
#[derive(Clone, Copy, Debug, PartialEq, Eq, Structural, Hash, PartialOrd, Ord)]
pub struct TabKey(pub usize);

/// The counter value reached from `start` after `steps` increments, wrapping
/// past `usize::MAX` to zero.
pub open spec fn advance(start: usize, steps: int) -> int {
    if start + steps <= usize::MAX {
        start + steps
    } else {
        start + steps - usize::MAX - 1
    }
}

/// `key` is the first key after the counter value `start`, in counting order
/// with wrap-around, that is not in `live`.
pub open spec fn first_free_after(start: usize, live: Set<TabKey>, key: TabKey) -> bool {
    exists|n: int|
        {
            &&& 1 <= n <= usize::MAX + 1
            &&& key.0 == advance(start, n)
            &&& !live.contains(key)
            &&& forall|i: int| 1 <= i < n ==> live.contains(TabKey(#[trigger] advance(start, i) as usize))
        }
}

/// While the counter has not reached `usize::MAX` and the key after it is
/// free, that key is the next one.
pub proof fn lemma_next_key_when_free(start: usize, live: Set<TabKey>, key: TabKey)
    requires
        first_free_after(start, live, key),
        start < usize::MAX,
        !live.contains(TabKey((start + 1) as usize)),
    ensures
        key.0 == start + 1,
{
    let n = choose|n: int|
        {
            &&& 1 <= n <= usize::MAX + 1
            &&& key.0 == advance(start, n)
            &&& !live.contains(key)
            &&& forall|i: int| 1 <= i < n ==> live.contains(TabKey(#[trigger] advance(start, i) as usize))
        };
    if n > 1 {
        assert(live.contains(TabKey(advance(start, 1) as usize)));
    }
}

/// Counting `n` steps on from `start` visits `n` different keys, so a finite
/// set that holds them all has at least `n` members.
proof fn lemma_visited_keys_fit(start: usize, n: int, live: Set<usize>)
    requires
        live.finite(),
        0 <= n <= usize::MAX + 1,
        forall|i: int| 1 <= i <= n ==> live.contains(#[trigger] advance(start, i) as usize),
    ensures
        n <= live.len(),
{
    let steps = set_int_range(1, n + 1);
    let visit = |i: int| advance(start, i) as usize;
    let visited = steps.map(visit);
    lemma_int_range(1, n + 1);
    assert(injective_on(visit, steps));
    lemma_map_size(steps, visited, visit);
    assert(visited.subset_of(live)) by {
        assert forall|k: usize| visited.contains(k) implies live.contains(k) by {
            let i = choose|i: int| steps.contains(i) && k == visit(i);
            assert(live.contains(advance(start, i) as usize));
        }
    }
    lemma_len_subset(visited, live);
}

/// A map that exists in memory has at most `usize::MAX` entries.
proof fn lemma_map_len_fits<V>(m: &BTreeMap<usize, V>)
    ensures
        m@.dom().finite(),
        m@.len() <= usize::MAX,
{
    let len = vstd::std_specs::btree::spec_btree_map_len(m);
    assert(len == m@.len());
}

/// `a` stands before `b` in the order of `K`.
spec fn orders_before<K: Ord>(a: K, b: K) -> bool {
    a.cmp_spec(&b) is Less
}

/// The keys of a map come out of its key iterator in ascending order, each
/// key once.
proof fn lemma_keys_ascend<V>(m: &BTreeMap<usize, V>)
    ensures
        ({
            let s = vstd::std_specs::btree::spec_keys_iter(m).remaining();
            &&& s.unref().to_set() == m@.dom()
            &&& forall|i: int, j: int| 0 <= i < j < s.len() ==> *s[i] < *s[j]
        }),
{
    broadcast use vstd::std_specs::btree::group_btree_axioms;
    broadcast use vstd::laws_cmp::group_laws_cmp;
    broadcast use vstd::laws_eq::group_laws_eq;

    let s = vstd::std_specs::btree::spec_keys_iter(m).remaining();
    reveal(vstd::laws_cmp::obeys_partial_cmp_spec_properties);
    reveal(vstd::laws_cmp::obeys_cmp_partial_ord);
    reveal(vstd::laws_cmp::obeys_cmp_ord);
    reveal(vstd::laws_eq::obeys_eq_spec_properties);
    assert(vstd::laws_cmp::obeys_cmp::<usize>());
    assert(vstd::laws_cmp::obeys_cmp::<&usize>());
    vstd::std_specs::btree::axiom_increasing_seq_meaning::<&usize>(s);
    assert(vstd::std_specs::btree::increasing_seq(s));
    assert forall|i: int, j: int| 0 <= i < j < s.len() implies *s[i] < *s[j] by {
        assert(orders_before::<&usize>(s[i], s[j]));
    }
}

/// `BTreeMap::get_mut`: a mutable reference to the value stored under `key`,
/// if there is one. Whatever is written through the reference is what the
/// map then holds under `key`; nothing else in the map changes.
#[verifier::external_body]
fn map_get_mut<V>(map: &mut BTreeMap<usize, V>, key: usize) -> (value: Option<&mut V>)
    ensures
        match value {
            Some(v) => old(map)@.contains_key(key) && *v == old(map)@[key] && final(map)@ == old(
                map,
            )@.insert(key, *final(v)),
            None => !old(map)@.contains_key(key) && final(map)@ == old(map)@,
        },
{
    map.get_mut(&key)
}

/// `BTreeMap::iter_mut`: a mutable reference to every value of the map, each
/// with its key, in ascending order of the keys. Whatever is written through
/// a reference is what the map then holds under that key.
#[verifier::external_body]
fn map_iter_mut<V>(map: &mut BTreeMap<usize, V>) -> (entries: Vec<(TabKey, &mut V)>)
    ensures
        final(map)@.dom() == old(map)@.dom(),
        forall|i: int, j: int| 0 <= i < j < entries@.len() ==> entries@[i].0.0 < entries@[j].0.0,
        forall|k: usize|
            old(map)@.contains_key(k) ==> exists|i: int|
                0 <= i < entries@.len() && (#[trigger] entries@[i]).0.0 == k,
        forall|i: int|
            0 <= i < entries@.len() ==> {
                let entry = #[trigger] entries@[i];
                &&& old(map)@.contains_key(entry.0.0)
                &&& *entry.1 == old(map)@[entry.0.0]
                &&& final(map)@[entry.0.0] == *final(entry.1)
            },
{
    map.iter_mut().map(|(key, value)| (TabKey(*key), value)).collect()
}

/// Whether `key` occurs in `tab_keys`.
fn key_is_among(tab_keys: &[TabKey], key: TabKey) -> (found: bool)
    ensures
        found == tab_keys@.contains(key),
{
    let mut i: usize = 0;
    while i < tab_keys.len()
        invariant
            i <= tab_keys.len(),
            forall|j: int| 0 <= j < i ==> tab_keys@[j] != key,
        decreases tab_keys.len() - i,
    {
        if tab_keys[i] == key {
            return true;
        }
        i = i + 1;
    }
    false
}

/// What a tab answers when the layout asks to close it.
#[derive(Clone, Copy, Debug, PartialEq, Eq, Structural)]
pub enum CloseOutcome {
    /// The tab may be closed.
    Close,
    /// The tab stays open.
    Keep,
}

/// The title of a tab.
#[derive(Debug)]
pub enum TabLabel {
    /// A fixed text.
    Text(String),
    /// The identifier of a message of the translation catalog.
    Message(String),
}

/// The title of a tab, as a value of specifications.
pub enum TabLabelView {
    Text(Seq<char>),
    Message(Seq<char>),
}

impl View for TabLabel {
    type V = TabLabelView;

    open spec fn view(&self) -> TabLabelView {
        match self {
            TabLabel::Text(text) => TabLabelView::Text(text@),
            TabLabel::Message(id) => TabLabelView::Message(id@),
        }
    }
}

/// What every kind of tab can do.
pub trait Tab: Sized {
    /// The state that a tab may read and change when it is closed.
    type Context;

    /// The title that `label` returns.
    spec fn title(&self) -> TabLabelView;

    /// Whether closing this tab under `tab_key` in `context` may leave the
    /// tab as `tab_after` and the context as `context_after`, with `outcome`.
    spec fn closes_to(
        &self,
        tab_key: TabKey,
        context: Self::Context,
        tab_after: Self,
        context_after: Self::Context,
        outcome: CloseOutcome,
    ) -> bool;

    /// The title of the tab.
    fn label(&self) -> (label: TabLabel)
        ensures
            label@ == self.title(),
    ;

    /// Handles a request to close the tab: performs the tab's clean-up and
    /// says whether the tab may be closed.
    fn on_close(&mut self, tab_key: &TabKey, context: &mut Self::Context) -> (outcome: CloseOutcome)
        ensures
            old(self).closes_to(*tab_key, *old(context), *final(self), *final(context), outcome),
    ;
}

/// An arena of tabs. Every tab is stored under a key that the registry
/// chooses when the tab is added.
pub struct Tabs<TabKind, Context> {
    next_id: usize,
    tabs: BTreeMap<usize, TabKind>,
    _phantom: PhantomData<Context>,
}

impl<TabKind, Context> View for Tabs<TabKind, Context> {
    type V = Map<TabKey, TabKind>;

    closed spec fn view(&self) -> Map<TabKey, TabKind> {
        Map::new(|k: TabKey| self.tabs@.contains_key(k.0), |k: TabKey| self.tabs@[k.0])
    }
}

/// One step in the life of a registry, as the contracts of `add`, `get_mut`,
/// `close` and `retain_all` describe it.
pub enum RegistryStep<TabKind> {
    /// `add` stored the tab under the key.
    Added(TabKey, TabKind),
    /// The tab was written through what `get_mut` returned for the key. A
    /// key that is not live gives nothing to write through.
    Written(TabKey, TabKind),
    /// `close` removed the tab under the key.
    Closed(TabKey),
    /// `retain_all` removed every tab whose key is not in the set.
    Reconciled(Set<TabKey>),
}

impl<TabKind> RegistryStep<TabKind> {
    /// The tabs of the registry after this step, if it held `tabs` before.
    pub open spec fn apply(self, tabs: Map<TabKey, TabKind>) -> Map<TabKey, TabKind> {
        match self {
            RegistryStep::Added(key, tab) => tabs.insert(key, tab),
            RegistryStep::Written(key, tab) => if tabs.contains_key(key) {
                tabs.insert(key, tab)
            } else {
                tabs
            },
            RegistryStep::Closed(key) => tabs.remove(key),
            RegistryStep::Reconciled(live) => tabs.restrict(live),
        }
    }

    /// Whether this step can follow on a registry that holds `tabs`: `add`
    /// hands out no key that is live.
    pub open spec fn follows(self, tabs: Map<TabKey, TabKind>) -> bool {
        match self {
            RegistryStep::Added(key, _) => !tabs.contains_key(key),
            _ => true,
        }
    }

    /// Whether this step removes the tab under `key`, if there is one.
    pub open spec fn removes(self, key: TabKey) -> bool {
        match self {
            RegistryStep::Added(_, _) => false,
            RegistryStep::Written(_, _) => false,
            RegistryStep::Closed(closed) => closed == key,
            RegistryStep::Reconciled(live) => !live.contains(key),
        }
    }

    /// Whether this step adds a tab under `key`.
    pub open spec fn adds(self, key: TabKey) -> bool {
        self matches RegistryStep::Added(added, _) && added == key
    }

    /// Whether this step writes the tab under `key`.
    pub open spec fn writes(self, key: TabKey) -> bool {
        self matches RegistryStep::Written(written, _) && written == key
    }
}

/// The tabs of a registry that held `tabs` after the first `n` of `steps`.
pub open spec fn tabs_after<TabKind>(
    tabs: Map<TabKey, TabKind>,
    steps: Seq<RegistryStep<TabKind>>,
    n: int,
) -> Map<TabKey, TabKind>
    decreases n,
{
    if n <= 0 {
        tabs
    } else {
        steps[n - 1].apply(tabs_after(tabs, steps, n - 1))
    }
}

/// Whether `steps` can happen one after the other to a registry that holds
/// `tabs`.
pub open spec fn is_history<TabKind>(tabs: Map<TabKey, TabKind>, steps: Seq<RegistryStep<TabKind>>) -> bool {
    forall|n: int| 0 <= n < steps.len() ==> (#[trigger] steps[n]).follows(tabs_after(tabs, steps, n))
}

/// A key that `add` returned resolves for as long as no step removes it: to
/// the tab that was added, as long as nothing is written through `get_mut`.
pub proof fn law_live_key_resolves<TabKind>(
    tabs: Map<TabKey, TabKind>,
    steps: Seq<RegistryStep<TabKind>>,
    added: int,
    now: int,
    key: TabKey,
    tab: TabKind,
)
    requires
        is_history(tabs, steps),
        0 <= added < now <= steps.len(),
        steps[added] == RegistryStep::Added(key, tab),
        forall|n: int| added < n < now ==> !(#[trigger] steps[n]).removes(key),
    ensures
        tabs_after(tabs, steps, now).contains_key(key),
        (forall|n: int| added < n < now ==> !(#[trigger] steps[n]).writes(key)) ==> tabs_after(
            tabs,
            steps,
            now,
        )[key] == tab,
    decreases now,
{
    if now == added + 1 {
    } else {
        law_live_key_resolves(tabs, steps, added, now - 1, key, tab);
        let step = steps[now - 1];
        assert(!step.removes(key));
        assert(step.follows(tabs_after(tabs, steps, now - 1)));
        if forall|n: int| added < n < now ==> !(#[trigger] steps[n]).writes(key) {
            assert(!step.writes(key));
            assert forall|n: int| added < n < now - 1 implies !(#[trigger] steps[n]).writes(key) by {}
        }
    }
}

/// A live key resolves to the tab that was written last through `get_mut`,
/// for as long as no step removes it.
pub proof fn law_live_key_holds_the_last_write<TabKind>(
    tabs: Map<TabKey, TabKind>,
    steps: Seq<RegistryStep<TabKind>>,
    written: int,
    now: int,
    key: TabKey,
    tab: TabKind,
)
    requires
        is_history(tabs, steps),
        0 <= written < now <= steps.len(),
        steps[written] == RegistryStep::Written(key, tab),
        tabs_after(tabs, steps, written).contains_key(key),
        forall|n: int| written < n < now ==> !(#[trigger] steps[n]).removes(key) && !steps[n].writes(key),
    ensures
        tabs_after(tabs, steps, now).contains_key(key),
        tabs_after(tabs, steps, now)[key] == tab,
    decreases now,
{
    if now == written + 1 {
    } else {
        law_live_key_holds_the_last_write(tabs, steps, written, now - 1, key, tab);
        let step = steps[now - 1];
        assert(!step.removes(key) && !step.writes(key));
        assert(step.follows(tabs_after(tabs, steps, now - 1)));
    }
}

/// A key whose tab was removed does not resolve any more, unless `add` hands
/// the same key out again.
pub proof fn law_removed_key_is_gone<TabKind>(
    tabs: Map<TabKey, TabKind>,
    steps: Seq<RegistryStep<TabKind>>,
    removed: int,
    now: int,
    key: TabKey,
)
    requires
        0 <= removed < now <= steps.len(),
        steps[removed].removes(key),
        forall|n: int| removed < n < now ==> !(#[trigger] steps[n]).adds(key),
    ensures
        !tabs_after(tabs, steps, now).contains_key(key),
    decreases now,
{
    if now == removed + 1 {
    } else {
        law_removed_key_is_gone(tabs, steps, removed, now - 1, key);
        assert(!steps[now - 1].adds(key));
    }
}

/// The counter of a registry after the first `n` of `steps`, if it stood at
/// `start` before: `add` leaves it at the key that it hands out.
pub open spec fn counter_after<TabKind>(start: usize, steps: Seq<RegistryStep<TabKind>>, n: int) -> usize
    decreases n,
{
    if n <= 0 {
        start
    } else {
        match steps[n - 1] {
            RegistryStep::Added(key, _) => key.0,
            _ => counter_after(start, steps, n - 1),
        }
    }
}

/// How many of the first `n` of `steps` add a tab.
pub open spec fn adds_before<TabKind>(steps: Seq<RegistryStep<TabKind>>, n: int) -> int
    decreases n,
{
    if n <= 0 {
        0
    } else {
        adds_before(steps, n - 1) + if steps[n - 1] is Added {
            1int
        } else {
            0int
        }
    }
}

/// Whether `steps` can happen one after the other to a registry that holds
/// `tabs` and whose counter stands at `start`: every `add` hands out the
/// first free key after the counter.
pub open spec fn is_counted_history<TabKind>(
    tabs: Map<TabKey, TabKind>,
    start: usize,
    steps: Seq<RegistryStep<TabKind>>,
) -> bool {
    forall|n: int|
        0 <= n < steps.len() && (#[trigger] steps[n]) is Added ==> first_free_after(
            counter_after(start, steps, n),
            tabs_after(tabs, steps, n).dom(),
            steps[n]->Added_0,
        )
}

/// More steps hold no fewer adds.
proof fn lemma_adds_grow<TabKind>(steps: Seq<RegistryStep<TabKind>>, a: int, b: int)
    requires
        a <= b,
    ensures
        adds_before(steps, a) <= adds_before(steps, b),
        0 <= adds_before(steps, a),
    decreases b - a, b,
{
    if a < b {
        lemma_adds_grow(steps, a, b - 1);
    } else if a > 0 {
        lemma_adds_grow(steps, a - 1, b - 1);
    }
}

/// While the counter has not passed `usize::MAX`, it stands at the number
/// of adds beyond its start, and no live key lies ahead of it.
proof fn lemma_counter_counts_adds<TabKind>(
    tabs: Map<TabKey, TabKind>,
    start: usize,
    steps: Seq<RegistryStep<TabKind>>,
    n: int,
)
    requires
        is_counted_history(tabs, start, steps),
        forall|k: TabKey| tabs.contains_key(k) ==> k.0 <= start,
        0 <= n <= steps.len(),
        start + adds_before(steps, n) <= usize::MAX,
    ensures
        counter_after(start, steps, n) == start + adds_before(steps, n),
        forall|k: TabKey|
            tabs_after(tabs, steps, n).contains_key(k) ==> k.0 <= counter_after(start, steps, n),
    decreases n,
{
    if n > 0 {
        lemma_adds_grow(steps, n - 1, n);
        lemma_counter_counts_adds(tabs, start, steps, n - 1);
        let counter = counter_after(start, steps, n - 1);
        let live = tabs_after(tabs, steps, n - 1);
        match steps[n - 1] {
            RegistryStep::Added(key, _) => {
                assert(steps[n - 1] is Added);
                assert(!live.dom().contains(TabKey((counter + 1) as usize)));
                lemma_next_key_when_free(counter, live.dom(), key);
            },
            _ => {},
        }
    }
}

/// A key is not handed out twice: as long as the counter has not passed
/// `usize::MAX`, every `add` hands out a larger key than every `add` before
/// it. With `law_removed_key_is_gone`, the key of a removed tab never
/// resolves again.
pub proof fn law_keys_are_not_reused<TabKind>(
    tabs: Map<TabKey, TabKind>,
    start: usize,
    steps: Seq<RegistryStep<TabKind>>,
    first: int,
    second: int,
)
    requires
        is_counted_history(tabs, start, steps),
        forall|k: TabKey| tabs.contains_key(k) ==> k.0 <= start,
        start + adds_before(steps, steps.len() as int) <= usize::MAX,
        0 <= first < second < steps.len(),
        steps[first] is Added,
        steps[second] is Added,
    ensures
        steps[first]->Added_0.0 < steps[second]->Added_0.0,
{
    lemma_adds_grow(steps, first + 1, second);
    lemma_adds_grow(steps, second + 1, steps.len() as int);
    lemma_adds_grow(steps, first + 1, steps.len() as int);
    lemma_counter_counts_adds(tabs, start, steps, first + 1);
    lemma_counter_counts_adds(tabs, start, steps, second + 1);
}

/// Reconciling twice with the same keys changes nothing the second time.
pub proof fn law_reconcile_is_idempotent<TabKind>(tabs: Map<TabKey, TabKind>, live: Set<TabKey>)
    ensures
        tabs.restrict(live).restrict(live) == tabs.restrict(live),
{
    assert(tabs.restrict(live).restrict(live) =~= tabs.restrict(live));
}

/// The tabs that a registry holds when it is filled from `entries`, first
/// entry first. Of two entries with the same key the later one stays.
pub open spec fn entries_map<TabKind>(entries: Seq<(TabKey, TabKind)>) -> Map<TabKey, TabKind>
    decreases entries.len(),
{
    if entries.len() == 0 {
        Map::empty()
    } else {
        entries_map(entries.drop_last()).insert(entries.last().0, entries.last().1)
    }
}

impl<TabKind, Context> Default for Tabs<TabKind, Context> {
    /// An empty registry whose counter stands at zero.
    fn default() -> (tabs: Self)
        ensures
            tabs@ == Map::<TabKey, TabKind>::empty(),
            tabs.counter() == 0,
    {
        Self::new()
    }
}

impl<TabKind, Context> Tabs<TabKind, Context> {
    /// The value of the key counter: the number of the key handed out last.
    pub closed spec fn counter(&self) -> usize {
        self.next_id
    }

    /// The value of the key counter, for saving the registry.
    pub fn next_id(&self) -> (id: usize)
        ensures
            id == self.counter(),
    {
        self.next_id
    }

    /// A registry with the given counter value that holds `entries`: the
    /// inverse of saving a registry as its counter value and its tabs.
    pub fn from_entries(next_id: usize, entries: Vec<(TabKey, TabKind)>) -> (tabs: Self)
        ensures
            tabs.counter() == next_id,
            tabs@ == entries_map(entries@),
    {
        let mut tabs = Self { next_id, tabs: BTreeMap::new(), _phantom: PhantomData };
        let ghost all = entries@;
        assert(tabs@ =~= entries_map(all.take(0)));
        for entry in it: entries
            invariant
                it.seq() == all,
                tabs.next_id == next_id,
                tabs@ == entries_map(all.take(it.index())),
        {
            let ghost before = tabs@;
            let ghost done = it.index();
            let (key, tab) = entry;
            tabs.tabs.insert(key.0, tab);
            proof {
                assert(all.take(done + 1).drop_last() =~= all.take(done));
                assert(all.take(done + 1).last() == all[done]);
                assert(tabs@ =~= before.insert(key, tab));
            }
        }
        assert(all.take(all.len() as int) =~= all);
        tabs
    }

    /// An empty registry whose counter stands at zero.
    pub fn new() -> (tabs: Self)
        ensures
            tabs@ == Map::<TabKey, TabKind>::empty(),
            tabs.counter() == 0,
    {
        let tabs = Self { next_id: 0, tabs: BTreeMap::new(), _phantom: PhantomData };
        assert(tabs@ =~= Map::<TabKey, TabKind>::empty());
        tabs
    }

    /// Advances the counter to the next key that no live tab uses, and
    /// returns that key.
    fn next_key(&mut self) -> (key: TabKey)
        ensures
            final(self)@ == old(self)@,
            final(self).counter() == key.0,
            first_free_after(old(self).counter(), old(self)@.dom(), key),
    {
        let ghost start = self.next_id;
        let ghost mut n: int = 0;
        let mut candidate_id = TabKey(self.next_id);
        loop
            invariant_except_break
                0 <= n <= usize::MAX,
                self.next_id == advance(start, n),
                forall|i: int|
                    1 <= i <= n ==> self.tabs@.contains_key(#[trigger] advance(start, i) as usize),
            invariant
                self.tabs == old(self).tabs,
                start == old(self).next_id,
            ensures
                1 <= n <= usize::MAX + 1,
                self.next_id == advance(start, n),
                candidate_id.0 == self.next_id,
                !self.tabs@.contains_key(candidate_id.0),
                forall|i: int|
                    1 <= i < n ==> self.tabs@.contains_key(#[trigger] advance(start, i) as usize),
            decreases usize::MAX + 1 - n,
        {
            self.next_id = self.next_id.wrapping_add(1);
            candidate_id = TabKey(self.next_id);
            proof {
                n = n + 1;
            }
            if !self.tabs.contains_key(&candidate_id.0) {
                break ;
            }
            proof {
                lemma_map_len_fits(&self.tabs);
                lemma_visited_keys_fit(start, n, self.tabs@.dom());
            }
        }
        proof {
            assert(self@ =~= old(self)@);
            assert(!old(self)@.dom().contains(candidate_id));
            assert forall|i: int| 1 <= i < n implies old(self)@.dom().contains(
                TabKey(#[trigger] advance(start, i) as usize),
            ) by {
                assert(self.tabs@.contains_key(advance(start, i) as usize));
            }
        }
        candidate_id
    }

    /// Stores `tab_kind` under a key that no live tab uses, and returns the key.
    pub fn add(&mut self, tab_kind: TabKind) -> (key: TabKey)
        ensures
            !old(self)@.contains_key(key),
            final(self)@ == old(self)@.insert(key, tab_kind),
            first_free_after(old(self).counter(), old(self)@.dom(), key),
            final(self).counter() == key.0,
    {
        let id = self.next_key();
        self.tabs.insert(id.0, tab_kind);
        assert(self@ =~= old(self)@.insert(id, tab_kind));
        id
    }

    /// The tab stored under `key`, if the key is live, for changing it in
    /// place.
    pub fn get_mut(&mut self, key: &TabKey) -> (tab: Option<&mut TabKind>)
        ensures
            final(self).counter() == old(self).counter(),
            match tab {
                Some(t) => old(self)@.contains_key(*key) && *t == old(self)@[*key] && final(self)@
                    == old(self)@.insert(*key, *final(t)),
                None => !old(self)@.contains_key(*key) && final(self)@ == old(self)@,
            },
    {
        map_get_mut(&mut self.tabs, key.0)
    }

    /// Every live tab with its key, in ascending order of the keys, for
    /// changing the tabs in place.
    pub fn iter_mut(&mut self) -> (entries: Vec<(TabKey, &mut TabKind)>)
        ensures
            final(self).counter() == old(self).counter(),
            final(self)@.dom() == old(self)@.dom(),
            forall|i: int, j: int| 0 <= i < j < entries@.len() ==> entries@[i].0.0 < entries@[j].0.0,
            forall|k: TabKey|
                old(self)@.contains_key(k) ==> exists|i: int|
                    0 <= i < entries@.len() && (#[trigger] entries@[i]).0 == k,
            forall|i: int|
                0 <= i < entries@.len() ==> {
                    let entry = #[trigger] entries@[i];
                    &&& old(self)@.contains_key(entry.0)
                    &&& *entry.1 == old(self)@[entry.0]
                    &&& final(self)@[entry.0] == *final(entry.1)
                },
    {
        let entries = map_iter_mut(&mut self.tabs);
        proof {
            assert forall|k: TabKey| old(self)@.contains_key(k) implies exists|i: int|
                0 <= i < entries@.len() && (#[trigger] entries@[i]).0 == k by {
                let i = choose|i: int| 0 <= i < entries@.len() && (#[trigger] entries@[i]).0.0 == k.0;
                assert(entries@[i].0 == k);
            }
        }
        entries
    }

    /// Every live tab with its key, in ascending order of the keys.
    pub fn iter(&self) -> (entries: Vec<(TabKey, &TabKind)>)
        ensures
            entries@.map_values(|e: (TabKey, &TabKind)| e.0).to_set() == self@.dom(),
            forall|i: int, j: int| 0 <= i < j < entries@.len() ==> entries@[i].0.0 < entries@[j].0.0,
            forall|i: int|
                0 <= i < entries@.len() ==> {
                    let entry = #[trigger] entries@[i];
                    self@.contains_key(entry.0) && *entry.1 == self@[entry.0]
                },
    {
        let ids = self.ids();
        let mut entries: Vec<(TabKey, &TabKind)> = Vec::new();
        let mut i: usize = 0;
        while i < ids.len()
            invariant
                i <= ids.len(),
                entries@.len() == i,
                ids@.to_set() == self@.dom(),
                forall|j: int| 0 <= j < i ==> (#[trigger] entries@[j]).0 == ids@[j],
                forall|j: int|
                    0 <= j < i ==> {
                        let entry = #[trigger] entries@[j];
                        self@.contains_key(entry.0) && *entry.1 == self@[entry.0]
                    },
            decreases ids.len() - i,
        {
            let key = ids[i];
            assert(ids@.to_set().contains(ids@[i as int]));
            match self.tabs.get(&key.0) {
                Some(tab) => entries.push((key, tab)),
                None => unreached(),
            }
            i = i + 1;
        }
        proof {
            let keys = entries@.map_values(|e: (TabKey, &TabKind)| e.0);
            assert(keys =~= ids@);
        }
        entries
    }

    /// Removes every tab whose key is not among `tab_keys`.
    pub fn retain_all(&mut self, tab_keys: &[TabKey])
        ensures
            final(self)@ == old(self)@.restrict(tab_keys@.to_set()),
            final(self).counter() == old(self).counter(),
    {
        let ids = self.ids();
        let mut i: usize = 0;
        proof {
            assert forall|k: usize| old(self).tabs@.contains_key(k) implies exists|j: int|
                0 <= j < ids@.len() && #[trigger] ids@[j] == TabKey(k) by {
                assert(old(self)@.dom().contains(TabKey(k)));
                assert(ids@.to_set().contains(TabKey(k)));
            }
        }
        while i < ids.len()
            invariant
                i <= ids.len(),
                self.next_id == old(self).next_id,
                forall|a: int, b: int| 0 <= a < b < ids.len() ==> ids[a].0 < ids[b].0,
                forall|k: usize|
                    self.tabs@.contains_key(k) <==> old(self).tabs@.contains_key(k) && (
                    tab_keys@.contains(TabKey(k)) || exists|j: int|
                        i <= j < ids@.len() && #[trigger] ids@[j] == TabKey(k)),
                forall|k: usize|
                    self.tabs@.contains_key(k) ==> #[trigger] self.tabs@[k] == old(self).tabs@[k],
            decreases ids.len() - i,
        {
            let key = ids[i];
            let ghost before = self.tabs@;
            let keep = key_is_among(tab_keys, key);
            if !keep {
                self.tabs.remove(&key.0);
            }
            proof {
                assert forall|k: usize|
                    self.tabs@.contains_key(k) <==> old(self).tabs@.contains_key(k) && (
                    tab_keys@.contains(TabKey(k)) || exists|j: int|
                        i + 1 <= j < ids@.len() && #[trigger] ids@[j] == TabKey(k)) by {
                    if self.tabs@.contains_key(k) {
                        assert(before.contains_key(k));
                        if !tab_keys@.contains(TabKey(k)) {
                            let j = choose|j: int|
                                i <= j < ids@.len() && #[trigger] ids@[j] == TabKey(k);
                            assert(k != key.0);
                            assert(j != i);
                        }
                    }
                    if old(self).tabs@.contains_key(k) && tab_keys@.contains(TabKey(k)) {
                        assert(before.contains_key(k));
                        assert(k != key.0 || keep);
                    }
                    if old(self).tabs@.contains_key(k) && exists|j: int|
                        i + 1 <= j < ids@.len() && #[trigger] ids@[j] == TabKey(k) {
                        let j = choose|j: int|
                            i + 1 <= j < ids@.len() && #[trigger] ids@[j] == TabKey(k);
                        assert(ids[i as int].0 < ids[j].0);
                        assert(before.contains_key(k));
                    }
                }
            }
            i = i + 1;
        }
        proof {
            assert forall|k: TabKey|
                old(self)@.contains_key(k) && tab_keys@.to_set().contains(
                    k,
                ) implies self@.contains_key(k) by {
                assert(tab_keys@.contains(TabKey(k.0)));
            }
            assert(self@ =~= old(self)@.restrict(tab_keys@.to_set()));
        }
    }

    /// The live keys in ascending order.
    pub fn ids(&self) -> (ids: Vec<TabKey>)
        ensures
            ids@.to_set() == self@.dom(),
            forall|i: int, j: int| 0 <= i < j < ids.len() ==> ids[i].0 < ids[j].0,
    {
        let mut ids: Vec<TabKey> = Vec::new();
        let ghost keys = self.tabs.keys().remaining();
        for key in it: self.tabs.keys()
            invariant
                it.seq() == keys,
                ids.len() == it.index(),
                forall|i: int| 0 <= i < ids.len() ==> ids[i].0 == *keys[i],
        {
            ids.push(TabKey(*key));
        }
        proof {
            lemma_keys_ascend(&self.tabs);
            assert(ids@.len() == keys.len());
            assert forall|k: TabKey| ids@.to_set().contains(k) <==> self@.dom().contains(k) by {
                if ids@.to_set().contains(k) {
                    let i = choose|i: int| 0 <= i < ids@.len() && ids@[i] == k;
                    assert(keys.unref()[i] == k.0);
                    assert(keys.unref().to_set().contains(k.0));
                }
                if self@.dom().contains(k) {
                    assert(keys.unref().to_set().contains(k.0));
                    let i = choose|i: int| 0 <= i < keys.unref().len() && keys.unref()[i] == k.0;
                    assert(ids@[i] == k);
                }
            }
            assert(ids@.to_set() =~= self@.dom());
            assert forall|i: int, j: int| 0 <= i < j < ids.len() implies ids[i].0 < ids[j].0 by {
                assert(*keys[i] < *keys[j]);
            }
        }
        ids
    }

    /// The tab stored under `key`, if the key is live.
    pub fn get(&self, key: &TabKey) -> (tab: Option<&TabKind>)
        ensures
            match tab {
                Some(t) => self@.contains_key(*key) && *t == self@[*key],
                None => !self@.contains_key(*key),
            },
    {
        self.tabs.get(&key.0)
    }
}

impl<Context, TabKind: Tab<Context = Context>> Tabs<TabKind, Context> {
    /// The title of the tab stored under `key`.
    pub fn title(&self, key: &TabKey) -> (label: TabLabel)
        requires
            self@.contains_key(*key),
        ensures
            label@ == self@[*key].title(),
    {
        match self.tabs.get(&key.0) {
            Some(tab) => tab.label(),
            None => unreached(),
        }
    }

    /// Asks the tab stored under `key` to close, and removes it from the
    /// registry if it agrees.
    pub fn close(&mut self, key: &TabKey, context: &mut Context) -> (outcome: CloseOutcome)
        requires
            old(self)@.contains_key(*key),
        ensures
            final(self).counter() == old(self).counter(),
            exists|tab_after: TabKind|
                {
                    &&& old(self)@[*key].closes_to(
                        *key,
                        *old(context),
                        tab_after,
                        *final(context),
                        outcome,
                    )
                    &&& final(self)@ == match outcome {
                        CloseOutcome::Close => old(self)@.remove(*key),
                        CloseOutcome::Keep => old(self)@.insert(*key, tab_after),
                    }
                },
    {
        let outcome = match map_get_mut(&mut self.tabs, key.0) {
            Some(tab) => tab.on_close(key, context),
            None => unreached(),
        };
        let ghost tab_after = self.tabs@[key.0];
        match outcome {
            CloseOutcome::Close => {
                self.tabs.remove(&key.0);
                assert(self@ =~= old(self)@.remove(*key));
            },
            CloseOutcome::Keep => {
                assert(self@ =~= old(self)@.insert(*key, tab_after));
            },
        }
        assert(old(self)@[*key].closes_to(*key, *old(context), tab_after, *context, outcome));
        outcome
    }
}

/// What the layout calls when it draws or closes tabs: the registry and the
/// state that the tabs work on, borrowed for one call.
pub struct AppTabViewer<'a, TabContext, TabKind: Tab> {
    pub tabs: &'a mut Tabs<TabKind, TabContext>,
    pub context: &'a mut TabContext,
}

impl<'a, TabContext, TabKind: Tab<Context = TabContext>> AppTabViewer<'a, TabContext, TabKind> {
    /// The title of the tab stored under `tab`.
    pub fn title(&self, tab: &TabKey) -> (label: TabLabel)
        requires
            old(self.tabs)@.contains_key(*tab),
        ensures
            label@ == old(self.tabs)@[*tab].title(),
    {
        self.tabs.title(tab)
    }

    /// Asks the tab stored under `tab` to close, and removes it from the
    /// registry if it agrees. This ends the borrow of the registry and the
    /// context.
    pub fn on_close(self, tab: &TabKey) -> (outcome: CloseOutcome)
        requires
            old(self.tabs)@.contains_key(*tab),
        ensures
            final(self.tabs).counter() == old(self.tabs).counter(),
            exists|tab_after: TabKind|
                {
                    &&& old(self.tabs)@[*tab].closes_to(
                        *tab,
                        *old(self.context),
                        tab_after,
                        *final(self.context),
                        outcome,
                    )
                    &&& final(self.tabs)@ == match outcome {
                        CloseOutcome::Close => old(self.tabs)@.remove(*tab),
                        CloseOutcome::Keep => old(self.tabs)@.insert(*tab, tab_after),
                    }
                },
    {
        self.tabs.close(tab, self.context)
    }
}

} // verus!
