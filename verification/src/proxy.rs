//! The rotating pool of failover proxies.
//!
//! [`PoolState`] is the pool itself: one record per configured proxy, a flag
//! that says whether it is still believed reachable, and the index of the
//! proxy assigned to new scans ("current"). The pool only ever shrinks — a
//! discarded proxy is never probed again or reselected — and the current
//! index always follows the "last remaining active entry" policy, a
//! deliberately simple, order-stable tie-break.
//!
//! [`ProxyManager`] shares one pool among many concurrent scan workers
//! behind vstd's verified reader-writer lock: readers take consistent
//! snapshots, and a discard replaces the whole state atomically, so no
//! caller can observe a half-updated pool.

use vstd::prelude::*;
use vstd::rwlock::{RwLock, RwLockPredicate};
use crate::config::{Proxy, ProxyView};

verus! {

/// One configured proxy together with the flag that says whether it is
/// still believed reachable.
#[derive(Debug)]
pub struct PoolEntry {
    pub proxy: Proxy,
    pub active: bool,
}

/// The mathematical value of a [`PoolEntry`].
pub ghost struct EntryView {
    pub proxy: ProxyView,
    pub active: bool,
}

impl View for PoolEntry {
    type V = EntryView;

    open spec fn view(&self) -> EntryView {
        EntryView { proxy: self.proxy@, active: self.active }
    }
}

/// The mathematical value of the whole pool: the configured entries in
/// configuration order, and the index of the entry assigned to new scans.
pub ghost struct PoolModel {
    pub entries: Seq<EntryView>,
    pub current: Option<int>,
}

/// The index of the last still-active entry of `s`, or none when every
/// entry has been discarded (or none was reachable to begin with).
pub open spec fn last_active(s: Seq<EntryView>) -> Option<int>
    decreases s.len(),
{
    if s.len() == 0 {
        None
    } else if s.last().active {
        Some(s.len() - 1)
    } else {
        last_active(s.drop_last())
    }
}

/// The still-active entries of `s`, in configuration order.
pub open spec fn active_entries(s: Seq<EntryView>) -> Seq<EntryView> {
    s.filter(|e: EntryView| e.active)
}

impl PoolModel {
    /// Every configured proxy, in configuration order, discarded or not.
    pub open spec fn proxies(self) -> Seq<ProxyView> {
        self.entries.map_values(|e: EntryView| e.proxy)
    }

    /// The proxies still believed reachable, in configuration order.
    pub open spec fn active_proxies(self) -> Seq<ProxyView> {
        active_entries(self.entries).map_values(|e: EntryView| e.proxy)
    }

    /// The pool is well formed when the current index is exactly the last
    /// still-active entry, and absent exactly when no active entry remains.
    pub open spec fn wf(self) -> bool {
        self.current == last_active(self.entries)
    }

    /// The proxy assigned to new scans, if one remains.
    pub open spec fn current_proxy(self) -> Option<ProxyView> {
        match self.current {
            Some(i) => Some(self.entries[i].proxy),
            None => None,
        }
    }

    /// The pool after one discard: the current entry, if any, loses its
    /// active flag, and the last entry still active afterwards becomes
    /// current. Without a current entry a discard changes nothing.
    pub open spec fn discarded(self) -> PoolModel {
        match self.current {
            Some(i) => {
                let entries = self.entries.update(
                    i,
                    EntryView { proxy: self.entries[i].proxy, active: false },
                );
                PoolModel { entries, current: last_active(entries) }
            },
            None => self,
        }
    }

    /// The pool after `n` discards in a row.
    pub open spec fn discarded_n(self, n: nat) -> PoolModel
        decreases n,
    {
        if n == 0 {
            self
        } else {
            self.discarded_n((n - 1) as nat).discarded()
        }
    }
}

/// A well-formed index points at an active entry in bounds, and everything
/// behind it is inactive.
pub proof fn lemma_last_active_some(s: Seq<EntryView>, i: int)
    requires
        last_active(s) == Some(i),
    ensures
        0 <= i < s.len(),
        s[i].active,
        forall|j: int| i < j < s.len() ==> !s[j].active,
    decreases s.len(),
{
    if s.len() == 0 {
    } else if s.last().active {
    } else {
        lemma_last_active_some(s.drop_last(), i);
        assert(forall|j: int| 0 <= j < s.len() - 1 ==> s[j] == s.drop_last()[j]);
    }
}

/// An absent index means that no entry is active.
pub proof fn lemma_last_active_none(s: Seq<EntryView>)
    requires
        last_active(s) is None,
    ensures
        forall|j: int| 0 <= j < s.len() ==> !s[j].active,
    decreases s.len(),
{
    if s.len() == 0 {
    } else {
        lemma_last_active_none(s.drop_last());
        assert(forall|j: int| 0 <= j < s.len() - 1 ==> s[j] == s.drop_last()[j]);
    }
}

/// An entry of the filtered sequence is an entry of the original.
proof fn lemma_active_entries_elem(s: Seq<EntryView>, e: EntryView)
    requires
        active_entries(s).contains(e),
    ensures
        s.contains(e),
    decreases s.len(),
{
    reveal(Seq::filter);
    if s.len() == 0 {
    } else {
        if e == s.last() {
            assert(s[s.len() - 1] == e);
        } else {
            let fd = active_entries(s.drop_last());
            assert(fd.contains(e));
            lemma_active_entries_elem(s.drop_last(), e);
            let k = choose|k: int| 0 <= k < s.drop_last().len() && s.drop_last()[k] == e;
            assert(s[k] == e);
        }
    }
}

/// Deactivating entries (while keeping their proxies) never lengthens the
/// active subsequence.
proof fn lemma_active_len_monotone(a: Seq<EntryView>, b: Seq<EntryView>)
    requires
        a.len() == b.len(),
        forall|k: int| 0 <= k < a.len() ==> (#[trigger] b[k].active ==> a[k].active),
    ensures
        active_entries(b).len() <= active_entries(a).len(),
    decreases a.len(),
{
    reveal(Seq::filter);
    if a.len() == 0 {
    } else {
        assert(forall|k: int| 0 <= k < a.len() - 1 ==> a.drop_last()[k] == a[k]);
        assert(forall|k: int| 0 <= k < b.len() - 1 ==> b.drop_last()[k] == b[k]);
        lemma_active_len_monotone(a.drop_last(), b.drop_last());
        assert(b.last() == b[a.len() - 1] && a.last() == a[a.len() - 1]);
    }
}

/// The facts that one discard guarantees: the entry count and every proxy
/// stay as configured, no inactive entry comes back to life, and the pool
/// stays well formed.
pub proof fn lemma_discard_step(m: PoolModel)
    requires
        m.wf(),
    ensures
        m.discarded().wf(),
        m.discarded().entries.len() == m.entries.len(),
        forall|k: int|
            0 <= k < m.entries.len() ==> (#[trigger] m.discarded().entries[k]).proxy
                == m.entries[k].proxy,
        forall|k: int|
            0 <= k < m.entries.len() ==> ((#[trigger] m.discarded().entries[k]).active
                ==> m.entries[k].active),
{
    match m.current {
        Some(i) => {
            lemma_last_active_some(m.entries, i);
        },
        None => {},
    }
}

/// Iterating discards keeps the facts of [`lemma_discard_step`].
proof fn lemma_discard_n_facts(m: PoolModel, n: nat)
    requires
        m.wf(),
    ensures
        m.discarded_n(n).wf(),
        m.discarded_n(n).entries.len() == m.entries.len(),
        forall|k: int|
            0 <= k < m.entries.len() ==> (#[trigger] m.discarded_n(n).entries[k]).proxy
                == m.entries[k].proxy,
        forall|k: int|
            0 <= k < m.entries.len() ==> ((#[trigger] m.discarded_n(n).entries[k]).active
                ==> m.entries[k].active),
    decreases n,
{
    if n == 0 {
    } else {
        lemma_discard_n_facts(m, (n - 1) as nat);
        lemma_discard_step(m.discarded_n((n - 1) as nat));
    }
}

/// Discards compose: `i + d` discards are `d` discards after `i`.
proof fn lemma_discard_n_add(m: PoolModel, i: nat, d: nat)
    ensures
        m.discarded_n(i + d) == m.discarded_n(i).discarded_n(d),
    decreases d,
{
    if d == 0 {
    } else {
        lemma_discard_n_add(m, i, (d - 1) as nat);
    }
}

/// *Pool shrink-only.* Over any run of discards from a well-formed pool, the
/// configured proxies never change, the set of active proxies never grows,
/// and a proxy absent from the active subsequence at one point never
/// reappears in it later: a later pool's active proxies are a subset of any
/// earlier pool's.
pub proof fn lemma_pool_shrink_only(m: PoolModel, i: nat, j: nat)
    requires
        m.wf(),
        i <= j,
    ensures
        m.discarded_n(j).wf(),
        m.discarded_n(j).proxies() == m.proxies(),
        m.discarded_n(j).active_proxies().len() <= m.discarded_n(i).active_proxies().len(),
        forall|p: ProxyView|
            m.discarded_n(j).active_proxies().contains(p) ==> m.discarded_n(
                i,
            ).active_proxies().contains(p),
{
    lemma_discard_n_facts(m, i);
    lemma_discard_n_facts(m, j);
    let mi = m.discarded_n(i);
    let mj = m.discarded_n(j);
    lemma_discard_n_add(m, i, (j - i) as nat);
    lemma_discard_n_facts(mi, (j - i) as nat);
    assert(mj == mi.discarded_n((j - i) as nat));

    assert(mj.proxies() =~= m.proxies());

    lemma_active_len_monotone(mi.entries, mj.entries);
    assert forall|p: ProxyView| mj.active_proxies().contains(p) implies mi.active_proxies().contains(
        p,
    ) by {
        let jj = choose|jj: int|
            0 <= jj < mj.active_proxies().len() && mj.active_proxies()[jj] == p;
        let e = active_entries(mj.entries)[jj];
        mj.entries.lemma_filter_pred(|x: EntryView| x.active, jj);
        assert(active_entries(mj.entries).contains(e));
        lemma_active_entries_elem(mj.entries, e);
        let k = choose|k: int| 0 <= k < mj.entries.len() && mj.entries[k] == e;
        assert(mi.entries[k].active && mi.entries[k].proxy == p);
        mi.entries.lemma_filter_contains(|x: EntryView| x.active, k);
        let k2 = choose|k2: int|
            0 <= k2 < active_entries(mi.entries).len() && active_entries(mi.entries)[k2]
                == mi.entries[k];
        assert(mi.active_proxies()[k2] == p);
    }
}

/// *Current validity.* In a well-formed pool a present current index always
/// denotes an active entry in bounds, and its proxy is a member of the
/// active subsequence; once no active proxy remains, current is absent.
pub proof fn lemma_current_validity(m: PoolModel)
    requires
        m.wf(),
    ensures
        m.current matches Some(i) ==> 0 <= i < m.entries.len() && m.entries[i].active
            && m.active_proxies().contains(m.entries[i].proxy),
        m.active_proxies().len() == 0 ==> m.current is None,
{
    match m.current {
        Some(i) => {
            lemma_last_active_some(m.entries, i);
            m.entries.lemma_filter_contains(|x: EntryView| x.active, i);
            let k = choose|k: int|
                0 <= k < active_entries(m.entries).len() && active_entries(m.entries)[k]
                    == m.entries[i];
            assert(m.active_proxies()[k] == m.entries[i].proxy);
            assert(m.active_proxies().contains(m.entries[i].proxy));
        },
        None => {},
    }
}

/// The pool as one worker sees it while holding the lock. The surrounding
/// program never touches this type directly; it lives behind
/// [`ProxyManager`].
pub struct PoolState {
    pub entries: Vec<PoolEntry>,
    pub current: Option<usize>,
}

/// The mathematical value of an optional index.
pub open spec fn opt_index_view(r: Option<usize>) -> Option<int> {
    match r {
        Some(i) => Some(i as int),
        None => None,
    }
}

/// The mathematical value of an optional proxy.
pub open spec fn opt_proxy_view(r: Option<Proxy>) -> Option<ProxyView> {
    match r {
        Some(p) => Some(p@),
        None => None,
    }
}

impl View for PoolState {
    type V = PoolModel;

    open spec fn view(&self) -> PoolModel {
        PoolModel {
            entries: self.entries@.map_values(|e: PoolEntry| e@),
            current: opt_index_view(self.current),
        }
    }
}

/// The pool a fresh manager starts from: one entry per configured proxy,
/// active exactly where the liveness probe succeeded, and the last active
/// entry selected as current.
pub open spec fn initial_pool(proxies: Seq<ProxyView>, alive: Seq<bool>) -> PoolModel {
    let entries = Seq::new(
        proxies.len(),
        |k: int| EntryView { proxy: proxies[k], active: alive[k] },
    );
    PoolModel { entries, current: last_active(entries) }
}

impl PoolState {
    pub open spec fn wf(self) -> bool {
        self@.wf()
    }

    /// Finds the index of the last still-active entry, the pool's selection
    /// policy.
    fn find_last_active(entries: &Vec<PoolEntry>) -> (r: Option<usize>)
        ensures
            opt_index_view(r) == last_active(entries@.map_values(|e: PoolEntry| e@)),
    {
        let ghost ev = entries@.map_values(|e: PoolEntry| e@);
        let mut j: usize = entries.len();
        assert(ev =~= ev.take(j as int));
        while j > 0
            invariant
                j <= entries.len(),
                ev == entries@.map_values(|e: PoolEntry| e@),
                forall|k: int| 0 <= k < ev.len() ==> ev[k] == entries@[k]@,
                last_active(ev) == last_active(ev.take(j as int)),
            decreases j,
        {
            if entries[j - 1].active {
                assert(ev.take(j as int).last() == ev[j as int - 1]);
                assert(ev[j as int - 1].active);
                assert(last_active(ev.take(j as int)) == Some(j as int - 1));
                return Some(j - 1);
            }
            assert(ev.take(j as int).drop_last() =~= ev.take(j as int - 1));
            j = j - 1;
        }
        assert(ev.take(0) =~= Seq::<EntryView>::empty());
        None
    }

    /// Builds the starting pool from the configured proxies and the result
    /// of the one-time liveness probe of each.
    pub fn init(proxies: &Vec<Proxy>, alive: &Vec<bool>) -> (r: PoolState)
        requires
            proxies@.len() == alive@.len(),
        ensures
            r@ == initial_pool(proxies@.map_values(|p: Proxy| p@), alive@),
            r.wf(),
    {
        let ghost model = initial_pool(proxies@.map_values(|p: Proxy| p@), alive@);
        let mut entries: Vec<PoolEntry> = Vec::new();
        let mut i: usize = 0;
        while i < proxies.len()
            invariant
                i <= proxies@.len(),
                proxies@.len() == alive@.len(),
                entries@.len() == i as int,
                forall|k: int|
                    0 <= k < i as int ==> entries@[k]@ == (EntryView {
                        proxy: proxies@[k]@,
                        active: alive@[k],
                    }),
            decreases proxies@.len() - i,
        {
            entries.push(PoolEntry { proxy: proxies[i].clone(), active: alive[i] });
            i = i + 1;
        }
        assert(entries@.map_values(|e: PoolEntry| e@) =~= model.entries);
        let current = Self::find_last_active(&entries);
        let r = PoolState { entries, current };
        assert(r@ == model);
        r
    }

    /// A snapshot copy of the proxy assigned to new scans, or none when no
    /// reachable proxy remains.
    pub fn current_proxy(&self) -> (r: Option<Proxy>)
        requires
            self.wf(),
        ensures
            opt_proxy_view(r) == self@.current_proxy(),
    {
        match &self.current {
            Some(i) => {
                proof {
                    lemma_last_active_some(self@.entries, *i as int);
                }
                Some(self.entries[*i].proxy.clone())
            },
            None => None,
        }
    }

    /// Reselects the current proxy by the pool's policy: the last entry
    /// still active, or none.
    pub fn select_next_proxy(&mut self)
        ensures
            final(self).entries == old(self).entries,
            final(self)@.entries == old(self)@.entries,
            final(self)@.current == last_active(old(self)@.entries),
            final(self).wf(),
    {
        let next = Self::find_last_active(&self.entries);
        self.current = next;
    }

    /// Removes the current proxy from the active set — it is presumed
    /// untrustworthy for the remainder of the run — and reselects. Without
    /// a current proxy this changes nothing.
    pub fn discard_current(&mut self)
        requires
            old(self).wf(),
        ensures
            final(self)@ == old(self)@.discarded(),
            final(self).wf(),
    {
        let ghost pre = old(self)@;
        match &self.current {
            Some(i) => {
                let i = *i;
                proof {
                    lemma_last_active_some(pre.entries, i as int);
                }
                let p = self.entries[i].proxy.clone();
                self.entries[i] = PoolEntry { proxy: p, active: false };
                assert(self@.entries =~= pre.discarded().entries);
                self.select_next_proxy();
                assert(self@ == pre.discarded());
            },
            None => {
                assert(self@ == pre.discarded());
            },
        }
    }
}

/// `m` is a pool that discards can have made out of `init`: the configured
/// proxies are the same, and no entry inactive in `init` is active in `m`.
pub open spec fn descends_from(m: PoolModel, init: PoolModel) -> bool {
    &&& m.entries.len() == init.entries.len()
    &&& forall|k: int|
        0 <= k < m.entries.len() ==> (#[trigger] m.entries[k]).proxy == init.entries[k].proxy
    &&& forall|k: int|
        0 <= k < m.entries.len() ==> ((#[trigger] m.entries[k]).active ==> init.entries[k].active)
}

/// `m` is a pool that some run of discards actually made out of `init`.
pub open spec fn reachable_from(m: PoolModel, init: PoolModel) -> bool {
    exists|n: nat| m == init.discarded_n(n)
}

/// A pool reached by discards from a well-formed pool is itself well formed
/// and a descendant of it: same configured proxies, no entry brought back
/// to life.
pub proof fn lemma_reachable_descends(m: PoolModel, init: PoolModel)
    requires
        init.wf(),
        reachable_from(m, init),
    ensures
        m.wf(),
        descends_from(m, init),
{
    let n = choose|n: nat| m == init.discarded_n(n);
    lemma_discard_n_facts(init, n);
}

/// The invariant that every pool state stored in the shared lock satisfies:
/// the manager was built with a well-formed pool, and the state is exactly
/// that pool after some number of discards — so every reader's snapshot is
/// consistent, and nothing a discard removed ever returns.
pub struct PoolProtocol {
    pub initial: PoolModel,
}

impl RwLockPredicate<PoolState> for PoolProtocol {
    open spec fn inv(self, s: PoolState) -> bool {
        self.initial.wf() && s.wf() && reachable_from(s@, self.initial)
    }
}

/// `r` is what a well-formed pool that discards made out of `init` reports
/// as its current proxy.
pub open spec fn consistent_snapshot(r: Option<Proxy>, m: PoolModel, init: PoolModel) -> bool {
    init.wf() && m.wf() && reachable_from(m, init) && opt_proxy_view(r) == m.current_proxy()
}

/// A consistent snapshot never invents a proxy: what it reports was one of
/// the initially configured proxies that the liveness probe kept.
pub proof fn lemma_snapshot_is_configured(r: Option<Proxy>, m: PoolModel, init: PoolModel)
    requires
        consistent_snapshot(r, m, init),
    ensures
        r matches Some(p) ==> init.active_proxies().contains(p@),
{
    lemma_reachable_descends(m, init);
    match m.current {
        Some(i) => {
            lemma_last_active_some(m.entries, i);
            init.entries.lemma_filter_contains(|x: EntryView| x.active, i);
            let k = choose|k: int|
                0 <= k < active_entries(init.entries).len() && active_entries(init.entries)[k]
                    == init.entries[i];
            assert(init.active_proxies()[k] == m.entries[i].proxy);
            assert(init.active_proxies().contains(m.entries[i].proxy));
        },
        None => {},
    }
}

/// Owns the pool of proxies and shares it among concurrent scan workers.
///
/// The state sits behind vstd's verified reader-writer lock, whose invariant
/// is [`PoolProtocol`]: readers may run concurrently with each other, a
/// discard excludes readers and writers for the whole of its update, and so
/// every observation is of a complete pre- or post-discard pool — exactly
/// the configured pool after some number of discards — never of a
/// half-updated mixture.
pub struct ProxyManager {
    pool: RwLock<PoolState, PoolProtocol>,
}

impl ProxyManager {
    /// The pool this manager was built with, which every later state
    /// descends from.
    pub closed spec fn initial(self) -> PoolModel {
        self.pool.pred().initial
    }

    /// Builds the manager from the configured proxies and the result of the
    /// one-time synchronous liveness probe of each (`alive[k]` says whether
    /// `proxies[k]` answered): only the reachable ones become active, and
    /// the last of them is the initial current proxy. When none is
    /// reachable, every scan using this manager runs in direct mode.
    pub fn new(proxies: Vec<Proxy>, alive: Vec<bool>) -> (r: Self)
        requires
            proxies@.len() == alive@.len(),
        ensures
            r.initial() == initial_pool(proxies@.map_values(|p: Proxy| p@), alive@),
    {
        let state = PoolState::init(&proxies, &alive);
        let ghost protocol = PoolProtocol { initial: state@ };
        proof {
            assert(state@ == protocol.initial.discarded_n(0));
        }
        ProxyManager { pool: RwLock::new(state, Ghost(protocol)) }
    }

    /// A snapshot copy of the proxy presently assigned to new scans, or
    /// none. Safe to call from many workers at once: the result is always
    /// the current proxy of one well-formed pool state — the one the lock
    /// held while the snapshot was taken, the configured pool after some
    /// number of discards — never a torn mixture.
    pub fn get_current_proxy(&self) -> (r: Option<Proxy>)
        ensures
            exists|m: PoolModel| consistent_snapshot(r, m, self.initial()),
    {
        let handle = self.pool.acquire_read();
        let r = handle.borrow().current_proxy();
        let ghost m = handle.view()@;
        handle.release_read();
        proof {
            assert(consistent_snapshot(r, m, self.initial()));
        }
        r
    }

    /// Atomically removes the proxy presently assigned to new scans and
    /// reselects by the "last remaining active entry" rule; see
    /// [`PoolState::discard_current`] for the exact transition the pool
    /// makes. Concurrent readers observe the pool before or after the
    /// discard, never in between, and the pool stays exactly the configured
    /// one after some number of discards.
    pub fn discard_current_proxy(&self) {
        let (mut state, handle) = self.pool.acquire_write();
        let ghost pre = state@;
        state.discard_current();
        proof {
            let n = choose|n: nat| pre == self.initial().discarded_n(n);
            assert(state@ == self.initial().discarded_n(n + 1));
        }
        handle.release_write(state);
    }
}

} // verus!
