//! The registry of tracked connections.
//!
//! Each entry maps an authorization context to its cancellation channel and a
//! reference count. The registry is modelled as a map from context values to
//! counts; every operation states its effect on that map.
use vstd::prelude::*;

use crate::rbac::{Connection, ConnectionView, ProxyRbacContext, ProxyRbacContextView};

verus! {

/// The abstract registry: for each tracked context, its reference count.
pub type Registry = Map<ProxyRbacContextView, nat>;

/// Effect of `register`: a fresh entry with count zero, unless one exists.
pub open spec fn after_register(m: Registry, k: ProxyRbacContextView) -> Registry {
    if m.contains_key(k) {
        m
    } else {
        m.insert(k, 0)
    }
}

/// Effect of `track`: the count of a present entry goes up by one.
pub open spec fn after_track(m: Registry, k: ProxyRbacContextView) -> Registry {
    if m.contains_key(k) {
        m.insert(k, m[k] + 1)
    } else {
        m
    }
}

/// Effect of `release`: a count above one goes down by one; otherwise the
/// entry goes away.
pub open spec fn after_release(m: Registry, k: ProxyRbacContextView) -> Registry {
    if m.contains_key(k) && m[k] > 1 {
        m.insert(k, (m[k] - 1) as nat)
    } else {
        m.remove(k)
    }
}

/// Effect of `close`: the entry goes away.
pub open spec fn after_close(m: Registry, k: ProxyRbacContextView) -> Registry {
    m.remove(k)
}

/// Some tracked context has flow `f`.
pub open spec fn has_flow(m: Registry, f: ConnectionView) -> bool {
    exists|k: ProxyRbacContextView| m.contains_key(k) && k.conn == f
}

/// `ks` lists every tracked context exactly once.
pub open spec fn is_listing(m: Registry, ks: Seq<ProxyRbacContextView>) -> bool {
    ks.no_duplicates() && ks.to_set() == m.dom()
}

/// `flows` holds, slot for slot, the flows of a listing of every tracked
/// context, each once: a flow shared by several contexts appears once per
/// context.
pub open spec fn flows_of_some_listing(m: Registry, flows: Seq<ConnectionView>) -> bool {
    exists|ks: Seq<ProxyRbacContextView>|
        is_listing(m, ks) && ks.len() == flows.len() && forall|i: int|
            0 <= i < flows.len() ==> #[trigger] flows[i] == ks[i].conn
}

/// The cancellation channel of one tracked connection, with its count.
struct ConnectionDrain {
    tx: drain::Signal,
    rx: drain::Watch,
    count: usize,
}

impl ConnectionDrain {
    fn new() -> (r: ConnectionDrain)
        ensures
            r.count == 0,
    {
        let (tx, rx) = drain::channel();
        ConnectionDrain { tx, rx, count: 0 }
    }

    /// Hands out the signal; the retained watcher is dropped on return, so
    /// draining the signal waits only for the watchers that `track` handed out.
    fn into_signal(self) -> drain::Signal {
        let ConnectionDrain { tx, .. } = self;
        tx
    }
}

struct TrackedConnection {
    ctx: ProxyRbacContext,
    drain: ConnectionDrain,
}

/// Tracks every active connection by its authorization context.
///
/// The entries live in a `Vec` searched by value rather than in a `HashMap`:
/// vstd specifies `HashMap` only for keys whose `Eq` and `Hash` it can read,
/// and the key here is a struct of strings with derived impls, so a map keyed
/// by it would give the proofs nothing. One entry per context is kept by the
/// invariant `wf` instead.
pub struct ConnectionManager {
    drains: Vec<TrackedConnection>,
    model: Ghost<Registry>,
}

impl View for ConnectionManager {
    type V = Registry;

    closed spec fn view(&self) -> Registry {
        self.model@
    }
}

impl Default for ConnectionManager {
    fn default() -> (r: ConnectionManager)
        ensures
            r.wf(),
            r@ == Registry::empty(),
    {
        ConnectionManager::new()
    }
}

impl ConnectionManager {
    spec fn key_at(&self, i: int) -> ProxyRbacContextView {
        self.drains@[i].ctx@
    }

    spec fn keys(&self) -> Seq<ProxyRbacContextView> {
        Seq::new(self.drains@.len(), |i: int| self.key_at(i))
    }

    /// One entry per context, and the model holds exactly the entries' counts.
    pub closed spec fn wf(&self) -> bool {
        &&& forall|i: int, j: int|
            0 <= i < j < self.drains@.len() ==> #[trigger] self.key_at(i) != #[trigger] self.key_at(
                j,
            )
        &&& forall|i: int|
            0 <= i < self.drains@.len() ==> self.model@.contains_key(#[trigger] self.key_at(i))
                && self.model@[self.key_at(i)] == self.drains@[i].drain.count
        &&& forall|k: ProxyRbacContextView| #[trigger]
            self.model@.contains_key(k) ==> exists|i: int|
                0 <= i < self.drains@.len() && self.key_at(i) == k
    }

    /// An empty registry.
    pub fn new() -> (r: ConnectionManager)
        ensures
            r.wf(),
            r@ == Registry::empty(),
    {
        ConnectionManager { drains: Vec::new(), model: Ghost(Registry::empty()) }
    }

    fn find(&self, c: &ProxyRbacContext) -> (r: Option<usize>)
        requires
            self.wf(),
        ensures
            match r {
                Some(i) => i < self.drains@.len() && self.key_at(i as int) == c@,
                None => !self@.contains_key(c@),
            },
    {
        let mut i: usize = 0;
        while i < self.drains.len()
            invariant
                self.wf(),
                i <= self.drains@.len(),
                forall|j: int| 0 <= j < i ==> self.key_at(j) != c@,
            decreases self.drains@.len() - i,
        {
            if self.drains[i].ctx.same(c) {
                return Some(i);
            }
            i += 1;
        }
        None
    }

    /// Registers a connection, so that policy can be asserted against it
    /// before any task watches it. A context that is already registered is
    /// left as it is.
    pub fn register(&mut self, c: &ProxyRbacContext)
        requires
            old(self).wf(),
        ensures
            final(self).wf(),
            final(self)@ == after_register(old(self)@, c@),
    {
        match self.find(c) {
            Some(_) => {},
            None => {
                let entry = TrackedConnection { ctx: c.duplicate(), drain: ConnectionDrain::new() };
                self.drains.push(entry);
                self.model = Ghost(self.model@.insert(c@, 0));
                assert(self.key_at(self.drains@.len() - 1) == c@);
                assert forall|i: int| 0 <= i < old(self).drains@.len() implies self.key_at(i)
                    == old(self).key_at(i) && old(self).model@.contains_key(
                    #[trigger] old(self).key_at(i),
                ) by {}
                assert forall|i: int, j: int|
                    0 <= i < j < self.drains@.len() implies #[trigger] self.key_at(i)
                    != #[trigger] self.key_at(j) by {
                    assert(old(self).model@.contains_key(old(self).key_at(i)));
                    if j < old(self).drains@.len() {
                        assert(old(self).key_at(i) != old(self).key_at(j));
                    }
                }
                assert forall|i: int| 0 <= i < self.drains@.len() implies self.model@.contains_key(
                    #[trigger] self.key_at(i),
                ) by {
                    if i < old(self).drains@.len() {
                        assert(old(self).model@.contains_key(old(self).key_at(i)));
                    }
                }
                assert forall|k: ProxyRbacContextView| #[trigger]
                    self.model@.contains_key(k) implies exists|i: int|
                        0 <= i < self.drains@.len() && self.key_at(i) == k by {
                    if k != c@ {
                        let i = choose|i: int|
                            0 <= i < old(self).drains@.len() && old(self).key_at(i) == k;
                        assert(self.key_at(i) == k);
                    }
                }
            },
        }
    }

    proof fn lemma_recounted(pre: &ConnectionManager, post: &ConnectionManager, i: int)
        requires
            pre.wf(),
            0 <= i < pre.drains@.len(),
            post.drains@.len() == pre.drains@.len(),
            forall|j: int| 0 <= j < pre.drains@.len() && j != i ==> post.drains@[j] == pre.drains@[j],
            post.key_at(i) == pre.key_at(i),
            post.model@ == pre.model@.insert(pre.key_at(i), post.drains@[i].drain.count as nat),
        ensures
            post.wf(),
    {
        assert forall|j: int| 0 <= j < post.drains@.len() implies #[trigger] post.key_at(j)
            == pre.key_at(j) && pre.model@.contains_key(pre.key_at(j)) by {}
        assert forall|j: int, l: int|
            0 <= j < l < post.drains@.len() implies #[trigger] post.key_at(j) != #[trigger] post.key_at(
            l,
        ) by {
            assert(pre.key_at(j) != pre.key_at(l));
        }
        assert forall|j: int| 0 <= j < post.drains@.len() implies post.model@.contains_key(
            #[trigger] post.key_at(j),
        ) && post.model@[post.key_at(j)] == post.drains@[j].drain.count by {
            if j != i {
                assert(pre.key_at(j) != pre.key_at(i)) by {
                    if j < i {
                        assert(pre.key_at(j) != pre.key_at(i));
                    } else {
                        assert(pre.key_at(i) != pre.key_at(j));
                    }
                }
            }
        }
        assert forall|k: ProxyRbacContextView| #[trigger]
            post.model@.contains_key(k) implies exists|j: int|
                0 <= j < post.drains@.len() && post.key_at(j) == k by {
            let j = choose|j: int| 0 <= j < pre.drains@.len() && pre.key_at(j) == k;
            assert(post.key_at(j) == k);
        }
    }

    proof fn lemma_removed(pre: &ConnectionManager, post: &ConnectionManager, i: int)
        requires
            pre.wf(),
            0 <= i < pre.drains@.len(),
            post.drains@ == pre.drains@.remove(i),
            post.model@ == pre.model@.remove(pre.key_at(i)),
        ensures
            post.wf(),
    {
        assert forall|j: int| 0 <= j < post.drains@.len() implies #[trigger] post.key_at(j) == (
        if j < i {
            pre.key_at(j)
        } else {
            pre.key_at(j + 1)
        }) by {}
        assert forall|j: int, l: int|
            0 <= j < l < post.drains@.len() implies #[trigger] post.key_at(j) != #[trigger] post.key_at(
            l,
        ) by {
            let pj = if j < i { j } else { j + 1 };
            let pl = if l < i { l } else { l + 1 };
            assert(pre.key_at(pj) != pre.key_at(pl));
        }
        assert forall|j: int| 0 <= j < post.drains@.len() implies post.model@.contains_key(
            #[trigger] post.key_at(j),
        ) && post.model@[post.key_at(j)] == post.drains@[j].drain.count by {
            let pj = if j < i { j } else { j + 1 };
            assert(pre.model@.contains_key(pre.key_at(pj)));
            if pj < i {
                assert(pre.key_at(pj) != pre.key_at(i));
            } else {
                assert(pre.key_at(i) != pre.key_at(pj));
            }
        }
        assert forall|k: ProxyRbacContextView| #[trigger]
            post.model@.contains_key(k) implies exists|j: int|
                0 <= j < post.drains@.len() && post.key_at(j) == k by {
            let m = choose|m: int| 0 <= m < pre.drains@.len() && pre.key_at(m) == k;
            if m < i {
                assert(post.key_at(m) == k);
            } else {
                assert(m != i);
                assert(post.key_at(m - 1) == k);
            }
        }
    }

    /// Hands out a watcher of a registered connection and counts it. A
    /// context that is not registered gets `None`: its connection is no
    /// longer valid and must close.
    pub fn track(&mut self, c: &ProxyRbacContext) -> (r: Option<drain::Watch>)
        requires
            old(self).wf(),
            old(self)@.contains_key(c@) ==> old(self)@[c@] < usize::MAX,
        ensures
            final(self).wf(),
            final(self)@ == after_track(old(self)@, c@),
            r.is_some() == old(self)@.contains_key(c@),
    {
        match self.find(c) {
            Some(i) => {
                let mut e = self.drains.remove(i);
                assert(self.model@[c@] == e.drain.count);
                e.drain.count = e.drain.count + 1;
                let rx = e.drain.rx.clone();
                self.drains.insert(i, e);
                self.model = Ghost(self.model@.insert(c@, self.model@[c@] + 1));
                proof {
                    assert forall|j: int|
                        0 <= j < old(self).drains@.len() && j != i implies self.drains@[j]
                        == old(self).drains@[j] by {}
                    Self::lemma_recounted(old(self), self, i as int);
                }
                Some(rx)
            },
            None => None,
        }
    }

    /// Gives up one tracking slot. The count of an entry above one goes down
    /// by one; an entry at one or zero is removed. An absent context is left
    /// alone.
    pub fn release(&mut self, c: &ProxyRbacContext)
        requires
            old(self).wf(),
        ensures
            final(self).wf(),
            final(self)@ == after_release(old(self)@, c@),
    {
        match self.find(c) {
            Some(i) => {
                let mut e = self.drains.remove(i);
                assert(self.model@[c@] == e.drain.count);
                if e.drain.count > 1 {
                    e.drain.count = e.drain.count - 1;
                    self.drains.insert(i, e);
                    self.model = Ghost(self.model@.insert(c@, (self.model@[c@] - 1) as nat));
                    proof {
                        assert forall|j: int|
                            0 <= j < old(self).drains@.len() && j != i implies self.drains@[j]
                            == old(self).drains@[j] by {}
                        Self::lemma_recounted(old(self), self, i as int);
                    }
                } else {
                    self.model = Ghost(self.model@.remove(c@));
                    proof {
                        Self::lemma_removed(old(self), self, i as int);
                    }
                }
            },
            None => {
                assert(self@ =~= self@.remove(c@));
            },
        }
    }

    /// Removes the entry of a context and hands out its signal, with the
    /// entry's own watcher dropped: draining it resolves once every watcher
    /// that `track` handed out is gone. `None` when the context is not
    /// registered.
    pub fn close(&mut self, c: &ProxyRbacContext) -> (r: Option<drain::Signal>)
        requires
            old(self).wf(),
        ensures
            final(self).wf(),
            final(self)@ == after_close(old(self)@, c@),
            r.is_some() == old(self)@.contains_key(c@),
    {
        match self.find(c) {
            Some(i) => {
                let e = self.drains.remove(i);
                self.model = Ghost(self.model@.remove(c@));
                proof {
                    Self::lemma_removed(old(self), self, i as int);
                }
                Some(e.drain.into_signal())
            },
            None => {
                assert(self@ =~= self@.remove(c@));
                None
            },
        }
    }

    proof fn lemma_len(&self)
        requires
            self.wf(),
        ensures
            self@.len() == self.drains@.len(),
            is_listing(self@, self.keys()),
    {
        let keys = self.keys();
        assert(keys.no_duplicates()) by {
            assert forall|i: int, j: int|
                0 <= i < keys.len() && 0 <= j < keys.len() && i != j implies keys[i]
                != keys[j] by {
                if i < j {
                    assert(self.key_at(i) != self.key_at(j));
                } else {
                    assert(self.key_at(j) != self.key_at(i));
                }
            }
        }
        assert forall|k: ProxyRbacContextView| self@.contains_key(k) <==> keys.to_set().contains(
            k,
        ) by {
            if self@.contains_key(k) {
                let i = choose|i: int| 0 <= i < self.drains@.len() && self.key_at(i) == k;
                assert(keys[i] == k);
            }
            if keys.to_set().contains(k) {
                let i = choose|i: int| 0 <= i < keys.len() && keys[i] == k;
                assert(self@.contains_key(self.key_at(i)));
            }
        }
        assert(self@.dom() =~= keys.to_set());
        keys.unique_seq_to_set();
    }

    /// The number of tracked contexts.
    pub fn len(&self) -> (r: usize)
        requires
            self.wf(),
        ensures
            r == self@.len(),
    {
        proof {
            self.lemma_len();
        }
        self.drains.len()
    }

    /// The count of a tracked context; `None` when it is not tracked.
    pub fn refcount(&self, c: &ProxyRbacContext) -> (r: Option<usize>)
        requires
            self.wf(),
        ensures
            match r {
                Some(n) => self@.contains_key(c@) && self@[c@] == n,
                None => !self@.contains_key(c@),
            },
    {
        match self.find(c) {
            Some(i) => Some(self.drains[i].drain.count),
            None => None,
        }
    }

    /// A snapshot of every tracked context, each once, in no promised order.
    pub fn connections(&self) -> (r: Vec<ProxyRbacContext>)
        requires
            self.wf(),
        ensures
            forall|i: int| 0 <= i < r@.len() ==> self@.contains_key(#[trigger] r@[i]@),
            forall|k: ProxyRbacContextView| #[trigger]
                self@.contains_key(k) ==> exists|i: int| 0 <= i < r@.len() && r@[i]@ == k,
            forall|i: int, j: int| 0 <= i < j < r@.len() ==> r@[i]@ != r@[j]@,
    {
        let mut out: Vec<ProxyRbacContext> = Vec::new();
        let mut i: usize = 0;
        while i < self.drains.len()
            invariant
                self.wf(),
                i <= self.drains@.len(),
                out@.len() == i,
                forall|j: int| 0 <= j < i ==> out@[j]@ == self.key_at(j),
            decreases self.drains@.len() - i,
        {
            out.push(self.drains[i].ctx.duplicate());
            i += 1;
        }
        proof {
            assert forall|j: int| 0 <= j < out@.len() implies self@.contains_key(
                #[trigger] out@[j]@,
            ) by {
                assert(self@.contains_key(self.key_at(j)));
            }
            assert forall|k: ProxyRbacContextView| #[trigger]
                self@.contains_key(k) implies exists|j: int| 0 <= j < out@.len() && out@[j]@ == k by {
                let j = choose|j: int| 0 <= j < self.drains@.len() && self.key_at(j) == k;
                assert(out@[j]@ == k);
            }
            assert forall|j: int, l: int| 0 <= j < l < out@.len() implies out@[j]@ != out@[l]@ by {
                assert(self.key_at(j) != self.key_at(l));
            }
        }
        out
    }

    /// A snapshot of the flow of every tracked context, without destination
    /// workload metadata, one per context, in no promised order.
    pub fn connections_dump(&self) -> (r: Vec<Connection>)
        requires
            self.wf(),
        ensures
            flows_of_some_listing(self@, r@.map_values(|c: Connection| c@)),
            forall|i: int| 0 <= i < r@.len() ==> has_flow(self@, #[trigger] r@[i]@),
            forall|k: ProxyRbacContextView| #[trigger]
                self@.contains_key(k) ==> exists|i: int| 0 <= i < r@.len() && r@[i]@ == k.conn,
            r@.len() == self@.len(),
    {
        let mut out: Vec<Connection> = Vec::new();
        let mut i: usize = 0;
        while i < self.drains.len()
            invariant
                self.wf(),
                i <= self.drains@.len(),
                out@.len() == i,
                forall|j: int| 0 <= j < i ==> out@[j]@ == self.key_at(j).conn,
            decreases self.drains@.len() - i,
        {
            out.push(self.drains[i].ctx.conn.duplicate());
            i += 1;
        }
        proof {
            self.lemma_len();
            assert forall|j: int| 0 <= j < out@.len() implies has_flow(self@, #[trigger] out@[j]@) by {
                assert(self@.contains_key(self.key_at(j)));
                assert(self.key_at(j).conn == out@[j]@);
            }
            assert forall|k: ProxyRbacContextView| #[trigger]
                self@.contains_key(k) implies exists|j: int| 0 <= j < out@.len() && out@[j]@ == k.conn by {
                let j = choose|j: int| 0 <= j < self.drains@.len() && self.key_at(j) == k;
                assert(out@[j]@ == k.conn);
            }
            let ks = self.keys();
            let flows = out@.map_values(|c: Connection| c@);
            assert forall|j: int| 0 <= j < flows.len() implies #[trigger] flows[j] == ks[j].conn by {
                assert(ks[j] == self.key_at(j));
            }
            assert(is_listing(self@, ks) && ks.len() == flows.len());
        }
        out
    }
}


/// One registry operation on a single context.
pub enum TrackerOp {
    Register,
    Track,
    Release,
    Close,
}

/// The registry after applying `ops` in order to context `k`.
pub open spec fn apply_ops(m: Registry, k: ProxyRbacContextView, ops: Seq<TrackerOp>) -> Registry
    decreases ops.len(),
{
    if ops.len() == 0 {
        m
    } else {
        let before = apply_ops(m, k, ops.drop_last());
        match ops.last() {
            TrackerOp::Register => after_register(before, k),
            TrackerOp::Track => after_track(before, k),
            TrackerOp::Release => after_release(before, k),
            TrackerOp::Close => after_close(before, k),
        }
    }
}

/// Number of tracks minus number of releases in `ops`.
pub open spec fn net_tracks(ops: Seq<TrackerOp>) -> int
    decreases ops.len(),
{
    if ops.len() == 0 {
        0
    } else {
        net_tracks(ops.drop_last()) + match ops.last() {
            TrackerOp::Track => 1int,
            TrackerOp::Release => -1int,
            _ => 0int,
        }
    }
}

/// No release in `ops` takes the running count of tracks minus releases
/// below one.
pub open spec fn releases_covered(ops: Seq<TrackerOp>) -> bool {
    forall|j: int|
        1 <= j <= ops.len() && ops[j - 1] is Release ==> net_tracks(#[trigger] ops.take(j)) >= 1
}

pub open spec fn has_no_close(ops: Seq<TrackerOp>) -> bool {
    forall|j: int| 0 <= j < ops.len() ==> !(#[trigger] ops[j] is Close)
}

pub open spec fn has_no_register(ops: Seq<TrackerOp>) -> bool {
    forall|j: int| 0 <= j < ops.len() ==> !(#[trigger] ops[j] is Register)
}

/// From a fresh registration, as long as no close intervenes and no release
/// outruns the tracks, the entry stays present with a count equal to the
/// tracks minus the releases, and no other entry changes.
pub proof fn refcount_counts_tracks_minus_releases(
    m: Registry,
    k: ProxyRbacContextView,
    ops: Seq<TrackerOp>,
)
    requires
        !m.contains_key(k),
        has_no_close(ops),
        releases_covered(ops),
    ensures
        net_tracks(ops) >= 0,
        apply_ops(after_register(m, k), k, ops) == m.insert(k, net_tracks(ops) as nat),
    decreases ops.len(),
{
    if ops.len() > 0 {
        let pre = ops.drop_last();
        assert forall|j: int| 1 <= j <= pre.len() && pre[j - 1] is Release implies net_tracks(
            #[trigger] pre.take(j),
        ) >= 1 by {
            assert(pre.take(j) =~= ops.take(j));
        }
        assert forall|j: int| 0 <= j < pre.len() implies !(#[trigger] pre[j] is Close) by {
            assert(pre[j] == ops[j]);
        }
        refcount_counts_tracks_minus_releases(m, k, pre);
        assert(ops.take(ops.len() as int) =~= ops);
        assert(!(ops[ops.len() - 1] is Close));
        let before = apply_ops(after_register(m, k), k, pre);
        match ops.last() {
            TrackerOp::Register => {
                assert(apply_ops(after_register(m, k), k, ops) =~= m.insert(k, net_tracks(ops) as nat));
            },
            TrackerOp::Track => {
                assert(apply_ops(after_register(m, k), k, ops) =~= m.insert(k, net_tracks(ops) as nat));
            },
            TrackerOp::Release => {
                assert(net_tracks(ops.take(ops.len() as int)) >= 1);
                assert(apply_ops(after_register(m, k), k, ops) =~= m.insert(k, net_tracks(ops) as nat));
            },
            TrackerOp::Close => {},
        }
    } else {
        assert(after_register(m, k) =~= m.insert(k, 0));
    }
}

/// Once an entry is gone (closed, or released away), no operation but
/// `register` brings it back: tracks find nothing, releases and closes leave
/// the registry as it is.
pub proof fn absent_entry_stays_absent(m: Registry, k: ProxyRbacContextView, ops: Seq<TrackerOp>)
    requires
        !m.contains_key(k),
        has_no_register(ops),
    ensures
        apply_ops(m, k, ops) == m,
    decreases ops.len(),
{
    if ops.len() > 0 {
        let pre = ops.drop_last();
        assert forall|j: int| 0 <= j < pre.len() implies !(#[trigger] pre[j] is Register) by {
            assert(pre[j] == ops[j]);
        }
        absent_entry_stays_absent(m, k, pre);
        assert(!(ops[ops.len() - 1] is Register));
        assert(m.remove(k) =~= m);
    }
}

/// Closing removes the entry, whatever its count was.
pub proof fn close_removes_entry(m: Registry, k: ProxyRbacContextView)
    ensures
        !after_close(m, k).contains_key(k),
        after_close(m, k).remove(k) == m.remove(k),
{
    assert(after_close(m, k).remove(k) =~= m.remove(k));
}

/// Registering twice is registering once, and a present entry keeps its
/// count.
pub proof fn register_is_idempotent(m: Registry, k: ProxyRbacContextView)
    ensures
        after_register(after_register(m, k), k) == after_register(m, k),
        m.contains_key(k) ==> after_register(m, k) == m,
{
}

/// Releasing a context that is not tracked changes nothing.
pub proof fn release_of_absent_is_noop(m: Registry, k: ProxyRbacContextView)
    requires
        !m.contains_key(k),
    ensures
        after_release(m, k) == m,
{
    assert(m.remove(k) =~= m);
}

/// Closing a context that is not tracked changes nothing.
pub proof fn close_of_absent_is_noop(m: Registry, k: ProxyRbacContextView)
    requires
        !m.contains_key(k),
    ensures
        after_close(m, k) == m,
{
    assert(m.remove(k) =~= m);
}

/// A fresh registration released with no track in between leaves no entry,
/// and the registry as it was.
pub proof fn register_then_release_removes(m: Registry, k: ProxyRbacContextView)
    requires
        !m.contains_key(k),
    ensures
        !after_release(after_register(m, k), k).contains_key(k),
        after_release(after_register(m, k), k) == m,
{
    assert(m.insert(k, 0).remove(k) =~= m);
}

/// A connection that registers, is admitted, tracks and releases after its
/// relay completes performs exactly one release for its registration: the
/// registry ends as it began, whether the context was fresh or already
/// tracked by others.
pub proof fn admitted_connection_cycle_restores(m: Registry, k: ProxyRbacContextView)
    requires
        !m.contains_key(k) || m[k] >= 1,
    ensures
        after_release(after_track(after_register(m, k), k), k) == m,
{
    if m.contains_key(k) {
        assert(m.insert(k, m[k] + 1).insert(k, m[k]) =~= m);
    } else {
        assert(m.insert(k, 0).insert(k, 1).remove(k) =~= m);
    }
}

} // verus!
