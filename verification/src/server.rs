//! An in-memory store implementing the server side of the wire protocol.
//!
//! The store maps singular resource paths to stored resources and carries a
//! logical clock that yields strictly increasing revision timestamps. Every
//! storage operation — load, replace, remove, list members, remove members —
//! is given an exact contract here, so that the client operations and the
//! end-to-end properties can be proved against one description of the
//! server's behaviour.

use vstd::prelude::*;
use vstd::string::*;

use crate::json::{jv_get, jv_set, JsonModel, JsonValue};
use crate::paths::{child_id, child_id_of, child_path, is_below, is_descendant_path, is_direct_child, join_path, slash_free};
use crate::request::{ETagMatch, Method, RequestModel, RequestPreparer};

verus! {

broadcast use vstd::std_specs::vec::group_vec_axioms;

/// One stored resource: its document, its permissions and its revision
/// timestamp.
pub struct StoredResource {
    pub data: JsonValue,
    pub permissions: JsonValue,
    pub timestamp: u64,
}

/// The mathematical form of a stored resource.
pub struct StoredModel {
    pub data: crate::json::JsonModel,
    pub permissions: crate::json::JsonModel,
    pub timestamp: u64,
}

impl View for StoredResource {
    type V = StoredModel;

    open spec fn view(&self) -> StoredModel {
        StoredModel {
            data: self.data.deep_view(),
            permissions: self.permissions.deep_view(),
            timestamp: self.timestamp,
        }
    }
}

/// The mathematical form of the whole store.
pub struct ServerModel {
    pub entries: Seq<(Seq<char>, StoredModel)>,
    pub clock: u64,
}

/// The store: entries keyed by singular path, and the revision clock.
pub struct ServerState {
    entries: Vec<(String, StoredResource)>,
    clock: u64,
}

impl View for ServerState {
    type V = ServerModel;

    closed spec fn view(&self) -> ServerModel {
        ServerModel {
            entries: Seq::new(
                self.entries@.len(),
                |i: int| (self.entries@[i].0@, self.entries@[i].1@),
            ),
            clock: self.clock,
        }
    }
}

/// The first entry stored at `p`, if any.
pub open spec fn srv_lookup(e: Seq<(Seq<char>, StoredModel)>, p: Seq<char>) -> Option<StoredModel>
    decreases e.len(),
{
    if e.len() == 0 {
        None
    } else if e[0].0 == p {
        Some(e[0].1)
    } else {
        srv_lookup(e.drop_first(), p)
    }
}

/// `e` with the entry at `p` replaced by `st`, or appended when `p` was free.
pub open spec fn srv_upsert(
    e: Seq<(Seq<char>, StoredModel)>,
    p: Seq<char>,
    st: StoredModel,
) -> Seq<(Seq<char>, StoredModel)>
    decreases e.len(),
{
    if e.len() == 0 {
        seq![(p, st)]
    } else if e[0].0 == p {
        seq![(p, st)] + e.drop_first()
    } else {
        seq![e[0]] + srv_upsert(e.drop_first(), p, st)
    }
}

/// `e` without the entry at `p`.
pub open spec fn srv_remove(e: Seq<(Seq<char>, StoredModel)>, p: Seq<char>) -> Seq<
    (Seq<char>, StoredModel),
>
    decreases e.len(),
{
    if e.len() == 0 {
        e
    } else if e[0].0 == p {
        e.drop_first()
    } else {
        seq![e[0]] + srv_remove(e.drop_first(), p)
    }
}

/// `e` without every entry below `parent`.
pub open spec fn srv_remove_descendants(
    e: Seq<(Seq<char>, StoredModel)>,
    parent: Seq<char>,
) -> Seq<(Seq<char>, StoredModel)>
    decreases e.len(),
{
    if e.len() == 0 {
        e
    } else if is_descendant_path(e[0].0, parent) {
        srv_remove_descendants(e.drop_first(), parent)
    } else {
        seq![e[0]] + srv_remove_descendants(e.drop_first(), parent)
    }
}

/// The identifiers of the members directly below `parent`, in storage order.
pub open spec fn srv_children(e: Seq<(Seq<char>, StoredModel)>, parent: Seq<char>) -> Seq<
    Seq<char>,
>
    decreases e.len(),
{
    if e.len() == 0 {
        Seq::empty()
    } else if is_direct_child(e[0].0, parent) {
        seq![child_id(e[0].0, parent)] + srv_children(e.drop_first(), parent)
    } else {
        srv_children(e.drop_first(), parent)
    }
}

/// Well-formedness of the store: keys are unique and every stored timestamp
/// lies strictly below the clock.
pub open spec fn srv_wf(m: ServerModel) -> bool {
    &&& forall|i: int, j: int| 0 <= i < j < m.entries.len() ==> m.entries[i].0 != m.entries[j].0
    &&& forall|i: int|
        0 <= i < m.entries.len() ==> #[trigger] m.entries[i].1.timestamp < m.clock
}

/// Looking up after an upsert sees the new value at its key and the old
/// values elsewhere.
pub broadcast proof fn lemma_srv_upsert_lookup(
    e: Seq<(Seq<char>, StoredModel)>,
    p: Seq<char>,
    st: StoredModel,
    q: Seq<char>,
)
    ensures
        #[trigger] srv_lookup(srv_upsert(e, p, st), q) == (if q == p {
            Some(st)
        } else {
            srv_lookup(e, q)
        }),
    decreases e.len(),
{
    reveal_with_fuel(srv_lookup, 3);
    if e.len() == 0 {
    } else if e[0].0 == p {
        assert(srv_upsert(e, p, st)[0] == (p, st));
        assert(srv_upsert(e, p, st).drop_first() =~= e.drop_first());
    } else {
        lemma_srv_upsert_lookup(e.drop_first(), p, st, q);
        assert(srv_upsert(e, p, st)[0] == e[0]);
        assert(srv_upsert(e, p, st).drop_first() =~= srv_upsert(e.drop_first(), p, st));
    }
}

/// Looking up after a removal sees nothing at the removed key and the old
/// values elsewhere.
pub broadcast proof fn lemma_srv_remove_lookup(
    e: Seq<(Seq<char>, StoredModel)>,
    p: Seq<char>,
    q: Seq<char>,
)
    requires
        forall|i: int, j: int| 0 <= i < j < e.len() ==> e[i].0 != e[j].0,
    ensures
        #[trigger] srv_lookup(srv_remove(e, p), q) == (if q == p {
            None::<StoredModel>
        } else {
            srv_lookup(e, q)
        }),
    decreases e.len(),
{
    reveal_with_fuel(srv_lookup, 3);
    if e.len() == 0 {
    } else if e[0].0 == p {
        if q == p {
            assert(forall|i: int|
                0 <= i < e.drop_first().len() ==> e.drop_first()[i] == e[i + 1]);
            lemma_srv_lookup_none(e.drop_first(), p);
        }
    } else {
        assert(forall|i: int, j: int|
            0 <= i < j < e.drop_first().len() ==> e.drop_first()[i].0 != e.drop_first()[j].0);
        lemma_srv_remove_lookup(e.drop_first(), p, q);
        assert(srv_remove(e, p)[0] == e[0]);
        assert(srv_remove(e, p).drop_first() =~= srv_remove(e.drop_first(), p));
    }
}

proof fn lemma_srv_lookup_none(e: Seq<(Seq<char>, StoredModel)>, p: Seq<char>)
    requires
        forall|i: int| 0 <= i < e.len() ==> e[i].0 != p,
    ensures
        srv_lookup(e, p) is None,
    decreases e.len(),
{
    if e.len() > 0 {
        lemma_srv_lookup_none(e.drop_first(), p);
    }
}

proof fn lemma_srv_lookup_found(e: Seq<(Seq<char>, StoredModel)>, p: Seq<char>, i: int)
    requires
        0 <= i < e.len(),
        forall|j: int| 0 <= j < i ==> e[j].0 != p,
        e[i].0 == p,
    ensures
        srv_lookup(e, p) == Some(e[i].1),
    decreases i,
{
    if i > 0 {
        lemma_srv_lookup_found(e.drop_first(), p, i - 1);
    }
}

proof fn lemma_srv_lookup_some_of_key(e: Seq<(Seq<char>, StoredModel)>, p: Seq<char>, i: int)
    requires
        0 <= i < e.len(),
        e[i].0 == p,
    ensures
        srv_lookup(e, p) is Some,
    decreases i,
{
    if e[0].0 != p {
        lemma_srv_lookup_some_of_key(e.drop_first(), p, i - 1);
    }
}

proof fn lemma_srv_upsert_found(
    e: Seq<(Seq<char>, StoredModel)>,
    p: Seq<char>,
    st: StoredModel,
    i: int,
)
    requires
        0 <= i < e.len(),
        forall|j: int| 0 <= j < i ==> e[j].0 != p,
        e[i].0 == p,
    ensures
        srv_upsert(e, p, st) =~= e.update(i, (p, st)),
    decreases i,
{
    if i == 0 {
        assert(srv_upsert(e, p, st) =~= e.update(0, (p, st)));
    } else {
        lemma_srv_upsert_found(e.drop_first(), p, st, i - 1);
        assert(srv_upsert(e, p, st) =~= e.update(i, (p, st)));
    }
}

proof fn lemma_srv_upsert_append(e: Seq<(Seq<char>, StoredModel)>, p: Seq<char>, st: StoredModel)
    requires
        forall|i: int| 0 <= i < e.len() ==> e[i].0 != p,
    ensures
        srv_upsert(e, p, st) =~= e.push((p, st)),
    decreases e.len(),
{
    if e.len() == 0 {
        assert(srv_upsert(e, p, st) =~= e.push((p, st)));
    } else {
        lemma_srv_upsert_append(e.drop_first(), p, st);
        assert(srv_upsert(e, p, st) =~= e.push((p, st)));
    }
}

proof fn lemma_srv_remove_found(e: Seq<(Seq<char>, StoredModel)>, p: Seq<char>, i: int)
    requires
        0 <= i < e.len(),
        forall|j: int| 0 <= j < i ==> e[j].0 != p,
        e[i].0 == p,
    ensures
        srv_remove(e, p) =~= e.remove(i),
    decreases i,
{
    if i == 0 {
        assert(srv_remove(e, p) =~= e.remove(0));
    } else {
        lemma_srv_remove_found(e.drop_first(), p, i - 1);
        assert(srv_remove(e, p) =~= e.remove(i));
    }
}

/// Removing the descendants keeps a selection of the old entries, with the
/// old keys still unique.
pub proof fn lemma_srv_remove_descendants_props(
    e: Seq<(Seq<char>, StoredModel)>,
    parent: Seq<char>,
)
    requires
        forall|i: int, j: int| 0 <= i < j < e.len() ==> e[i].0 != e[j].0,
    ensures
        forall|k: int|
            0 <= k < srv_remove_descendants(e, parent).len() ==> e.contains(
                #[trigger] srv_remove_descendants(e, parent)[k],
            ),
        forall|i: int, j: int|
            0 <= i < j < srv_remove_descendants(e, parent).len() ==> srv_remove_descendants(
                e,
                parent,
            )[i].0 != srv_remove_descendants(e, parent)[j].0,
    decreases e.len(),
{
    if e.len() > 0 {
        let t = e.drop_first();
        assert(forall|i: int| 0 <= i < t.len() ==> t[i] == e[i + 1]);
        lemma_srv_remove_descendants_props(t, parent);
        let r = srv_remove_descendants(e, parent);
        let rt = srv_remove_descendants(t, parent);
        assert(forall|k: int| 0 <= k < rt.len() ==> e.contains(#[trigger] rt[k])) by {
            assert(forall|k: int| 0 <= k < rt.len() ==> t.contains(#[trigger] rt[k]));
            assert(forall|m: int| 0 <= m < t.len() ==> e.contains(#[trigger] t[m]));
            assert(forall|k: int|
                0 <= k < rt.len() ==> exists|m: int| 0 <= m < t.len() && t[m] == #[trigger] rt[k]);
        }
        if !is_descendant_path(e[0].0, parent) {
            assert(r[0] == e[0]);
            assert(r.drop_first() =~= rt);
            assert(forall|k: int| 0 <= k < rt.len() ==> t.contains(#[trigger] rt[k]));
            assert forall|i: int, j: int| 0 <= i < j < r.len() implies r[i].0 != r[j].0 by {
                if i == 0 {
                    let x = r[j];
                    assert(rt[j - 1] == x);
                    assert(t.contains(x));
                    let m = choose|m: int| 0 <= m < t.len() && t[m] == x;
                    assert(e[m + 1] == x);
                }
            }
        }
    }
}

/// Adding one entry at the end: the member list grows by the new identifier
/// exactly when the new key lies directly below `parent`.
pub proof fn lemma_srv_children_push(
    e: Seq<(Seq<char>, StoredModel)>,
    x: (Seq<char>, StoredModel),
    parent: Seq<char>,
)
    ensures
        srv_children(e.push(x), parent) == (if is_direct_child(x.0, parent) {
            srv_children(e, parent).push(child_id(x.0, parent))
        } else {
            srv_children(e, parent)
        }),
    decreases e.len(),
{
    reveal_with_fuel(srv_children, 3);
    if e.len() == 0 {
        if is_direct_child(x.0, parent) {
            assert(srv_children(e.push(x), parent) =~= srv_children(e, parent).push(
                child_id(x.0, parent),
            ));
        } else {
            assert(srv_children(e.push(x), parent) =~= srv_children(e, parent));
        }
    } else {
        lemma_srv_children_push(e.drop_first(), x, parent);
        assert(e.push(x)[0] == e[0]);
        assert(e.push(x).drop_first() =~= e.drop_first().push(x));
        if is_direct_child(x.0, parent) {
            assert(srv_children(e.push(x), parent) =~= srv_children(e, parent).push(
                child_id(x.0, parent),
            ));
        }
    }
}

/// Adding one entry at the end: the surviving entries gain the new one
/// exactly when it does not lie below `parent`.
pub proof fn lemma_srv_remove_descendants_push(
    e: Seq<(Seq<char>, StoredModel)>,
    x: (Seq<char>, StoredModel),
    parent: Seq<char>,
)
    ensures
        srv_remove_descendants(e.push(x), parent) == (if is_descendant_path(x.0, parent) {
            srv_remove_descendants(e, parent)
        } else {
            srv_remove_descendants(e, parent).push(x)
        }),
    decreases e.len(),
{
    reveal_with_fuel(srv_remove_descendants, 3);
    if e.len() == 0 {
        if is_descendant_path(x.0, parent) {
            assert(srv_remove_descendants(e.push(x), parent) =~= srv_remove_descendants(
                e,
                parent,
            ));
        } else {
            assert(srv_remove_descendants(e.push(x), parent) =~= srv_remove_descendants(
                e,
                parent,
            ).push(x));
        }
    } else {
        lemma_srv_remove_descendants_push(e.drop_first(), x, parent);
        assert(e.push(x)[0] == e[0]);
        assert(e.push(x).drop_first() =~= e.drop_first().push(x));
        if !is_descendant_path(x.0, parent) {
            assert(srv_remove_descendants(e.push(x), parent) =~= srv_remove_descendants(
                e,
                parent,
            ).push(x));
        } else {
            assert(srv_remove_descendants(e.push(x), parent) =~= srv_remove_descendants(
                e,
                parent,
            ));
        }
    }
}

/// An upsert of a fresh key appends it, so the members of `parent` grow by
/// exactly that identifier; an upsert of an existing key keeps the member
/// list as it was.
pub proof fn lemma_srv_children_upsert(
    e: Seq<(Seq<char>, StoredModel)>,
    p: Seq<char>,
    st: StoredModel,
    parent: Seq<char>,
)
    ensures
        srv_lookup(e, p) is None && is_direct_child(p, parent) ==> srv_children(
            srv_upsert(e, p, st),
            parent,
        ) == srv_children(e, parent).push(child_id(p, parent)),
        srv_lookup(e, p) is None && !is_direct_child(p, parent) ==> srv_children(
            srv_upsert(e, p, st),
            parent,
        ) == srv_children(e, parent),
        srv_lookup(e, p) is Some ==> srv_children(srv_upsert(e, p, st), parent) == srv_children(
            e,
            parent,
        ),
    decreases e.len(),
{
    reveal_with_fuel(srv_children, 3);
    if e.len() == 0 {
        if is_direct_child(p, parent) {
            assert(srv_children(srv_upsert(e, p, st), parent) =~= srv_children(e, parent).push(
                child_id(p, parent),
            ));
        } else {
            assert(srv_children(srv_upsert(e, p, st), parent) =~= srv_children(e, parent));
        }
    } else if e[0].0 == p {
        assert(srv_upsert(e, p, st)[0] == (p, st));
        assert(srv_upsert(e, p, st).drop_first() =~= e.drop_first());
    } else {
        lemma_srv_children_upsert(e.drop_first(), p, st, parent);
        assert(srv_upsert(e, p, st)[0] == e[0]);
        assert(srv_upsert(e, p, st).drop_first() =~= srv_upsert(e.drop_first(), p, st));
        if srv_lookup(e, p) is None && is_direct_child(p, parent) && is_direct_child(
            e[0].0,
            parent,
        ) {
            assert(srv_children(srv_upsert(e, p, st), parent) =~= srv_children(e, parent).push(
                child_id(p, parent),
            ));
        }
    }
}

/// After every entry below `parent` is removed, `parent` has no members.
pub proof fn lemma_srv_children_remove_descendants(
    e: Seq<(Seq<char>, StoredModel)>,
    parent: Seq<char>,
)
    ensures
        srv_children(srv_remove_descendants(e, parent), parent) == Seq::<Seq<char>>::empty(),
    decreases e.len(),
{
    reveal_with_fuel(srv_children, 2);
    if e.len() > 0 {
        lemma_srv_children_remove_descendants(e.drop_first(), parent);
        if !is_descendant_path(e[0].0, parent) {
            crate::paths::lemma_direct_child_is_descendant(e[0].0, parent);
            assert(srv_remove_descendants(e, parent)[0] == e[0]);
            assert(srv_remove_descendants(e, parent).drop_first() =~= srv_remove_descendants(
                e.drop_first(),
                parent,
            ));
        }
    }
}

impl ServerState {
    /// A fresh, empty store.
    pub fn new() -> (s: ServerState)
        ensures
            s@.entries == Seq::<(Seq<char>, StoredModel)>::empty(),
            s@.clock == 1u64,
            srv_wf(s@),
    {
        let s = ServerState { entries: Vec::new(), clock: 1 };
        proof {
            assert(s@.entries =~= Seq::<(Seq<char>, StoredModel)>::empty());
        }
        s
    }

    /// Index of the entry stored at `path`.
    fn find(&self, path: &str) -> (r: Option<usize>)
        ensures
            (match r {
                Some(i) => (i as int) < self@.entries.len() && self@.entries[i as int].0 == path@
                    && (forall|j: int| 0 <= j < i ==> self@.entries[j].0 != path@) && srv_lookup(
                    self@.entries,
                    path@,
                ) == Some(self@.entries[i as int].1),
                None => srv_lookup(self@.entries, path@) is None,
            }),
    {
        let mut i: usize = 0;
        while i < self.entries.len()
            invariant
                i <= self.entries@.len(),
                forall|j: int| 0 <= j < i ==> self@.entries[j].0 != path@,
            decreases self.entries@.len() - i,
        {
            if crate::json::str_eq(self.entries[i].0.as_str(), path) {
                proof {
                    lemma_srv_lookup_found(self@.entries, path@, i as int);
                }
                return Some(i);
            }
            i += 1;
        }
        proof {
            lemma_srv_lookup_none(self@.entries, path@);
        }
        None
    }

    /// The resource stored at `path`: its document, its permissions and its
    /// timestamp, copied out.
    pub fn load_at(&self, path: &str) -> (r: Option<(JsonValue, JsonValue, u64)>)
        ensures
            (match r {
                Some(t) => srv_lookup(self@.entries, path@) == Some(
                    StoredModel {
                        data: t.0.deep_view(),
                        permissions: t.1.deep_view(),
                        timestamp: t.2,
                    },
                ),
                None => srv_lookup(self@.entries, path@) is None,
            }),
    {
        match self.find(path) {
            Some(i) => {
                let e = &self.entries[i].1;
                Some((e.data.clone(), e.permissions.clone(), e.timestamp))
            },
            None => None,
        }
    }

    /// Stores a resource at `path`, replacing what was there; the stored
    /// timestamp is the old clock, and the clock advances past it.
    pub fn store_at(&mut self, path: &str, data: JsonValue, permissions: JsonValue)
        requires
            srv_wf(old(self)@),
            old(self)@.clock < u64::MAX,
        ensures
            final(self)@.entries == srv_upsert(
                old(self)@.entries,
                path@,
                StoredModel {
                    data: data.deep_view(),
                    permissions: permissions.deep_view(),
                    timestamp: old(self)@.clock,
                },
            ),
            final(self)@.clock == old(self)@.clock + 1,
            srv_wf(final(self)@),
    {
        let ghost st = StoredModel {
            data: data.deep_view(),
            permissions: permissions.deep_view(),
            timestamp: self@.clock,
        };
        let stored = StoredResource { data, permissions, timestamp: self.clock };
        let idx = self.find(path);
        match idx {
            Some(i) => {
                let ghost iw = i as int;
                let k = path.to_owned();
                self.entries[i] = (k, stored);
                self.clock = self.clock + 1;
                proof {
                    lemma_srv_upsert_found(old(self)@.entries, path@, st, iw);
                    assert(self@.entries =~= old(self)@.entries.update(iw, (path@, st)));
                }
            },
            None => {
                let k = path.to_owned();
                self.entries.push((k, stored));
                self.clock = self.clock + 1;
                proof {
                    assert forall|j: int|
                        0 <= j < old(self)@.entries.len() implies old(self)@.entries[j].0
                        != path@ by {
                        if old(self)@.entries[j].0 == path@ {
                            lemma_srv_lookup_some_of_key(old(self)@.entries, path@, j);
                        }
                    }
                    lemma_srv_upsert_append(old(self)@.entries, path@, st);
                    assert(self@.entries =~= old(self)@.entries.push((path@, st)));
                }
            },
        }
    }

    /// Removes the entry at `path`; reports whether one was there.
    pub fn remove_at(&mut self, path: &str) -> (r: bool)
        requires
            srv_wf(old(self)@),
        ensures
            r == (srv_lookup(old(self)@.entries, path@) is Some),
            final(self)@.entries == srv_remove(old(self)@.entries, path@),
            final(self)@.clock == old(self)@.clock,
            srv_wf(final(self)@),
    {
        let idx = self.find(path);
        match idx {
            Some(i) => {
                self.entries.remove(i);
                proof {
                    lemma_srv_remove_found(old(self)@.entries, path@, i as int);
                    assert(self@.entries =~= old(self)@.entries.remove(i as int));
                }
                true
            },
            None => {
                proof {
                    lemma_srv_remove_none(old(self)@.entries, path@);
                }
                false
            },
        }
    }

    /// Removes every entry below `parent`.
    pub fn delete_below(&mut self, parent: &str)
        requires
            srv_wf(old(self)@),
        ensures
            final(self)@.entries == srv_remove_descendants(old(self)@.entries, parent@),
            final(self)@.clock == old(self)@.clock,
            srv_wf(final(self)@),
    {
        let mut kept: Vec<(String, StoredResource)> = Vec::new();
        let mut i: usize = 0;
        while i < self.entries.len()
            invariant
                i <= self.entries@.len(),
                Seq::new(kept@.len(), |k: int| (kept@[k].0@, kept@[k].1@))
                    =~= srv_remove_descendants(self@.entries.take(i as int), parent@),
            decreases self.entries@.len() - i,
        {
            proof {
                assert(self@.entries.take(i + 1) =~= self@.entries.take(i as int).push(
                    self@.entries[i as int],
                ));
                lemma_srv_remove_descendants_push(
                    self@.entries.take(i as int),
                    self@.entries[i as int],
                    parent@,
                );
            }
            let keep = !is_below(self.entries[i].0.as_str(), parent);
            if keep {
                let k = self.entries[i].0.clone();
                let d = self.entries[i].1.data.clone();
                let p = self.entries[i].1.permissions.clone();
                let t = self.entries[i].1.timestamp;
                kept.push((k, StoredResource { data: d, permissions: p, timestamp: t }));
                proof {
                    assert(Seq::new(kept@.len(), |k: int| (kept@[k].0@, kept@[k].1@))
                        =~= srv_remove_descendants(self@.entries.take(i + 1), parent@));
                }
            }
            i += 1;
        }
        proof {
            assert(self@.entries.take(self@.entries.len() as int) =~= self@.entries);
        }
        self.entries = kept;
        proof {
            lemma_srv_remove_descendants_props(old(self)@.entries, parent@);
            assert(srv_wf(self@)) by {
                let r = srv_remove_descendants(old(self)@.entries, parent@);
                assert forall|x: int|
                    0 <= x < r.len() implies #[trigger] r[x].1.timestamp < self@.clock by {
                    assert(old(self)@.entries.contains(r[x]));
                    let m = choose|m: int|
                        0 <= m < old(self)@.entries.len() && old(self)@.entries[m] == r[x];
                }
            }
        }
    }

    /// The identifiers of the members directly below `parent`, in storage
    /// order.
    pub fn children_of(&self, parent: &str) -> (ids: Vec<String>)
        ensures
            ids.deep_view() == srv_children(self@.entries, parent@),
    {
        let mut ids: Vec<String> = Vec::new();
        let mut i: usize = 0;
        while i < self.entries.len()
            invariant
                i <= self.entries@.len(),
                ids.deep_view() =~= srv_children(self@.entries.take(i as int), parent@),
            decreases self.entries@.len() - i,
        {
            proof {
                assert(self@.entries.take(i + 1) =~= self@.entries.take(i as int).push(
                    self@.entries[i as int],
                ));
                lemma_srv_children_push(
                    self@.entries.take(i as int),
                    self@.entries[i as int],
                    parent@,
                );
            }
            match child_id_of(self.entries[i].0.as_str(), parent) {
                Some(id) => {
                    ids.push(id);
                    proof {
                        assert(ids.deep_view() =~= srv_children(
                            self@.entries.take(i + 1),
                            parent@,
                        ));
                    }
                },
                None => {},
            }
            i += 1;
        }
        proof {
            assert(self@.entries.take(self@.entries.len() as int) =~= self@.entries);
        }
        ids
    }

    /// The clock that the next write will stamp.
    pub fn peek_clock(&self) -> (c: u64)
        ensures
            c == self@.clock,
    {
        self.clock
    }
}

pub proof fn lemma_srv_remove_none(e: Seq<(Seq<char>, StoredModel)>, p: Seq<char>)
    requires
        srv_lookup(e, p) is None,
    ensures
        srv_remove(e, p) =~= e,
    decreases e.len(),
{
    if e.len() > 0 {
        lemma_srv_remove_none(e.drop_first(), p);
        assert(srv_remove(e, p) =~= e);
    }
}

/// What the store looks up respects the clock bound of a well-formed store.
pub proof fn lemma_srv_lookup_ts_bound(m: ServerModel, p: Seq<char>)
    requires
        srv_wf(m),
    ensures
        (match srv_lookup(m.entries, p) {
            Some(st) => st.timestamp < m.clock,
            None => true,
        }),
{
    lemma_lookup_ts(m.entries, p, m.clock);
}

proof fn lemma_lookup_ts(e: Seq<(Seq<char>, StoredModel)>, p: Seq<char>, clock: u64)
    requires
        forall|i: int| 0 <= i < e.len() ==> #[trigger] e[i].1.timestamp < clock,
    ensures
        (match srv_lookup(e, p) {
            Some(st) => st.timestamp < clock,
            None => true,
        }),
    decreases e.len(),
{
    if e.len() > 0 && e[0].0 != p {
        assert(forall|i: int| 0 <= i < e.drop_first().len() ==> e.drop_first()[i] == e[i + 1]);
        lemma_lookup_ts(e.drop_first(), p, clock);
    }
}

/// The empty JSON object.
pub open spec fn empty_obj() -> JsonModel {
    JsonModel::Object(Seq::empty())
}

/// The document inside a request body, or the empty object.
pub open spec fn data_of_body(body: Option<JsonModel>) -> JsonModel {
    match body {
        Some(b) => match jv_get(b, "data"@) {
            Some(d) => d,
            None => empty_obj(),
        },
        None => empty_obj(),
    }
}

/// The permissions inside a request body, or the empty object.
pub open spec fn perms_of_body(body: Option<JsonModel>) -> JsonModel {
    match body {
        Some(b) => match jv_get(b, "permissions"@) {
            Some(p) => p,
            None => empty_obj(),
        },
        None => empty_obj(),
    }
}

/// A document stamped with its revision timestamp.
pub open spec fn with_ts(d: JsonModel, ts: u64) -> JsonModel {
    jv_set(d, "last_modified"@, JsonModel::Num(ts))
}

/// The decimal digit characters.
pub open spec fn digit_char(d: u64) -> char {
    if d == 0 {
        '0'
    } else if d == 1 {
        '1'
    } else if d == 2 {
        '2'
    } else if d == 3 {
        '3'
    } else if d == 4 {
        '4'
    } else if d == 5 {
        '5'
    } else if d == 6 {
        '6'
    } else if d == 7 {
        '7'
    } else if d == 8 {
        '8'
    } else {
        '9'
    }
}

/// The decimal digits of `n`, most significant first.
pub open spec fn dec_digits(n: u64) -> Seq<char>
    decreases n,
{
    if n < 10 {
        seq![digit_char(n)]
    } else {
        dec_digits(n / 10).push(digit_char(n % 10))
    }
}

/// The identifier the store assigns when a creation names none.
pub open spec fn gen_id(c: u64) -> Seq<char> {
    "id"@ + dec_digits(c)
}

/// A generated identifier never contains a path separator.
pub proof fn lemma_gen_id_slash_free(c: u64)
    ensures
        slash_free(gen_id(c)),
        gen_id(c).len() >= 3,
{
    reveal_strlit("id");
    lemma_dec_digits_slash_free(c);
}

proof fn lemma_dec_digits_slash_free(c: u64)
    ensures
        slash_free(dec_digits(c)),
        dec_digits(c).len() >= 1,
    decreases c,
{
    if c >= 10 {
        lemma_dec_digits_slash_free(c / 10);
    }
}

/// The identifier a creation uses: the one named in the document, or a
/// generated one.
pub open spec fn created_id(body: Option<JsonModel>, clock: u64) -> Seq<char> {
    match jv_get(data_of_body(body), "id"@) {
        Some(JsonModel::Str(s)) => s,
        _ => gen_id(clock),
    }
}

/// What a replacement stores: the sent document stamped with the revision.
pub open spec fn stored_put(body: Option<JsonModel>, clock: u64) -> StoredModel {
    StoredModel {
        data: with_ts(data_of_body(body), clock),
        permissions: perms_of_body(body),
        timestamp: clock,
    }
}

/// What a creation stores: as a replacement, with the identifier written
/// into the document.
pub open spec fn stored_post(body: Option<JsonModel>, id: Seq<char>, clock: u64) -> StoredModel {
    StoredModel {
        data: with_ts(jv_set(data_of_body(body), "id"@, JsonModel::Str(id)), clock),
        permissions: perms_of_body(body),
        timestamp: clock,
    }
}

/// The body of a singular success answer.
pub open spec fn envelope_body(d: JsonModel, p: JsonModel) -> JsonModel {
    jv_set(jv_set(empty_obj(), "data"@, d), "permissions"@, p)
}

/// The body of a singular success answer, for a stored resource.
pub open spec fn envelope_of(st: StoredModel) -> JsonModel {
    envelope_body(st.data, st.permissions)
}

/// The member stubs of a list answer: one `{"id": ...}` object per member.
pub open spec fn id_objs(ids: Seq<Seq<char>>) -> Seq<JsonModel> {
    Seq::new(ids.len(), |i: int| JsonModel::Object(seq![("id"@, JsonModel::Str(ids[i]))]))
}

/// The body of a list answer.
pub open spec fn list_body(ids: Seq<Seq<char>>) -> JsonModel {
    jv_set(empty_obj(), "data"@, JsonModel::Array(id_objs(ids)))
}

/// The body of a deletion answer.
pub open spec fn deleted_body() -> JsonModel {
    jv_set(empty_obj(), "data"@, jv_set(empty_obj(), "deleted"@, JsonModel::Bool(true)))
}

/// The timestamp of a stored resource, if one is stored.
pub open spec fn cur_ts(o: Option<StoredModel>) -> Option<u64> {
    match o {
        Some(st) => Some(st.timestamp),
        None => None,
    }
}

/// Whether a conditional read finds nothing new: its revision condition
/// matches the stored revision.
pub open spec fn not_modified(ts: u64, inm: Option<ETagMatch>) -> bool {
    match inm {
        Some(ETagMatch::Any) => true,
        Some(ETagMatch::Token(t)) => ts == t,
        None => false,
    }
}

/// The status a conditional replacement fails with, if it fails: a missing
/// resource is not found; a failed revision condition is a lost race.
pub open spec fn put_code_spec(
    ts: Option<u64>,
    im: Option<ETagMatch>,
    inm: Option<ETagMatch>,
) -> Option<u16> {
    match im {
        Some(ETagMatch::Token(t)) => match ts {
            None => Some(404u16),
            Some(cur) => if cur != t {
                Some(412u16)
            } else {
                inm_code_spec(ts, inm)
            },
        },
        Some(ETagMatch::Any) => match ts {
            None => Some(404u16),
            Some(_) => inm_code_spec(ts, inm),
        },
        None => inm_code_spec(ts, inm),
    }
}

/// The status a failed `If-None-Match` condition gives.
pub open spec fn inm_code_spec(ts: Option<u64>, inm: Option<ETagMatch>) -> Option<u16> {
    match inm {
        Some(ETagMatch::Any) => if ts is Some {
            Some(412u16)
        } else {
            None
        },
        Some(ETagMatch::Token(t)) => if ts == Some(t) {
            Some(412u16)
        } else {
            None
        },
        None => None,
    }
}

/// One protocol exchange: the store after the request, the status, and the
/// answer body when one is produced. This is the single description of the
/// server's behaviour that every operation contract builds on.
pub open spec fn step(req: RequestModel, m: ServerModel) -> (ServerModel, u16, Option<JsonModel>) {
    if req.plural {
        match req.method {
            Method::Get => (m, 200u16, Some(list_body(srv_children(m.entries, req.path)))),
            Method::Delete => (
                ServerModel { entries: srv_remove_descendants(m.entries, req.path), clock: m.clock },
                200u16,
                Some(list_body(Seq::empty())),
            ),
            Method::Post => {
                let id = created_id(req.body, m.clock);
                let key = child_path(req.path, id);
                if srv_lookup(m.entries, key) is Some {
                    (m, 403u16, None)
                } else {
                    let st = stored_post(req.body, id, m.clock);
                    (
                        ServerModel {
                            entries: srv_upsert(m.entries, key, st),
                            clock: (m.clock + 1) as u64,
                        },
                        201u16,
                        Some(envelope_of(st)),
                    )
                }
            },
            _ => (m, 405u16, None),
        }
    } else {
        match req.method {
            Method::Get => match srv_lookup(m.entries, req.path) {
                Some(st) => if not_modified(st.timestamp, req.if_none_match) {
                    (m, 304u16, None)
                } else {
                    (m, 200u16, Some(envelope_of(st)))
                },
                None => (m, 404u16, None),
            },
            Method::Put => match put_code_spec(
                cur_ts(srv_lookup(m.entries, req.path)),
                req.if_match,
                req.if_none_match,
            ) {
                Some(code) => (m, code, None),
                None => {
                    let st = stored_put(req.body, m.clock);
                    (
                        ServerModel {
                            entries: srv_upsert(m.entries, req.path, st),
                            clock: (m.clock + 1) as u64,
                        },
                        200u16,
                        Some(envelope_of(st)),
                    )
                },
            },
            Method::Patch => {
                if srv_lookup(m.entries, req.path) is None {
                    (m, 404u16, None)
                } else {
                    match put_code_spec(
                        cur_ts(srv_lookup(m.entries, req.path)),
                        req.if_match,
                        req.if_none_match,
                    ) {
                        Some(code) => (m, code, None),
                        None => {
                            let st = stored_put(req.body, m.clock);
                            (
                                ServerModel {
                                    entries: srv_upsert(m.entries, req.path, st),
                                    clock: (m.clock + 1) as u64,
                                },
                                200u16,
                                Some(envelope_of(st)),
                            )
                        },
                    }
                }
            },
            Method::Delete => match srv_lookup(m.entries, req.path) {
                Some(_) => (
                    ServerModel { entries: srv_remove(m.entries, req.path), clock: m.clock },
                    200u16,
                    Some(deleted_body()),
                ),
                None => (m, 404u16, None),
            },
            Method::Post => (m, 405u16, None),
        }
    }
}

/// Every status that [`step`] answers without a body is an error status;
/// whenever the classification accepts the status, a body is there.
pub proof fn lemma_step_success_has_body(req: RequestModel, m: ServerModel)
    ensures
        crate::request::classify_spec(step(req, m).1) is None ==> step(req, m).2 is Some,
{
}

fn digit_slice(d: u64) -> (s: &'static str)
    requires
        d < 10,
    ensures
        s@ == seq![digit_char(d)],
{
    let s: &'static str = if d == 0 {
        "0"
    } else if d == 1 {
        "1"
    } else if d == 2 {
        "2"
    } else if d == 3 {
        "3"
    } else if d == 4 {
        "4"
    } else if d == 5 {
        "5"
    } else if d == 6 {
        "6"
    } else if d == 7 {
        "7"
    } else if d == 8 {
        "8"
    } else {
        "9"
    };
    proof {
        reveal_strlit("0");
        reveal_strlit("1");
        reveal_strlit("2");
        reveal_strlit("3");
        reveal_strlit("4");
        reveal_strlit("5");
        reveal_strlit("6");
        reveal_strlit("7");
        reveal_strlit("8");
        reveal_strlit("9");
        assert(s@ =~= seq![digit_char(d)]);
    }
    s
}

fn u64_to_dec(n: u64) -> (s: String)
    ensures
        s@ == dec_digits(n),
    decreases n,
{
    if n < 10 {
        digit_slice(n).to_owned()
    } else {
        let q = u64_to_dec(n / 10);
        let s = q.concat(digit_slice(n % 10));
        proof {
            assert(s@ =~= dec_digits(n));
        }
        s
    }
}

fn gen_id_exec(c: u64) -> (s: String)
    ensures
        s@ == gen_id(c),
{
    String::from_str("id").concat(u64_to_dec(c).as_str())
}

/// The document named in a request body, copied out.
fn body_data(p: &RequestPreparer) -> (d: JsonValue)
    ensures
        d.deep_view() == data_of_body(p@.body),
{
    match &p.body {
        Some(b) => match b.get("data") {
            Some(d) => d.clone(),
            None => JsonValue::new_object(),
        },
        None => JsonValue::new_object(),
    }
}

/// The permissions named in a request body, copied out.
fn body_perms(p: &RequestPreparer) -> (d: JsonValue)
    ensures
        d.deep_view() == perms_of_body(p@.body),
{
    match &p.body {
        Some(b) => match b.get("permissions") {
            Some(d) => d.clone(),
            None => JsonValue::new_object(),
        },
        None => JsonValue::new_object(),
    }
}

/// The identifier named in a document, if any.
fn id_of_data(d: &JsonValue) -> (r: Option<String>)
    ensures
        (match r {
            Some(s) => jv_get(d.deep_view(), "id"@) == Some(JsonModel::Str(s@)),
            None => !(jv_get(d.deep_view(), "id"@) matches Some(JsonModel::Str(_))),
        }),
{
    match d.get("id") {
        Some(v) => v.as_string(),
        None => None,
    }
}

/// Builds the body of a singular success answer.
fn build_envelope(data: &JsonValue, perms: &JsonValue) -> (r: JsonValue)
    ensures
        r.deep_view() == envelope_body(data.deep_view(), perms.deep_view()),
{
    let mut o = JsonValue::new_object();
    o.set("data", data.clone());
    o.set("permissions", perms.clone());
    o
}

/// Builds the body of a list answer.
fn build_list_body(ids: &Vec<String>) -> (r: JsonValue)
    ensures
        r.deep_view() == list_body(ids.deep_view()),
{
    let mut items: Vec<JsonValue> = Vec::new();
    let mut i: usize = 0;
    while i < ids.len()
        invariant
            i <= ids@.len(),
            items@.len() == i as int,
            forall|j: int|
                0 <= j < i ==> items@[j].deep_view() == id_objs(ids.deep_view())[j],
        decreases ids@.len() - i,
    {
        let mut o = JsonValue::new_object();
        o.set("id", JsonValue::Str(ids[i].clone()));
        items.push(o);
        i += 1;
    }
    let arr = JsonValue::Array(items);
    proof {
        crate::json::lemma_arr_model(arr->Array_0@);
        assert(crate::json::arr_model(arr->Array_0@) =~= id_objs(ids.deep_view()));
    }
    let mut body = JsonValue::new_object();
    body.set("data", arr);
    body
}

/// Builds the body of a deletion answer.
fn build_deleted_body() -> (r: JsonValue)
    ensures
        r.deep_view() == deleted_body(),
{
    let mut inner = JsonValue::new_object();
    inner.set("deleted", JsonValue::Bool(true));
    let mut body = JsonValue::new_object();
    body.set("data", inner);
    body
}

/// Decides a conditional replacement exactly as [`put_code_spec`] says.
fn put_code(ts: Option<u64>, im: Option<ETagMatch>, inm: Option<ETagMatch>) -> (r: Option<u16>)
    ensures
        r == put_code_spec(ts, im, inm),
{
    match im {
        Some(ETagMatch::Token(t)) => match ts {
            None => Some(404),
            Some(cur) => if cur != t {
                Some(412)
            } else {
                inm_code(ts, inm)
            },
        },
        Some(ETagMatch::Any) => match ts {
            None => Some(404),
            Some(_) => inm_code(ts, inm),
        },
        None => inm_code(ts, inm),
    }
}

fn inm_code(ts: Option<u64>, inm: Option<ETagMatch>) -> (r: Option<u16>)
    ensures
        r == inm_code_spec(ts, inm),
{
    match inm {
        Some(ETagMatch::Any) => match ts {
            Some(_) => Some(412),
            None => None,
        },
        Some(ETagMatch::Token(t)) => match ts {
            Some(cur) => if cur == t {
                Some(412)
            } else {
                None
            },
            None => None,
        },
        None => None,
    }
}

impl ServerState {
    /// Whether a resource is stored at `path`.
    pub fn contains_at(&self, path: &str) -> (r: bool)
        ensures
            r == (srv_lookup(self@.entries, path@) is Some),
    {
        match self.find(path) {
            Some(_) => true,
            None => false,
        }
    }

    /// The stored timestamp at `path`, if a resource is there.
    pub fn timestamp_at(&self, path: &str) -> (r: Option<u64>)
        ensures
            r == cur_ts(srv_lookup(self@.entries, path@)),
    {
        match self.find(path) {
            Some(i) => Some(self.entries[i].1.timestamp),
            None => None,
        }
    }

    /// Performs one protocol exchange, exactly as [`step`] describes it.
    pub fn handle(&mut self, p: &RequestPreparer) -> (r: (u16, Option<JsonValue>))
        requires
            srv_wf(old(self)@),
            old(self)@.clock < u64::MAX,
        ensures
            srv_wf(final(self)@),
            final(self)@ == step(p@, old(self)@).0,
            r.0 == step(p@, old(self)@).1,
            (match r.1 {
                Some(v) => step(p@, old(self)@).2 == Some(v.deep_view()),
                None => step(p@, old(self)@).2 is None,
            }),
    {
        if p.plural {
            match p.method {
                Method::Get => {
                    let ids = self.children_of(p.path.as_str());
                    let body = build_list_body(&ids);
                    (200, Some(body))
                },
                Method::Delete => {
                    self.delete_below(p.path.as_str());
                    let empty_ids: Vec<String> = Vec::new();
                    proof {
                        assert(empty_ids.deep_view() =~= Seq::<Seq<char>>::empty());
                    }
                    let body = build_list_body(&empty_ids);
                    (200, Some(body))
                },
                Method::Post => {
                    let data0 = body_data(p);
                    let perms0 = body_perms(p);
                    let id: String = match id_of_data(&data0) {
                        Some(s) => s,
                        None => gen_id_exec(self.peek_clock()),
                    };
                    let key = join_path(p.path.as_str(), id.as_str());
                    if self.contains_at(key.as_str()) {
                        (403, None)
                    } else {
                        let mut d = data0;
                        d.set("id", JsonValue::Str(id));
                        let ts = self.peek_clock();
                        d.set("last_modified", JsonValue::Num(ts));
                        let env = build_envelope(&d, &perms0);
                        self.store_at(key.as_str(), d, perms0);
                        (201, Some(env))
                    }
                },
                _ => (405, None),
            }
        } else {
            match p.method {
                Method::Get => {
                    match self.load_at(p.path.as_str()) {
                        Some(t) => {
                            let nm = match p.if_none_match {
                                Some(ETagMatch::Any) => true,
                                Some(ETagMatch::Token(tok)) => t.2 == tok,
                                None => false,
                            };
                            if nm {
                                (304, None)
                            } else {
                                let env = build_envelope(&t.0, &t.1);
                                (200, Some(env))
                            }
                        },
                        None => (404, None),
                    }
                },
                Method::Put => {
                    let ts0 = self.timestamp_at(p.path.as_str());
                    match put_code(ts0, p.if_match, p.if_none_match) {
                        Some(code) => (code, None),
                        None => {
                            let mut d = body_data(p);
                            let perms0 = body_perms(p);
                            let ts = self.peek_clock();
                            d.set("last_modified", JsonValue::Num(ts));
                            let env = build_envelope(&d, &perms0);
                            self.store_at(p.path.as_str(), d, perms0);
                            (200, Some(env))
                        },
                    }
                },
                Method::Patch => {
                    let ts0 = self.timestamp_at(p.path.as_str());
                    match ts0 {
                        None => (404, None),
                        Some(_) => {
                            match put_code(ts0, p.if_match, p.if_none_match) {
                                Some(code) => (code, None),
                                None => {
                                    let mut d = body_data(p);
                                    let perms0 = body_perms(p);
                                    let ts = self.peek_clock();
                                    d.set("last_modified", JsonValue::Num(ts));
                                    let env = build_envelope(&d, &perms0);
                                    self.store_at(p.path.as_str(), d, perms0);
                                    (200, Some(env))
                                },
                            }
                        },
                    }
                },
                Method::Delete => {
                    let existed = self.remove_at(p.path.as_str());
                    if existed {
                        let body = build_deleted_body();
                        (200, Some(body))
                    } else {
                        proof {
                            lemma_srv_remove_none(old(self)@.entries, p@.path);
                            assert(self@.entries == old(self)@.entries);
                        }
                        (404, None)
                    }
                },
                Method::Post => (405, None),
            }
        }
    }
}

} // verus!
