//! Immutable schema snapshots and the cache that publishes them. A schema
//! change builds a new snapshot with the affected keyspace replaced whole;
//! readers keep whichever snapshot they took.
use vstd::prelude::*;
use std::sync::Arc;
use crate::schema::{KeyspaceMeta, Named, named_at, position_by_name};

verus! {

impl Named for Arc<KeyspaceMeta> {
    open spec fn key(&self) -> Seq<char> {
        self.name@
    }

    fn name_ref(&self) -> (r: &String) {
        &self.name
    }
}

/// Keyspace names are unique.
pub open spec fn unique_names(s: Seq<Arc<KeyspaceMeta>>) -> bool {
    forall|i: int, j: int|
        0 <= i < s.len() && 0 <= j < s.len() && i != j ==> #[trigger] s[i].name@ != #[trigger] s[j].name@
}

/// Every keyspace of `s` is well formed.
pub open spec fn all_wf(s: Seq<Arc<KeyspaceMeta>>) -> bool {
    forall|i: int| 0 <= i < s.len() ==> (#[trigger] s[i]).wf()
}

/// The keyspace of `s` named `name`, if any.
pub open spec fn lookup(s: Seq<Arc<KeyspaceMeta>>, name: Seq<char>) -> Option<Arc<KeyspaceMeta>> {
    if exists|i: int| 0 <= i < s.len() && #[trigger] s[i].name@ == name {
        let i = choose|i: int| 0 <= i < s.len() && #[trigger] s[i].name@ == name;
        Some(s[i])
    } else {
        None
    }
}

/// `s` with the keyspace named like `ks` replaced by `ks`, or `ks` added.
pub open spec fn replaced(s: Seq<Arc<KeyspaceMeta>>, ks: Arc<KeyspaceMeta>) -> Seq<Arc<KeyspaceMeta>> {
    if exists|i: int| 0 <= i < s.len() && #[trigger] s[i].name@ == ks.name@ {
        let i = choose|i: int| 0 <= i < s.len() && #[trigger] s[i].name@ == ks.name@;
        s.update(i, ks)
    } else {
        s.push(ks)
    }
}

/// `s` without the keyspace named `name`.
pub open spec fn dropped(s: Seq<Arc<KeyspaceMeta>>, name: Seq<char>) -> Seq<Arc<KeyspaceMeta>> {
    if exists|i: int| 0 <= i < s.len() && #[trigger] s[i].name@ == name {
        let i = choose|i: int| 0 <= i < s.len() && #[trigger] s[i].name@ == name;
        s.remove(i)
    } else {
        s
    }
}

/// A point-in-time view of the schema.
pub struct SchemaSnapshot {
    keyspaces: Vec<Arc<KeyspaceMeta>>,
}

impl View for SchemaSnapshot {
    type V = Seq<Arc<KeyspaceMeta>>;

    closed spec fn view(&self) -> Seq<Arc<KeyspaceMeta>> {
        self.keyspaces@
    }
}

/// A schema-change event, with the affected keyspace rebuilt in full.
pub enum SchemaChange {
    KeyspaceUpdated(Arc<KeyspaceMeta>),
    KeyspaceDropped(String),
}

proof fn lemma_unique_index(s: Seq<Arc<KeyspaceMeta>>, name: Seq<char>, i: int)
    requires
        unique_names(s),
        0 <= i < s.len(),
        s[i].name@ == name,
    ensures
        lookup(s, name) == Some(s[i]),
        replaced(s, s[i]) == s.update(i, s[i]),
        forall|ks: Arc<KeyspaceMeta>| ks.name@ == name ==> #[trigger] replaced(s, ks) == s.update(i, ks),
        dropped(s, name) == s.remove(i),
{
}

impl SchemaSnapshot {
    /// Keyspace names are unique and each keyspace is well formed.
    pub open spec fn wf(&self) -> bool {
        unique_names(self@) && all_wf(self@)
    }

    /// A snapshot with no keyspaces.
    pub fn empty() -> (r: SchemaSnapshot)
        ensures
            r.wf(),
            r@ == Seq::<Arc<KeyspaceMeta>>::empty(),
    {
        SchemaSnapshot { keyspaces: Vec::new() }
    }

    /// Number of keyspaces.
    pub fn len(&self) -> (r: usize)
        ensures
            r == self@.len(),
    {
        self.keyspaces.len()
    }

    /// The keyspace with the provided name.
    pub fn keyspace_by_name(&self, name: &str) -> (r: Option<Arc<KeyspaceMeta>>)
        requires
            self.wf(),
        ensures
            r == lookup(self@, name@),
    {
        let key: String = name.to_owned();
        match position_by_name(&self.keyspaces, &key) {
            Some(i) => {
                proof {
                    lemma_unique_index(self@, name@, i as int);
                }
                Some(self.keyspaces[i].clone())
            },
            None => None,
        }
    }

    /// A new snapshot in which `ks` replaces the keyspace of the same name, or
    /// is added; this snapshot is left as it was.
    pub fn with_keyspace(&self, ks: Arc<KeyspaceMeta>) -> (r: SchemaSnapshot)
        requires
            self.wf(),
            ks.wf(),
        ensures
            r.wf(),
            r@ == replaced(self@, ks),
    {
        let mut out: Vec<Arc<KeyspaceMeta>> = Vec::new();
        let mut found: bool = false;
        let mut i: usize = 0;
        while i < self.keyspaces.len()
            invariant
                self.wf(),
                i <= self@.len(),
                out@.len() == i,
                found <==> exists|j: int| 0 <= j < i && #[trigger] self@[j].name@ == ks.name@,
                forall|j: int| 0 <= j < i ==> #[trigger] out@[j] == if self@[j].name@ == ks.name@ {
                    ks
                } else {
                    self@[j]
                },
            decreases self@.len() - i,
        {
            if self.keyspaces[i].name == ks.name {
                out.push(ks.clone());
                found = true;
            } else {
                out.push(self.keyspaces[i].clone());
            }
            i = i + 1;
        }
        proof {
            if found {
                let j = choose|j: int| 0 <= j < self@.len() && #[trigger] self@[j].name@ == ks.name@;
                lemma_unique_index(self@, ks.name@, j);
                assert(out@ =~= self@.update(j, ks));
            }
        }
        if !found {
            out.push(ks);
            proof {
                assert(out@ =~= self@.push(ks));
            }
        }
        SchemaSnapshot { keyspaces: out }
    }

    /// A new snapshot without the keyspace named `name`; this snapshot is left
    /// as it was.
    pub fn without_keyspace(&self, name: &str) -> (r: SchemaSnapshot)
        requires
            self.wf(),
        ensures
            r.wf(),
            r@ == dropped(self@, name@),
    {
        let key: String = name.to_owned();
        let mut out: Vec<Arc<KeyspaceMeta>> = Vec::new();
        let ghost mut skipped: int = -1;
        let mut i: usize = 0;
        while i < self.keyspaces.len()
            invariant
                self.wf(),
                key@ == name@,
                i <= self@.len(),
                skipped == -1 ==> out@ == self@.subrange(0, i as int) && forall|j: int|
                    0 <= j < i ==> #[trigger] self@[j].name@ != name@,
                skipped != -1 ==> 0 <= skipped < i && self@[skipped].name@ == name@ && out@
                    == self@.subrange(0, i as int).remove(skipped),
            decreases self@.len() - i,
        {
            if self.keyspaces[i].name != key {
                out.push(self.keyspaces[i].clone());
                proof {
                    if skipped == -1 {
                        assert(out@ =~= self@.subrange(0, i + 1));
                    } else {
                        assert(out@ =~= self@.subrange(0, i + 1).remove(skipped));
                    }
                }
            } else {
                proof {
                    if skipped != -1 {
                        assert(self@[skipped].name@ == self@[i as int].name@);
                    }
                    skipped = i as int;
                    assert(out@ =~= self@.subrange(0, i + 1).remove(skipped));
                }
            }
            i = i + 1;
        }
        proof {
            assert(self@.subrange(0, self@.len() as int) =~= self@);
            if skipped != -1 {
                lemma_unique_index(self@, name@, skipped);
            }
        }
        SchemaSnapshot { keyspaces: out }
    }

    /// This snapshot after a schema change.
    pub fn apply(&self, change: SchemaChange) -> (r: SchemaSnapshot)
        requires
            self.wf(),
            change matches SchemaChange::KeyspaceUpdated(ks) ==> ks.wf(),
        ensures
            r.wf(),
            r@ == match change {
                SchemaChange::KeyspaceUpdated(ks) => replaced(self@, ks),
                SchemaChange::KeyspaceDropped(n) => dropped(self@, n@),
            },
    {
        match change {
            SchemaChange::KeyspaceUpdated(ks) => self.with_keyspace(ks),
            SchemaChange::KeyspaceDropped(n) => self.without_keyspace(n.as_str()),
        }
    }
}

/// The published schema: one snapshot at a time, swapped whole. Changes are
/// applied one after another, in the order they are handed in.
pub struct SchemaCache {
    current: Arc<SchemaSnapshot>,
}

impl SchemaCache {
    pub closed spec fn current(&self) -> SchemaSnapshot {
        *self.current
    }

    pub open spec fn wf(&self) -> bool {
        self.current().wf()
    }

    pub fn new() -> (r: SchemaCache)
        ensures
            r.wf(),
            r.current()@ == Seq::<Arc<KeyspaceMeta>>::empty(),
    {
        SchemaCache { current: Arc::new(SchemaSnapshot::empty()) }
    }

    /// The current snapshot; it stays valid, and unchanged, for as long as
    /// the caller holds it.
    pub fn schema(&self) -> (r: Arc<SchemaSnapshot>)
        ensures
            *r == self.current(),
    {
        self.current.clone()
    }

    /// Builds the snapshot that follows `change` and publishes it.
    pub fn publish(&mut self, change: SchemaChange)
        requires
            old(self).wf(),
            change matches SchemaChange::KeyspaceUpdated(ks) ==> ks.wf(),
        ensures
            final(self).wf(),
            final(self).current()@ == match change {
                SchemaChange::KeyspaceUpdated(ks) => replaced(old(self).current()@, ks),
                SchemaChange::KeyspaceDropped(n) => dropped(old(self).current()@, n@),
            },
    {
        let next = self.current.apply(change);
        self.current = Arc::new(next);
    }
}

/// A schema change never leaves a keyspace half-updated: after `ks` is
/// published, looking up its name gives `ks` whole, every other keyspace is
/// exactly as before, and names stay unique; the earlier snapshot is a
/// separate value that the change does not touch.
pub proof fn lemma_snapshot_swap(s: Seq<Arc<KeyspaceMeta>>, ks: Arc<KeyspaceMeta>, other: Seq<char>)
    requires
        unique_names(s),
        all_wf(s),
        ks.wf(),
        other != ks.name@,
    ensures
        unique_names(replaced(s, ks)),
        all_wf(replaced(s, ks)),
        lookup(replaced(s, ks), ks.name@) == Some(ks),
        lookup(replaced(s, ks), other) == lookup(s, other),
{
    let t = replaced(s, ks);
    if exists|i: int| 0 <= i < s.len() && #[trigger] s[i].name@ == ks.name@ {
        let i = choose|i: int| 0 <= i < s.len() && #[trigger] s[i].name@ == ks.name@;
        assert(t == s.update(i, ks));
        assert(t[i].name@ == ks.name@);
        lemma_unique_index(t, ks.name@, i);
        if exists|j: int| 0 <= j < s.len() && #[trigger] s[j].name@ == other {
            let j = choose|j: int| 0 <= j < s.len() && #[trigger] s[j].name@ == other;
            lemma_unique_index(s, other, j);
            assert(t[j] == s[j]);
            lemma_unique_index(t, other, j);
        } else {
            assert forall|j: int| 0 <= j < t.len() implies #[trigger] t[j].name@ != other by {
                if j != i { assert(t[j] == s[j]); }
            }
        }
    } else {
        assert(t == s.push(ks));
        let n = s.len() as int;
        assert(t[n] == ks);
        assert(unique_names(t)) by {
            assert forall|a: int, b: int|
                0 <= a < t.len() && 0 <= b < t.len() && a != b implies #[trigger] t[a].name@ != #[trigger] t[b].name@ by {
                if a < n && b < n {
                    assert(t[a] == s[a] && t[b] == s[b]);
                } else if a == n {
                    assert(t[b] == s[b]);
                } else {
                    assert(t[a] == s[a]);
                }
            }
        }
        lemma_unique_index(t, ks.name@, n);
        if exists|j: int| 0 <= j < s.len() && #[trigger] s[j].name@ == other {
            let j = choose|j: int| 0 <= j < s.len() && #[trigger] s[j].name@ == other;
            lemma_unique_index(s, other, j);
            assert(t[j] == s[j]);
            lemma_unique_index(t, other, j);
        } else {
            assert forall|j: int| 0 <= j < t.len() implies #[trigger] t[j].name@ != other by {
                if j < n { assert(t[j] == s[j]); }
            }
        }
    }
}

/// After a keyspace is published, looking it up gives the published keyspace,
/// and each of its user types is the only one of its name there, so a lookup
/// of that name gives that definition in full.
pub proof fn lemma_published_user_type(s: Seq<Arc<KeyspaceMeta>>, ks: Arc<KeyspaceMeta>, i: int)
    requires
        unique_names(s),
        ks.wf(),
        0 <= i < ks.user_types@.len(),
    ensures
        lookup(replaced(s, ks), ks.name@) == Some(ks),
        forall|j: int|
            #[trigger] named_at(ks.user_types@, ks.user_types@[i].name@, j) ==> j == i,
{
    let t = replaced(s, ks);
    if exists|k: int| 0 <= k < s.len() && #[trigger] s[k].name@ == ks.name@ {
        let k = choose|k: int| 0 <= k < s.len() && #[trigger] s[k].name@ == ks.name@;
        lemma_unique_index(s, ks.name@, k);
        assert(t[k].name@ == ks.name@);
        assert(unique_names(t)) by {
            assert forall|a: int, b: int|
                0 <= a < t.len() && 0 <= b < t.len() && a != b implies #[trigger] t[a].name@ != #[trigger] t[b].name@ by {
                if a != k && b != k {
                    assert(t[a] == s[a] && t[b] == s[b]);
                } else if a == k {
                    assert(t[b] == s[b]);
                } else {
                    assert(t[a] == s[a]);
                }
            }
        }
        lemma_unique_index(t, ks.name@, k);
    } else {
        let n = s.len() as int;
        assert(t[n] == ks);
        assert(unique_names(t)) by {
            assert forall|a: int, b: int|
                0 <= a < t.len() && 0 <= b < t.len() && a != b implies #[trigger] t[a].name@ != #[trigger] t[b].name@ by {
                if a < n && b < n {
                    assert(t[a] == s[a] && t[b] == s[b]);
                } else if a == n {
                    assert(t[b] == s[b]);
                } else {
                    assert(t[a] == s[a]);
                }
            }
        }
        lemma_unique_index(t, ks.name@, n);
    }
    assert forall|j: int| #[trigger] named_at(ks.user_types@, ks.user_types@[i].name@, j) implies j == i by {
        if j != i {
            assert(ks.user_types@[j].key() != ks.user_types@[i].key());
        }
    }
}

/// After a keyspace is dropped, no keyspace of that name is left.
pub proof fn lemma_dropped_keyspace(s: Seq<Arc<KeyspaceMeta>>, name: Seq<char>)
    requires
        unique_names(s),
    ensures
        lookup(dropped(s, name), name) is None,
{
    let t = dropped(s, name);
    if exists|k: int| 0 <= k < s.len() && #[trigger] s[k].name@ == name {
        let k = choose|k: int| 0 <= k < s.len() && #[trigger] s[k].name@ == name;
        lemma_unique_index(s, name, k);
        assert forall|j: int| 0 <= j < t.len() implies #[trigger] t[j].name@ != name by {
            if j < k {
                assert(t[j] == s[j]);
            } else {
                assert(t[j] == s[j + 1]);
            }
        }
    }
}

} // verus!
