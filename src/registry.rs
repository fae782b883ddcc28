//! The runtime's registry of live objects: one entry, and so one runner, per
//! object identity, with the bookkeeping that tears each object's data down once.
use vstd::prelude::*;

verus! {

/// The identity of an object: its namespace and its name.
pub struct ObjectKey {
    pub namespace: String,
    pub name: String,
}

/// The mathematical identity of an object.
pub type KeyView = (Seq<char>, Seq<char>);

impl View for ObjectKey {
    type V = KeyView;

    open spec fn view(&self) -> KeyView {
        (self.namespace@, self.name@)
    }
}

impl ObjectKey {
    pub fn new(namespace: String, name: String) -> (r: ObjectKey)
        ensures
            r@ == (namespace@, name@),
    {
        ObjectKey { namespace, name }
    }

    /// Whether two identities are the same.
    pub fn same(&self, other: &ObjectKey) -> (r: bool)
        ensures
            r == (self@ == other@),
    {
        self.namespace == other.namespace && self.name == other.name
    }

    pub fn duplicate(&self) -> (r: ObjectKey)
        ensures
            r@ == self@,
    {
        ObjectKey { namespace: self.namespace.clone(), name: self.name.clone() }
    }
}

/// The life of a registered object.
#[derive(Clone, Copy, PartialEq, Eq, Structural, Debug)]
pub enum EntryStage {
    /// Its runner is running.
    Running,
    /// Its deletion was signalled to the runner.
    Deleting,
    /// Its runner has exited and its data is being torn down.
    Exited,
}

/// The mathematical content of an entry: the object's data, numbered in the order
/// of creation, and its stage.
pub struct EntryView {
    pub bundle: nat,
    pub stage: EntryStage,
}

struct Entry {
    key: ObjectKey,
    stage: EntryStage,
    bundle: Ghost<nat>,
}

/// What the runtime's task is asked to do for one event.
#[derive(Debug, PartialEq, Eq)]
pub enum RuntimeAction {
    /// The object's data was made: start its runner in the initial state.
    Spawn,
    /// Making the object's data failed: publish this failure, start nothing.
    PublishFailed(String),
    /// Replace the object's manifest with the one observed.
    UpdateManifest,
    /// Replace the object's manifest, then signal its runner that it was deleted.
    UpdateAndSignalDeleted,
    /// The runner has exited: tear down the object's data, then remove the entry.
    AsyncDrop,
    /// Nothing to do.
    Ignore,
}

/// The mathematical state of a registry.
pub struct RegistryView {
    /// Live entries, in order of registration.
    pub entries: Seq<(KeyView, EntryView)>,
    /// The number of object data ever made.
    pub created: nat,
    /// The object data whose teardown was asked for.
    pub dropped: Set<nat>,
}

/// Whether some entry has identity `k`.
pub open spec fn has_key(s: Seq<(KeyView, EntryView)>, k: KeyView) -> bool {
    exists|i: int| 0 <= i < s.len() && (#[trigger] s[i]).0 == k
}

/// The invariant of every registry.
pub open spec fn registry_inv(v: RegistryView) -> bool {
    // At most one entry, and so at most one runner, per identity.
    &&& forall|i: int, j: int|
        0 <= i < v.entries.len() && 0 <= j < v.entries.len() && i != j
            ==> (#[trigger] v.entries[i]).0 != (#[trigger] v.entries[j]).0
    &&& forall|i: int, j: int|
        0 <= i < v.entries.len() && 0 <= j < v.entries.len() && i != j
            ==> (#[trigger] v.entries[i]).1.bundle != (#[trigger] v.entries[j]).1.bundle
    &&& forall|i: int| 0 <= i < v.entries.len() ==> (#[trigger] v.entries[i]).1.bundle < v.created
    // An entry's data is torn down once its runner exited, and not before.
    &&& forall|i: int| 0 <= i < v.entries.len()
        ==> (v.dropped.contains((#[trigger] v.entries[i]).1.bundle) <==> v.entries[i].1.stage
            == EntryStage::Exited)
    &&& forall|b: nat| #[trigger] v.dropped.contains(b) ==> b < v.created
}

/// The identities of the entries, in order.
pub open spec fn entry_keys(s: Seq<(KeyView, EntryView)>) -> Seq<KeyView> {
    s.map_values(|e: (KeyView, EntryView)| e.0)
}

/// The identities of a listing.
pub open spec fn listing_keys(listing: Seq<ObjectKey>) -> Seq<KeyView> {
    listing.map_values(|k: ObjectKey| k@)
}

/// The entries, in order, that a fresh listing no longer holds: each gets a
/// synthesized deletion after the watch restarts.
pub open spec fn vanished(s: Seq<(KeyView, EntryView)>, listing: Seq<KeyView>) -> Seq<KeyView> {
    entry_keys(s).filter(|k: KeyView| !listing.contains(k))
}

/// The registry of live objects.
pub struct Registry {
    entries: Vec<Entry>,
    created: Ghost<nat>,
    dropped: Ghost<Set<nat>>,
}

impl View for Registry {
    type V = RegistryView;

    closed spec fn view(&self) -> RegistryView {
        RegistryView {
            entries: self.entries@.map_values(
                |e: Entry| (e.key@, EntryView { bundle: e.bundle@, stage: e.stage }),
            ),
            created: self.created@,
            dropped: self.dropped@,
        }
    }
}

impl Registry {
    /// An empty registry.
    pub fn new() -> (r: Registry)
        ensures
            r@.entries.len() == 0,
            r@.created == 0,
            r@.dropped == Set::<nat>::empty(),
            registry_inv(r@),
    {
        Registry { entries: Vec::new(), created: Ghost(0), dropped: Ghost(Set::empty()) }
    }

    /// The number of live entries.
    pub fn len(&self) -> (r: usize)
        ensures
            r == self@.entries.len(),
    {
        self.entries.len()
    }

    fn find(&self, key: &ObjectKey) -> (r: Option<usize>)
        ensures
            r matches Some(i) ==> i < self@.entries.len() && self@.entries[i as int].0 == key@,
            r is None ==> !has_key(self@.entries, key@),
    {
        let mut i: usize = 0;
        while i < self.entries.len()
            invariant
                0 <= i <= self.entries@.len(),
                forall|j: int| 0 <= j < i ==> (#[trigger] self@.entries[j]).0 != key@,
            decreases self.entries@.len() - i,
        {
            if self.entries[i].key.same(key) {
                return Some(i);
            }
            i = i + 1;
        }
        None
    }

    /// Whether an entry for `key` is live.
    pub fn contains(&self, key: &ObjectKey) -> (r: bool)
        ensures
            r == has_key(self@.entries, key@),
    {
        self.find(key).is_some()
    }

    /// The stage of the entry for `key`, if one is live.
    pub fn stage_of(&self, key: &ObjectKey) -> (r: Option<EntryStage>)
        ensures
            r is None <==> !has_key(self@.entries, key@),
            r matches Some(s) ==> exists|i: int|
                0 <= i < self@.entries.len() && self@.entries[i].0 == key@
                    && #[trigger] self@.entries[i].1.stage == s,
    {
        match self.find(key) {
            Some(i) => {
                proof {
                    assert(self@.entries[i as int].1.stage == self.entries@[i as int].stage);
                }
                Some(self.entries[i].stage)
            },
            None => None,
        }
    }
}

impl Registry {
    proof fn lemma_view_index(&self, i: int)
        requires
            0 <= i < self.entries@.len(),
        ensures
            self@.entries[i] == (self.entries@[i].key@, EntryView { bundle: self.entries@[i].bundle@, stage: self.entries@[i].stage }),
    {
    }

    /// An object was added. A known identity counts as a modification. Otherwise
    /// `init` is the result of making the object's data: on success an entry is
    /// registered and its runner is to start; on failure only the failure is
    /// published and nothing is registered.
    pub fn added(&mut self, key: ObjectKey, init: Result<(), String>) -> (r: RuntimeAction)
        requires
            registry_inv(old(self)@),
        ensures
            registry_inv(final(self)@),
            has_key(old(self)@.entries, key@) ==> r == RuntimeAction::UpdateManifest && final(self)@ == old(self)@,
            !has_key(old(self)@.entries, key@) && init is Ok ==> r == RuntimeAction::Spawn
                && final(self)@ == (RegistryView {
                    entries: old(self)@.entries.push(
                        (key@, EntryView { bundle: old(self)@.created, stage: EntryStage::Running }),
                    ),
                    created: old(self)@.created + 1,
                    dropped: old(self)@.dropped,
                }),
            !has_key(old(self)@.entries, key@) && init is Err ==> r == RuntimeAction::PublishFailed(init->Err_0)
                && final(self)@ == old(self)@,
    {
        if self.contains(&key) {
            return RuntimeAction::UpdateManifest;
        }
        match init {
            Ok(()) => {
                let ghost old_v = self@;
                let ghost b = self.created@;
                self.entries.push(Entry { key, stage: EntryStage::Running, bundle: Ghost(b) });
                self.created = Ghost(b + 1);
                proof {
                    let e = (key@, EntryView { bundle: b, stage: EntryStage::Running });
                    assert forall|i: int| 0 <= i < self.entries@.len() implies #[trigger] self@.entries[i] == old_v.entries.push(e)[i] by {
                        self.lemma_view_index(i);
                    }
                    assert(self@.entries =~= old_v.entries.push(e));
                    assert(!has_key(old_v.entries, key@));
                }
                RuntimeAction::Spawn
            },
            Err(e) => RuntimeAction::PublishFailed(e),
        }
    }

    /// An object was modified: a live runner sees the new manifest at its next cycle.
    pub fn modified(&self, key: &ObjectKey) -> (r: RuntimeAction)
        ensures
            r == if has_key(self@.entries, key@) {
                RuntimeAction::UpdateManifest
            } else {
                RuntimeAction::Ignore
            },
    {
        if self.contains(key) {
            RuntimeAction::UpdateManifest
        } else {
            RuntimeAction::Ignore
        }
    }

    /// An object was deleted. A running entry has its manifest replaced and its
    /// runner signalled, once; an entry already signalled only has its manifest
    /// replaced; an exited or unknown one is left alone.
    pub fn deleted(&mut self, key: &ObjectKey) -> (r: RuntimeAction)
        requires
            registry_inv(old(self)@),
        ensures
            registry_inv(final(self)@),
            !has_key(old(self)@.entries, key@) ==> r == RuntimeAction::Ignore && final(self)@ == old(self)@,
            forall|i: int| 0 <= i < old(self)@.entries.len() && (#[trigger] old(self)@.entries[i]).0 == key@
                ==> match old(self)@.entries[i].1.stage {
                    EntryStage::Running => r == RuntimeAction::UpdateAndSignalDeleted
                        && final(self)@ == (RegistryView {
                            entries: old(self)@.entries.update(i, (key@, EntryView {
                                bundle: old(self)@.entries[i].1.bundle,
                                stage: EntryStage::Deleting,
                            })),
                            ..old(self)@
                        }),
                    EntryStage::Deleting => r == RuntimeAction::UpdateManifest && final(self)@ == old(self)@,
                    EntryStage::Exited => r == RuntimeAction::Ignore && final(self)@ == old(self)@,
                },
    {
        match self.find(key) {
            None => RuntimeAction::Ignore,
            Some(i) => {
                proof { self.lemma_view_index(i as int); }
                let stage = self.entries[i].stage;
                match stage {
                    EntryStage::Running => {
                        let ghost old_v = self@;
                        let ghost ne = (key@, EntryView { bundle: old_v.entries[i as int].1.bundle, stage: EntryStage::Deleting });
                        self.entries[i].stage = EntryStage::Deleting;
                        proof {
                            assert forall|j: int| 0 <= j < self.entries@.len() implies #[trigger] self@.entries[j] == old_v.entries.update(i as int, ne)[j] by {
                                self.lemma_view_index(j);
                            }
                            assert(self@.entries =~= old_v.entries.update(i as int, ne));
                        }
                        RuntimeAction::UpdateAndSignalDeleted
                    },
                    EntryStage::Deleting => RuntimeAction::UpdateManifest,
                    EntryStage::Exited => RuntimeAction::Ignore,
                }
            },
        }
    }

    /// The runner of `key` has exited, after its final handler returned. Its data
    /// is to be torn down now, exactly once: this is the only place that asks for it.
    pub fn runner_exited(&mut self, key: &ObjectKey) -> (r: RuntimeAction)
        requires
            registry_inv(old(self)@),
        ensures
            registry_inv(final(self)@),
            !has_key(old(self)@.entries, key@) ==> r == RuntimeAction::Ignore && final(self)@ == old(self)@,
            forall|i: int| 0 <= i < old(self)@.entries.len() && (#[trigger] old(self)@.entries[i]).0 == key@
                ==> if old(self)@.entries[i].1.stage == EntryStage::Exited {
                    r == RuntimeAction::Ignore && final(self)@ == old(self)@
                } else {
                    &&& r == RuntimeAction::AsyncDrop
                    &&& !old(self)@.dropped.contains(old(self)@.entries[i].1.bundle)
                    &&& final(self)@ == (RegistryView {
                        entries: old(self)@.entries.update(i, (key@, EntryView {
                            bundle: old(self)@.entries[i].1.bundle,
                            stage: EntryStage::Exited,
                        })),
                        dropped: old(self)@.dropped.insert(old(self)@.entries[i].1.bundle),
                        ..old(self)@
                    })
                },
    {
        match self.find(key) {
            None => RuntimeAction::Ignore,
            Some(i) => {
                proof { self.lemma_view_index(i as int); }
                if self.entries[i].stage == EntryStage::Exited {
                    return RuntimeAction::Ignore;
                }
                let ghost old_v = self@;
                let ghost b = old_v.entries[i as int].1.bundle;
                let ghost ne = (key@, EntryView { bundle: b, stage: EntryStage::Exited });
                self.entries[i].stage = EntryStage::Exited;
                self.dropped = Ghost(self.dropped@.insert(b));
                proof {
                    assert forall|j: int| 0 <= j < self.entries@.len() implies #[trigger] self@.entries[j] == old_v.entries.update(i as int, ne)[j] by {
                        self.lemma_view_index(j);
                    }
                    assert(self@.entries =~= old_v.entries.update(i as int, ne));
                    assert forall|j: int| 0 <= j < self@.entries.len()
                        implies (self@.dropped.contains((#[trigger] self@.entries[j]).1.bundle) <==> self@.entries[j].1.stage == EntryStage::Exited) by {
                        if j != i {
                            assert(old_v.entries[j].1.bundle != b);
                        }
                    }
                }
                RuntimeAction::AsyncDrop
            },
        }
    }

    /// Removes the entry of `key` once its data was torn down; `false`, with
    /// nothing changed, where no such exited entry is live.
    pub fn remove(&mut self, key: &ObjectKey) -> (r: bool)
        requires
            registry_inv(old(self)@),
        ensures
            registry_inv(final(self)@),
            !has_key(old(self)@.entries, key@) ==> !r && final(self)@ == old(self)@,
            forall|i: int| 0 <= i < old(self)@.entries.len() && (#[trigger] old(self)@.entries[i]).0 == key@
                ==> if old(self)@.entries[i].1.stage == EntryStage::Exited {
                    &&& r
                    &&& old(self)@.dropped.contains(old(self)@.entries[i].1.bundle)
                    &&& final(self)@ == (RegistryView { entries: old(self)@.entries.remove(i), ..old(self)@ })
                } else {
                    !r && final(self)@ == old(self)@
                },
    {
        match self.find(key) {
            None => false,
            Some(i) => {
                proof { self.lemma_view_index(i as int); }
                if self.entries[i].stage != EntryStage::Exited {
                    return false;
                }
                let ghost old_v = self@;
                let _ = self.entries.remove(i);
                proof {
                    assert forall|j: int| 0 <= j < self.entries@.len() implies #[trigger] self@.entries[j] == old_v.entries.remove(i as int)[j] by {
                        self.lemma_view_index(j);
                        if j < i {
                            assert(old_v.entries.remove(i as int)[j] == old_v.entries[j]);
                        } else {
                            assert(old_v.entries.remove(i as int)[j] == old_v.entries[j + 1]);
                        }
                    }
                    assert(self@.entries =~= old_v.entries.remove(i as int));
                    let s = self@.entries;
                    assert forall|a: int, c: int| 0 <= a < s.len() && 0 <= c < s.len() && a != c
                        implies (#[trigger] s[a]).0 != (#[trigger] s[c]).0 && s[a].1.bundle != s[c].1.bundle by {
                        let a1 = if a < i { a } else { a + 1 };
                        let c1 = if c < i { c } else { c + 1 };
                        assert(s[a] == old_v.entries[a1]);
                        assert(s[c] == old_v.entries[c1]);
                    }
                    assert forall|a: int| 0 <= a < s.len() implies (#[trigger] s[a]).1.bundle < self@.created
                        && (self@.dropped.contains(s[a].1.bundle) <==> s[a].1.stage == EntryStage::Exited) by {
                        let a1 = if a < i { a } else { a + 1 };
                        assert(s[a] == old_v.entries[a1]);
                    }
                }
                true
            },
        }
    }

    /// After the watch restarted with a fresh `listing`: the identities of the
    /// live entries that it no longer holds, in registration order. Each is to get
    /// a synthesized deletion; no other event is synthesized.
    pub fn restart(&self, listing: &Vec<ObjectKey>) -> (r: Vec<ObjectKey>)
        ensures
            listing_keys(r@) == vanished(self@.entries, listing_keys(listing@)),
    {
        let ghost lk = listing_keys(listing@);
        let ghost pred = |k: KeyView| !lk.contains(k);
        let mut out: Vec<ObjectKey> = Vec::new();
        let mut i: usize = 0;
        while i < self.entries.len()
            invariant
                0 <= i <= self.entries@.len(),
                lk == listing_keys(listing@),
                pred == (|k: KeyView| !lk.contains(k)),
                listing_keys(out@) == entry_keys(self@.entries).take(i as int).filter(pred),
            decreases self.entries@.len() - i,
        {
            let key = &self.entries[i].key;
            let mut listed = false;
            let mut j: usize = 0;
            while j < listing.len()
                invariant
                    0 <= j <= listing@.len(),
                    lk == listing_keys(listing@),
                    listed == exists|m: int| 0 <= m < j && lk[m] == key@,
                decreases listing@.len() - j,
            {
                proof {
                    assert(lk[j as int] == listing@[j as int]@);
                }
                if listing[j].same(key) {
                    listed = true;
                }
                j = j + 1;
            }
            proof {
                self.lemma_view_index(i as int);
                let ks = entry_keys(self@.entries);
                assert(ks[i as int] == key@);
                assert(ks.take(i as int + 1) =~= ks.take(i as int).push(key@));
                reveal(Seq::filter);
                assert(ks.take(i as int).push(key@).drop_last() =~= ks.take(i as int));
                if listed {
                    let m = choose|m: int| 0 <= m < listing@.len() && lk[m] == key@;
                    assert(lk.contains(key@));
                } else {
                    assert forall|m: int| 0 <= m < lk.len() implies lk[m] != key@ by {}
                    assert(!lk.contains(key@));
                }
            }
            if !listed {
                let ghost before = out@;
                out.push(key.duplicate());
                proof {
                    assert(listing_keys(out@) =~= listing_keys(before).push(key@));
                }
            }
            i = i + 1;
        }
        proof {
            assert(entry_keys(self@.entries).take(self@.entries.len() as int) =~= entry_keys(self@.entries));
        }
        out
    }
}

/// A watch that restarts with a listing holding every known identity causes no
/// synthesized deletion.
pub proof fn lemma_restart_same_listing(v: RegistryView, listing: Seq<KeyView>)
    requires
        forall|k: KeyView| #[trigger] entry_keys(v.entries).contains(k) ==> listing.contains(k),
    ensures
        vanished(v.entries, listing).len() == 0,
{
    let pred = |k: KeyView| !listing.contains(k);
    let ks = entry_keys(v.entries);
    assert forall|i: int| 0 <= i < ks.len() implies !pred(#[trigger] ks[i]) by {
        assert(ks.contains(ks[i]));
    }
    ks.lemma_all_neg_filter_empty(pred);
}

/// After a restart, the synthesized deletions are exactly the live identities
/// that the fresh listing lacks.
pub proof fn lemma_restart_exact(v: RegistryView, listing: Seq<KeyView>)
    ensures
        forall|k: KeyView| #[trigger] vanished(v.entries, listing).contains(k)
            <==> (entry_keys(v.entries).contains(k) && !listing.contains(k)),
{
    let pred = |k: KeyView| !listing.contains(k);
    let ks = entry_keys(v.entries);
    broadcast use vstd::seq_lib::group_filter_ensures;
    assert forall|k: KeyView| #[trigger] vanished(v.entries, listing).contains(k)
        implies ks.contains(k) && !listing.contains(k) by {
        let f = ks.filter(pred);
        let j = choose|j: int| 0 <= j < f.len() && f[j] == k;
        assert(pred(f[j]));
        lemma_filter_subset(ks, pred, j);
    }
}

proof fn lemma_filter_subset(s: Seq<KeyView>, pred: spec_fn(KeyView) -> bool, j: int)
    requires
        0 <= j < s.filter(pred).len(),
    ensures
        s.contains(s.filter(pred)[j]),
    decreases s.len(),
{
    reveal(Seq::filter);
    if s.len() > 0 {
        let sub = s.drop_last().filter(pred);
        if j < sub.len() {
            lemma_filter_subset(s.drop_last(), pred, j);
            let m = choose|m: int| 0 <= m < s.drop_last().len() && s.drop_last()[m] == sub[j];
            assert(s[m] == sub[j]);
            if pred(s.last()) {
                assert(s.filter(pred)[j] == sub[j]);
            }
        } else {
            assert(s.filter(pred)[j] == s.last());
            assert(s[s.len() - 1] == s.last());
        }
    }
}

/// In every registry, an identity has at most one live entry, and so at most one
/// runner; distinct entries hold distinct object data.
pub proof fn lemma_one_entry_per_identity(v: RegistryView, i: int, j: int)
    requires
        registry_inv(v),
        0 <= i < v.entries.len(),
        0 <= j < v.entries.len(),
        v.entries[i].0 == v.entries[j].0,
    ensures
        i == j,
{
}

/// In every registry, the data of an entry whose runner has not exited was not
/// torn down, and the data of an exited one was: teardown is asked for once per
/// object data, between the runner's exit and the entry's removal.
pub proof fn lemma_teardown_once(v: RegistryView, i: int)
    requires
        registry_inv(v),
        0 <= i < v.entries.len(),
    ensures
        v.entries[i].1.stage != EntryStage::Exited ==> !v.dropped.contains(v.entries[i].1.bundle),
        v.entries[i].1.stage == EntryStage::Exited ==> v.dropped.contains(v.entries[i].1.bundle),
        v.entries[i].1.bundle < v.created,
{
}

} // verus!
