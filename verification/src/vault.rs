use vstd::prelude::*;

verus! {

/// One tenant's key material, all in serialized form. The three artifacts
/// are always derived from the same key-generation event, and `generation`
/// names that event: the vault hands out a fresh generation number on every
/// provisioning call, so material from different events (or different
/// tenants) never carries the same number.
pub struct KeyRecord {
    /// Number of the key-generation event this material came from.
    pub generation: u64,
    /// Secret decryption key; never leaves the process.
    pub client_key: Vec<u8>,
    /// Derived public encryption key (compressed); safe to export.
    pub public_key: Vec<u8>,
    /// Derived operational key (compressed); must be the active engine
    /// context before any homomorphic operation for this tenant runs.
    pub server_key: Vec<u8>,
}

/// Mathematical model of a key record.
pub struct KeyRecordModel {
    pub generation: u64,
    pub client_key: Seq<u8>,
    pub public_key: Seq<u8>,
    pub server_key: Seq<u8>,
}

impl View for KeyRecord {
    type V = KeyRecordModel;

    open spec fn view(&self) -> KeyRecordModel {
        KeyRecordModel {
            generation: self.generation,
            client_key: self.client_key@,
            public_key: self.public_key@,
            server_key: self.server_key@,
        }
    }
}

/// One vault slot: a tenant handle and its current key record.
pub struct VaultEntry {
    pub tenant: String,
    pub record: KeyRecord,
}

/// The map a sequence of vault slots stands for; later slots win, though a
/// well-formed vault never holds a tenant twice.
pub open spec fn entries_map(s: Seq<VaultEntry>) -> Map<Seq<char>, KeyRecordModel>
    decreases s.len(),
{
    if s.len() == 0 {
        Map::empty()
    } else {
        entries_map(s.drop_last()).insert(s.last().tenant@, s.last().record@)
    }
}

/// A key is in the map exactly when it is the tenant of some slot.
pub proof fn lemma_entries_map_dom(s: Seq<VaultEntry>, k: Seq<char>)
    ensures
        entries_map(s).dom().contains(k) <==> exists|i: int|
            0 <= i < s.len() && #[trigger] s[i].tenant@ == k,
    decreases s.len(),
{
    if s.len() > 0 {
        lemma_entries_map_dom(s.drop_last(), k);
        if entries_map(s).dom().contains(k) {
            if k == s.last().tenant@ {
                assert(s[s.len() - 1].tenant@ == k);
            } else {
                assert(entries_map(s.drop_last()).dom().contains(k));
                let i = choose|i: int|
                    0 <= i < s.drop_last().len() && #[trigger] s.drop_last()[i].tenant@ == k;
                assert(s[i].tenant@ == k);
            }
        }
        if exists|i: int| 0 <= i < s.len() && #[trigger] s[i].tenant@ == k {
            let i = choose|i: int| 0 <= i < s.len() && #[trigger] s[i].tenant@ == k;
            if i < s.len() - 1 {
                assert(s.drop_last()[i].tenant@ == k);
            }
            assert(entries_map(s).dom().contains(k));
        }
    }
}

/// No tenant handle occurs in two slots.
pub open spec fn entries_unique(s: Seq<VaultEntry>) -> bool {
    forall|i: int, j: int|
        0 <= i < j < s.len() ==> #[trigger] s[i].tenant@ != #[trigger] s[j].tenant@
}

/// In a well-formed vault, the map sends each slot's tenant to that slot's
/// record.
pub proof fn lemma_entries_map_at(s: Seq<VaultEntry>, i: int)
    requires
        entries_unique(s),
        0 <= i < s.len(),
    ensures
        entries_map(s).dom().contains(s[i].tenant@),
        entries_map(s)[s[i].tenant@] == s[i].record@,
    decreases s.len(),
{
    lemma_entries_map_dom(s, s[i].tenant@);
    if i < s.len() - 1 {
        assert(entries_unique(s.drop_last()));
        lemma_entries_map_at(s.drop_last(), i);
        assert(s.drop_last()[i] == s[i]);
        assert(s.last().tenant@ != s[i].tenant@);
    }
}

/// Removing a slot removes exactly its key from the map.
pub proof fn lemma_entries_map_remove(s: Seq<VaultEntry>, i: int)
    requires
        entries_unique(s),
        0 <= i < s.len(),
    ensures
        entries_map(s.remove(i)) == entries_map(s).remove(s[i].tenant@),
    decreases s.len(),
{
    if i == s.len() - 1 {
        assert(s.remove(i) =~= s.drop_last());
        assert(!entries_map(s.drop_last()).dom().contains(s[i].tenant@)) by {
            lemma_entries_map_dom(s.drop_last(), s[i].tenant@);
            assert forall|j: int| 0 <= j < s.drop_last().len() implies #[trigger] s.drop_last()[j].tenant@
                != s[i].tenant@ by {
                assert(s[j].tenant@ != s[i].tenant@);
            }
        }
        assert(entries_map(s.drop_last()) =~= entries_map(s).remove(s[i].tenant@));
    } else {
        let s2 = s.remove(i);
        assert(s2.drop_last() =~= s.drop_last().remove(i));
        assert(s2.last() == s.last());
        assert(entries_unique(s.drop_last()));
        lemma_entries_map_remove(s.drop_last(), i);
        assert(entries_map(s2) == entries_map(s.drop_last().remove(i)).insert(
            s.last().tenant@,
            s.last().record@,
        ));
        assert(s.last().tenant@ != s[i].tenant@);
        assert(entries_map(s.drop_last()).remove(s[i].tenant@).insert(
            s.last().tenant@,
            s.last().record@,
        ) =~= entries_map(s.drop_last()).insert(s.last().tenant@, s.last().record@).remove(
            s[i].tenant@,
        ));
    }
}

/// A concurrency-safe store of per-tenant key material. Mutation goes
/// through exclusive access (`&mut self`), lookups through shared access;
/// the surrounding runtime supplies the reader/writer lock, and this type
/// guarantees that every interleaving of whole calls keeps the map exact.
pub struct KeyVault {
    entries: Vec<VaultEntry>,
}

impl View for KeyVault {
    type V = Map<Seq<char>, KeyRecordModel>;

    closed spec fn view(&self) -> Map<Seq<char>, KeyRecordModel> {
        entries_map(self.entries@)
    }
}

impl KeyVault {
    /// No tenant handle is stored twice.
    pub closed spec fn wf(&self) -> bool {
        entries_unique(self.entries@)
    }

    /// Every stored generation number is below `bound`; the service keeps
    /// its next free generation number above everything in the vault.
    pub open spec fn generations_below(&self, bound: u64) -> bool {
        forall|k: Seq<char>|
            self@.dom().contains(k) ==> (#[trigger] self@[k]).generation < bound
    }

    /// Distinct tenants hold distinct generation numbers, so key material
    /// from two provisioning events is never confused.
    pub open spec fn generations_unique(&self) -> bool {
        forall|k1: Seq<char>, k2: Seq<char>|
            self@.dom().contains(k1) && self@.dom().contains(k2) && k1 != k2 ==> (
            #[trigger] self@[k1]).generation != (#[trigger] self@[k2]).generation
    }

    pub fn new() -> (v: KeyVault)
        ensures
            v@ == Map::<Seq<char>, KeyRecordModel>::empty(),
            v.wf(),
    {
        KeyVault { entries: Vec::new() }
    }

    /// Shared-access lookup of a tenant's key record.
    pub fn lookup(&self, tenant: &String) -> (r: Option<&KeyRecord>)
        requires
            self.wf(),
        ensures
            match r {
                Some(rec) => self@.dom().contains(tenant@) && rec@ == self@[tenant@],
                None => !self@.dom().contains(tenant@),
            },
    {
        proof {
            lemma_entries_map_dom(self.entries@, tenant@);
        }
        let n = self.entries.len();
        let mut i: usize = 0;
        while i < n
            invariant
                self.wf(),
                n == self.entries@.len(),
                i <= n,
                forall|j: int| 0 <= j < i ==> #[trigger] self.entries@[j].tenant@ != tenant@,
            decreases n - i,
        {
            if self.entries[i].tenant == *tenant {
                proof {
                    lemma_entries_map_at(self.entries@, i as int);
                }
                return Some(&self.entries[i].record);
            }
            i = i + 1;
        }
        None
    }

    /// Exclusive-access provisioning: store `record` for `tenant`,
    /// replacing any material the tenant had (last write wins).
    pub fn store(&mut self, tenant: String, record: KeyRecord)
        requires
            old(self).wf(),
        ensures
            final(self).wf(),
            final(self)@ == old(self)@.insert(tenant@, record@),
    {
        let ghost old_entries = self.entries@;
        let n = self.entries.len();
        let mut i: usize = 0;
        let mut found: Option<usize> = None;
        while i < n
            invariant
                n == self.entries@.len(),
                i <= n,
                match found {
                    Some(k) => k < i && self.entries@[k as int].tenant@ == tenant@,
                    None => forall|j: int| 0 <= j < i ==> #[trigger] self.entries@[j].tenant@ != tenant@,
                },
                found is Some ==> i == n,
            decreases n - i,
        {
            if self.entries[i].tenant == tenant {
                found = Some(i);
                i = n;
            } else {
                i = i + 1;
            }
        }
        proof {
            lemma_entries_map_dom(old_entries, tenant@);
        }
        match found {
            Some(k) => {
                proof {
                    lemma_entries_map_remove(old_entries, k as int);
                }
                self.entries.remove(k);
                let ghost removed = self.entries@;
                proof {
                    assert forall|i2: int, j2: int| 0 <= i2 < j2 < removed.len() implies
                        #[trigger] removed[i2].tenant@ != #[trigger] removed[j2].tenant@ by {
                        let a = if i2 < k as int { i2 } else { i2 + 1 };
                        let b = if j2 < k as int { j2 } else { j2 + 1 };
                        assert(removed[i2] == old_entries[a]);
                        assert(removed[j2] == old_entries[b]);
                        assert(old_entries[a].tenant@ != old_entries[b].tenant@);
                    }
                    assert forall|i2: int| 0 <= i2 < removed.len() implies #[trigger] removed[i2].tenant@
                        != tenant@ by {
                        let a = if i2 < k as int { i2 } else { i2 + 1 };
                        assert(removed[i2] == old_entries[a]);
                        assert(old_entries[a].tenant@ != old_entries[k as int].tenant@);
                    }
                }
                self.entries.push(VaultEntry { tenant, record });
                proof {
                    assert(self.entries@.drop_last() =~= removed);
                    assert(entries_map(self.entries@) == entries_map(removed).insert(
                        tenant@,
                        record@,
                    ));
                    assert(entries_map(self.entries@) =~= old(self)@.insert(tenant@, record@));
                }
            },
            None => {
                self.entries.push(VaultEntry { tenant, record });
                proof {
                    assert(self.entries@.drop_last() =~= old_entries);
                    assert(!old(self)@.dom().contains(tenant@));
                    assert(entries_map(self.entries@) =~= old(self)@.insert(tenant@, record@));
                }
            },
        }
    }
}

} // verus!
