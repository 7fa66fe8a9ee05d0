//! The allow-list of payment destinations: a set of identities that only
//! its administrator changes. It is kept as a list in ascending order.

use vstd::prelude::*;
use crate::key_order::ascending;
use crate::key_order::key_before;
use crate::key_order::key_lt;
use crate::key_order::lemma_ascending_distinct;
use crate::key_order::lemma_ascending_insert;
use crate::key_order::lemma_ascending_remove;
use crate::key_order::lemma_ascending_unique;
use crate::key_order::lemma_key_lt_irreflexive;
use crate::key_order::lemma_key_lt_total;

verus! {

/// Why a change of the allow-list was refused. A refused change changes
/// nothing. The errors are ordered as their codes are.
#[derive(Clone, Copy, Debug, PartialEq, Eq, PartialOrd, Ord, Structural)]
pub enum ProviderRegistryError {
    /// The caller is not the administrator.
    Unauthorized,
    /// The identity is on the list already.
    ProviderAlreadyExists,
    /// The identity is not on the list.
    ProviderNotFound,
}

impl ProviderRegistryError {
    /// The numeric code under which the error is reported to the host.
    pub open spec fn spec_code(self) -> u32 {
        match self {
            ProviderRegistryError::Unauthorized => 2001,
            ProviderRegistryError::ProviderAlreadyExists => 2002,
            ProviderRegistryError::ProviderNotFound => 2003,
        }
    }

    /// The numeric code under which the error is reported to the host.
    pub fn code(&self) -> (c: u32)
        ensures
            c == self.spec_code(),
    {
        match self {
            ProviderRegistryError::Unauthorized => 2001,
            ProviderRegistryError::ProviderAlreadyExists => 2002,
            ProviderRegistryError::ProviderNotFound => 2003,
        }
    }
}

/// The identities of a list.
pub open spec fn identities(providers: Seq<String>) -> Seq<Seq<char>> {
    providers.map_values(|p: String| p@)
}

/// The allow-list as a mathematical value.
pub struct RegistryModel {
    pub admin: Seq<char>,
    pub providers: Set<Seq<char>>,
}

impl RegistryModel {
    /// The addition of an identity by `caller`.
    pub open spec fn add_provider(self, caller: Seq<char>, provider: Seq<char>) -> Result<
        RegistryModel,
        ProviderRegistryError,
    > {
        if caller != self.admin {
            Err(ProviderRegistryError::Unauthorized)
        } else if self.providers.contains(provider) {
            Err(ProviderRegistryError::ProviderAlreadyExists)
        } else {
            Ok(RegistryModel { providers: self.providers.insert(provider), ..self })
        }
    }

    /// The removal of an identity by `caller`.
    pub open spec fn remove_provider(self, caller: Seq<char>, provider: Seq<char>) -> Result<
        RegistryModel,
        ProviderRegistryError,
    > {
        if caller != self.admin {
            Err(ProviderRegistryError::Unauthorized)
        } else if !self.providers.contains(provider) {
            Err(ProviderRegistryError::ProviderNotFound)
        } else {
            Ok(RegistryModel { providers: self.providers.remove(provider), ..self })
        }
    }
}

/// The allow-list of one deployment.
#[derive(Clone, Debug, PartialEq, Eq)]
pub struct ProviderRegistry {
    pub admin: String,
    pub providers: Vec<String>,
}

impl View for ProviderRegistry {
    type V = RegistryModel;

    open spec fn view(&self) -> RegistryModel {
        RegistryModel { admin: self.admin@, providers: self.listing().to_set() }
    }
}

/// A change did what its step says: it succeeded and left the list as the
/// step yields it, or it failed for the reason that the step names and left
/// the list as it was.
pub open spec fn changes(
    step: Result<RegistryModel, ProviderRegistryError>,
    r: Result<(), ProviderRegistryError>,
    before: ProviderRegistry,
    after: ProviderRegistry,
) -> bool {
    match step {
        Ok(next) => r.is_ok() && after.wf() && after@ == next,
        Err(e) => r == Err::<(), ProviderRegistryError>(e) && after == before,
    }
}

impl ProviderRegistry {
    /// The identities on the list, in ascending order.
    pub open spec fn listing(&self) -> Seq<Seq<char>> {
        identities(self.providers@)
    }

    /// The identities stand in ascending order, so none occurs twice, and
    /// their number fits in a `u32`.
    pub open spec fn wf(&self) -> bool {
        &&& ascending(self.listing())
        &&& self.providers@.len() <= u32::MAX
    }

    /// The list holds each identity of the set once.
    pub proof fn lemma_listing_counts(&self)
        requires
            self.wf(),
        ensures
            self.listing().no_duplicates(),
            self.listing().len() == self@.providers.len(),
    {
        let list = self.listing();
        assert forall|i: int, j: int|
            0 <= i < list.len() && 0 <= j < list.len() && i != j implies list[i] != list[j] by {
            if list[i] == list[j] {
                lemma_ascending_distinct(list, i, j);
            }
        }
        list.unique_seq_to_set();
    }

    /// An empty list under the given administrator.
    pub fn new(admin: String) -> (r: ProviderRegistry)
        ensures
            r.wf(),
            r@ == (RegistryModel { admin: admin@, providers: Set::empty() }),
    {
        let r = ProviderRegistry { admin, providers: Vec::new() };
        proof {
            assert(r.listing() =~= Seq::<Seq<char>>::empty());
            assert(r.listing().to_set() =~= Set::<Seq<char>>::empty());
        }
        r
    }

    /// The list that holds the given identities under the given
    /// administrator. There is none where an identity occurs twice or where
    /// there are more of them than a `u32` counts. Identities given in
    /// ascending order are kept as they were given.
    pub fn restore(admin: String, providers: &Vec<String>) -> (r: Option<ProviderRegistry>)
        ensures
            match r {
                Some(registry) => {
                    &&& registry.wf()
                    &&& registry@ == (RegistryModel {
                        admin: admin@,
                        providers: identities(providers@).to_set(),
                    })
                    &&& identities(providers@).no_duplicates()
                    &&& providers@.len() <= u32::MAX
                    &&& ascending(identities(providers@)) ==> registry.listing() == identities(
                        providers@,
                    )
                },
                None => !(identities(providers@).no_duplicates() && providers@.len() <= u32::MAX),
            },
    {
        if providers.len() > u32::MAX as usize {
            return None;
        }
        let ghost given = identities(providers@);
        let caller = admin.clone();
        let mut registry = ProviderRegistry::new(admin);
        let mut i: usize = 0;
        proof {
            assert(given.take(0) =~= Seq::<Seq<char>>::empty());
        }
        while i < providers.len()
            invariant
                i <= providers@.len(),
                providers@.len() <= u32::MAX,
                given == identities(providers@),
                caller@ == admin@,
                registry.wf(),
                registry@.admin == admin@,
                registry@.providers == given.take(i as int).to_set(),
                given.take(i as int).no_duplicates(),
            decreases providers@.len() - i,
        {
            let ghost seen = given.take(i as int);
            let provider = providers[i].clone();
            proof {
                assert(given.take(i + 1) =~= seen.push(provider@));
                registry.lemma_listing_counts();
                seen.unique_seq_to_set();
            }
            match registry.add_provider(&caller, provider) {
                Ok(()) => {
                    proof {
                        let next = seen.push(provider@);
                        assert(!seen.contains(provider@));
                        assert forall|a: int, b: int|
                            0 <= a < next.len() && 0 <= b < next.len() && a != b implies next[a]
                            != next[b] by {
                            if a < seen.len() && b < seen.len() {
                                assert(seen[a] != seen[b]);
                            } else if a < seen.len() {
                                assert(seen.contains(seen[a]));
                            } else if b < seen.len() {
                                assert(seen.contains(seen[b]));
                            }
                        }
                        assert(next.to_set() =~= seen.to_set().insert(provider@)) by {
                            assert forall|k: Seq<char>| next.contains(k) <==> (seen.contains(k)
                                || k == provider@) by {
                                if next.contains(k) {
                                    let j = choose|j: int| 0 <= j < next.len() && next[j] == k;
                                    if j < seen.len() {
                                        assert(seen[j] == k);
                                    }
                                }
                                if seen.contains(k) {
                                    let j = choose|j: int| 0 <= j < seen.len() && seen[j] == k;
                                    assert(next[j] == k);
                                }
                                if k == provider@ {
                                    assert(next[seen.len() as int] == k);
                                }
                            }
                        }
                    }
                },
                Err(_) => {
                    proof {
                        assert(seen.contains(provider@));
                        let j = choose|j: int| 0 <= j < seen.len() && seen[j] == provider@;
                        assert(given[j] == given[i as int]);
                    }
                    return None;
                },
            }
            i = i + 1;
        }
        proof {
            assert(given.take(i as int) =~= given);
            if ascending(given) {
                lemma_ascending_unique(registry.listing(), given);
            }
        }
        Some(registry)
    }

    /// The administrator.
    pub fn get_admin(&self) -> (r: String)
        ensures
            r@ == self@.admin,
    {
        self.admin.clone()
    }

    /// Whether `caller` is the administrator.
    pub fn is_admin(&self, caller: &String) -> (r: bool)
        ensures
            r == (caller@ == self@.admin),
    {
        *caller == self.admin
    }

    /// The place of the first identity that does not come before `address`:
    /// where it stands, or would have to be put.
    fn position(&self, address: &String) -> (p: usize)
        requires
            self.wf(),
        ensures
            p <= self.providers@.len(),
            forall|i: int| 0 <= i < p ==> key_lt(#[trigger] self.listing()[i], address@),
            p < self.providers@.len() ==> !key_lt(self.listing()[p as int], address@),
            self@.providers.contains(address@) <==> (p < self.providers@.len()
                && self.listing()[p as int] == address@),
    {
        let mut p: usize = 0;
        while p < self.providers.len() && key_before(&self.providers[p], address)
            invariant
                p <= self.providers@.len(),
                forall|i: int| 0 <= i < p ==> key_lt(#[trigger] self.listing()[i], address@),
            decreases self.providers@.len() - p,
        {
            p = p + 1;
        }
        proof {
            let list = self.listing();
            if list.to_set().contains(address@) {
                let j = choose|j: int| 0 <= j < list.len() && list[j] == address@;
                if j < p {
                    lemma_key_lt_irreflexive(address@);
                } else if j > p {
                    assert(key_lt(list[p as int], list[j]));
                }
            }
            if p < self.providers@.len() && list[p as int] == address@ {
                assert(list.contains(address@));
            }
        }
        p
    }

    /// Whether an identity is on the list.
    pub fn is_provider(&self, address: &String) -> (r: bool)
        requires
            self.wf(),
        ensures
            r == self@.providers.contains(address@),
    {
        let p = self.position(address);
        p < self.providers.len() && self.providers[p] == *address
    }

    /// Puts an identity on the list. Refused with `Unauthorized` where the
    /// caller is not the administrator, and with `ProviderAlreadyExists`
    /// where the identity is on the list.
    pub fn add_provider(&mut self, caller: &String, provider: String) -> (r: Result<
        (),
        ProviderRegistryError,
    >)
        requires
            old(self).wf(),
            old(self).providers@.len() < u32::MAX,
        ensures
            changes(old(self)@.add_provider(caller@, provider@), r, *old(self), *final(self)),
    {
        if !(*caller == self.admin) {
            return Err(ProviderRegistryError::Unauthorized);
        }
        let p = self.position(&provider);
        if p < self.providers.len() && self.providers[p] == provider {
            return Err(ProviderRegistryError::ProviderAlreadyExists);
        }
        let ghost before = self.listing();
        proof {
            if p < self.providers@.len() {
                lemma_key_lt_total(provider@, before[p as int]);
            }
            lemma_ascending_insert(before, p as int, provider@);
        }
        self.providers.insert(p, provider);
        proof {
            let after = final(self).listing();
            assert(after =~= before.insert(p as int, provider@));
            assert forall|k: Seq<char>| after.to_set().contains(k) <==> before.to_set().insert(
                provider@,
            ).contains(k) by {
                if after.contains(k) {
                    let j = choose|j: int| 0 <= j < after.len() && after[j] == k;
                    if j != p {
                        let jj = if j < p { j } else { j - 1 };
                        assert(before[jj] == k);
                    }
                }
                if before.contains(k) {
                    let j = choose|j: int| 0 <= j < before.len() && before[j] == k;
                    let jj = if j < p { j } else { j + 1 };
                    assert(after[jj] == k);
                }
                if k == provider@ {
                    assert(after[p as int] == k);
                }
            }
            assert(after.to_set() =~= before.to_set().insert(provider@));
        }
        Ok(())
    }

    /// Takes an identity off the list. Refused with `Unauthorized` where the
    /// caller is not the administrator, and with `ProviderNotFound` where
    /// the identity is not on the list.
    pub fn remove_provider(&mut self, caller: &String, provider: &String) -> (r: Result<
        (),
        ProviderRegistryError,
    >)
        requires
            old(self).wf(),
        ensures
            changes(old(self)@.remove_provider(caller@, provider@), r, *old(self), *final(self)),
    {
        if !(*caller == self.admin) {
            return Err(ProviderRegistryError::Unauthorized);
        }
        let p = self.position(provider);
        if !(p < self.providers.len() && self.providers[p] == *provider) {
            return Err(ProviderRegistryError::ProviderNotFound);
        }
        let ghost before = self.listing();
        proof {
            lemma_ascending_remove(before, p as int);
        }
        self.providers.remove(p);
        proof {
            let after = final(self).listing();
            assert(after =~= before.remove(p as int));
            assert forall|k: Seq<char>| after.to_set().contains(k) <==> before.to_set().remove(
                provider@,
            ).contains(k) by {
                if after.contains(k) {
                    let j = choose|j: int| 0 <= j < after.len() && after[j] == k;
                    let jj = if j < p { j } else { j + 1 };
                    assert(before[jj] == k);
                    if k == provider@ {
                        lemma_ascending_distinct(before, jj, p as int);
                    }
                }
                if before.contains(k) && k != provider@ {
                    let j = choose|j: int| 0 <= j < before.len() && before[j] == k;
                    let jj = if j < p { j } else { j - 1 };
                    assert(after[jj] == k);
                }
            }
            assert(after.to_set() =~= before.to_set().remove(provider@));
        }
        Ok(())
    }

    /// All identities on the list, in ascending order.
    pub fn get_all_providers(&self) -> (r: Vec<String>)
        ensures
            identities(r@) == self.listing(),
            identities(r@).to_set() == self@.providers,
            self.wf() ==> ascending(identities(r@)),
    {
        let mut out: Vec<String> = Vec::new();
        let mut i: usize = 0;
        while i < self.providers.len()
            invariant
                i <= self.providers@.len(),
                out@ == self.providers@.take(i as int),
            decreases self.providers@.len() - i,
        {
            out.push(self.providers[i].clone());
            proof {
                assert(out@ =~= self.providers@.take(i + 1));
            }
            i = i + 1;
        }
        proof {
            assert(self.providers@.take(i as int) =~= self.providers@);
        }
        out
    }

    /// The number of identities on the list.
    pub fn get_provider_count(&self) -> (n: u32)
        requires
            self.wf(),
        ensures
            n == self.listing().len(),
            n == self@.providers.len(),
    {
        proof {
            self.lemma_listing_counts();
        }
        self.providers.len() as u32
    }
}

} // verus!
