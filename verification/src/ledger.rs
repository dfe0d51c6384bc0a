//! The identity registry and citizen store: two key-value tables plus the
//! citizen-id allocator, with the transfer operation that updates two
//! records as one atomic step.

use vstd::prelude::*;

use crate::citizen::Adjustments;
use crate::citizen::Citizen;
use crate::errors::CoconutError;

verus! {

/// Internal numeric citizen identifier: unique, monotonically assigned
/// starting at 0, never reused.
pub type CitizenId = u64;

/// Opaque external identity string, supplied by the host per call and used
/// only as a lookup key.
pub type AccountKey = String;

/// The citizen id a key maps to, scanning the registry entries in order.
pub open spec fn find_account(s: Seq<(AccountKey, CitizenId)>, k: Seq<char>) -> Option<CitizenId>
    decreases s.len(),
{
    if s.len() == 0 {
        None
    } else if s[0].0@ == k {
        Some(s[0].1)
    } else {
        find_account(s.drop_first(), k)
    }
}

/// The record a citizen id maps to, scanning the store entries in order.
pub open spec fn find_citizen(s: Seq<(CitizenId, Citizen)>, id: CitizenId) -> Option<Citizen>
    decreases s.len(),
{
    if s.len() == 0 {
        None
    } else if s[0].0 == id {
        Some(s[0].1)
    } else {
        find_citizen(s.drop_first(), id)
    }
}

/// Everything a composite query reports about one citizen, as of a single
/// clock value.
#[derive(Clone, Debug, PartialEq, Eq)]
pub struct CitizenState {
    pub account_id: AccountKey,
    pub citizen_id: CitizenId,
    pub current_block_index: u64,
    pub init_block_index: u64,
    pub block_age: u64,
    pub young_coconut_balance: u128,
    pub brown_coconut_balance: u128,
}

/// The whole ledger: the account-key registry, the citizen store, and the
/// next-id counter.
pub struct Coconuts {
    accounts: Vec<(AccountKey, CitizenId)>,
    citizens: Vec<(CitizenId, Citizen)>,
    next_citizen_id: u64,
}

impl Coconuts {
    /// The registry entries, in insertion order.
    pub closed spec fn accounts_seq(self) -> Seq<(AccountKey, CitizenId)> {
        self.accounts@
    }

    /// The store entries, in insertion order.
    pub closed spec fn citizens_seq(self) -> Seq<(CitizenId, Citizen)> {
        self.citizens@
    }

    /// The id the next registration will allocate.
    pub closed spec fn next_id(self) -> u64 {
        self.next_citizen_id
    }

    /// The citizen id registered for key `k`, if any.
    pub open spec fn id_of(self, k: Seq<char>) -> Option<CitizenId> {
        find_account(self.accounts_seq(), k)
    }

    /// Whether key `k` is registered.
    pub open spec fn registered(self, k: Seq<char>) -> bool {
        self.id_of(k) is Some
    }

    /// The record stored for citizen id `id`, if any.
    pub open spec fn citizen_of(self, id: CitizenId) -> Option<Citizen> {
        find_citizen(self.citizens_seq(), id)
    }

    /// The record of the citizen registered for key `k`; meaningful only
    /// when `k` is registered.
    pub open spec fn citizen_for(self, k: Seq<char>) -> Citizen {
        self.citizen_of(self.id_of(k)->0)->0
    }

    /// The internal consistency of the ledger: keys and ids are unique, the
    /// registry and the store reference each other one-to-one, every stored
    /// id was allocated below the counter, and every record is valid.
    pub open spec fn wf(self) -> bool {
        parts_wf(self.accounts_seq(), self.citizens_seq(), self.next_id())
    }

    /// The clock value `now` has not regressed relative to any citizen's
    /// creation time.  The host's clock is monotonic, so this holds of every
    /// clock value it supplies; a violation is a defect in the host.
    pub open spec fn clock_ok(self, now: u64) -> bool {
        forall|j: int|
            0 <= j < self.citizens_seq().len() ==> now >= (#[trigger] self.citizens_seq()[j]).1.init_block_index
    }
}

/// No two registry entries carry the same account key.
pub open spec fn unique_account_keys(s: Seq<(AccountKey, CitizenId)>) -> bool {
    forall|i: int, j: int| 0 <= i < j < s.len() ==> (#[trigger] s[i]).0@ != (#[trigger] s[j]).0@
}

/// No two registry entries point at the same citizen id.
pub open spec fn unique_account_ids(s: Seq<(AccountKey, CitizenId)>) -> bool {
    forall|i: int, j: int| 0 <= i < j < s.len() ==> (#[trigger] s[i]).1 != (#[trigger] s[j]).1
}

/// No two store entries carry the same citizen id.
pub open spec fn unique_citizen_ids(s: Seq<(CitizenId, Citizen)>) -> bool {
    forall|i: int, j: int| 0 <= i < j < s.len() ==> (#[trigger] s[i]).0 != (#[trigger] s[j]).0
}

/// Some registry entry points at citizen id `id`.
pub open spec fn some_account_refers(s: Seq<(AccountKey, CitizenId)>, id: CitizenId) -> bool {
    exists|i: int| 0 <= i < s.len() && (#[trigger] s[i]).1 == id
}

/// The ledger invariant, stated over its persisted parts: keys and ids are
/// unique, the registry and the store reference each other one-to-one,
/// every stored id was allocated below the counter, and every record is
/// valid.
pub open spec fn parts_wf(
    accounts: Seq<(AccountKey, CitizenId)>,
    citizens: Seq<(CitizenId, Citizen)>,
    next_citizen_id: u64,
) -> bool {
    &&& unique_account_keys(accounts)
    &&& unique_account_ids(accounts)
    &&& unique_citizen_ids(citizens)
    &&& (forall|i: int|
        0 <= i < accounts.len() ==> find_citizen(citizens, (#[trigger] accounts[i]).1) is Some)
    &&& (forall|j: int|
        0 <= j < citizens.len() ==> (#[trigger] citizens[j]).0 < next_citizen_id)
    &&& (forall|j: int|
        0 <= j < citizens.len() ==> some_account_refers(accounts, (#[trigger] citizens[j]).0))
    &&& (forall|j: int| 0 <= j < citizens.len() ==> (#[trigger] citizens[j]).1.wf())
}

/// Appending an entry to the registry changes no existing lookup; the new
/// key becomes visible exactly if it was absent before.
proof fn lemma_find_account_push(
    s: Seq<(AccountKey, CitizenId)>,
    e: (AccountKey, CitizenId),
    k: Seq<char>,
)
    ensures
        find_account(s.push(e), k) == (if find_account(s, k) is Some {
            find_account(s, k)
        } else if e.0@ == k {
            Some(e.1)
        } else {
            None::<CitizenId>
        }),
    decreases s.len(),
{
    if s.len() == 0 {
        assert(s.push(e)[0] == e);
        assert(s.push(e).drop_first() =~= Seq::<(AccountKey, CitizenId)>::empty());
        assert(find_account(Seq::<(AccountKey, CitizenId)>::empty(), k) is None);
    } else {
        assert(s.push(e)[0] == s[0]);
        assert(s.push(e).drop_first() =~= s.drop_first().push(e));
        lemma_find_account_push(s.drop_first(), e, k);
    }
}

/// A successful registry lookup names an actual entry.
proof fn lemma_find_account_index(s: Seq<(AccountKey, CitizenId)>, k: Seq<char>)
    requires
        find_account(s, k) is Some,
    ensures
        exists|i: int|
            0 <= i < s.len() && (#[trigger] s[i]).0@ == k && s[i].1 == find_account(s, k)->0,
    decreases s.len(),
{
    if s[0].0@ == k {
        assert(0 <= 0 < s.len() && s[0].0@ == k && s[0].1 == find_account(s, k)->0);
    } else {
        lemma_find_account_index(s.drop_first(), k);
        let i = choose|i: int|
            0 <= i < s.drop_first().len() && (#[trigger] s.drop_first()[i]).0@ == k
                && s.drop_first()[i].1 == find_account(s.drop_first(), k)->0;
        assert(s[i + 1] == s.drop_first()[i]);
    }
}

/// A failed registry lookup means no entry carries the key.
proof fn lemma_find_account_none(s: Seq<(AccountKey, CitizenId)>, k: Seq<char>)
    requires
        find_account(s, k) is None,
    ensures
        forall|i: int| 0 <= i < s.len() ==> (#[trigger] s[i]).0@ != k,
    decreases s.len(),
{
    if s.len() > 0 {
        lemma_find_account_none(s.drop_first(), k);
        assert forall|i: int| 0 <= i < s.len() implies (#[trigger] s[i]).0@ != k by {
            if i > 0 {
                assert(s[i] == s.drop_first()[i - 1]);
            }
        }
    }
}

/// Appending an entry to the store changes no existing lookup; the new id
/// becomes visible exactly if it was absent before.
proof fn lemma_find_citizen_push(s: Seq<(CitizenId, Citizen)>, e: (CitizenId, Citizen), q: CitizenId)
    ensures
        find_citizen(s.push(e), q) == (if find_citizen(s, q) is Some {
            find_citizen(s, q)
        } else if e.0 == q {
            Some(e.1)
        } else {
            None::<Citizen>
        }),
    decreases s.len(),
{
    if s.len() == 0 {
        assert(s.push(e)[0] == e);
        assert(s.push(e).drop_first() =~= Seq::<(CitizenId, Citizen)>::empty());
        assert(find_citizen(Seq::<(CitizenId, Citizen)>::empty(), q) is None);
    } else {
        assert(s.push(e)[0] == s[0]);
        assert(s.push(e).drop_first() =~= s.drop_first().push(e));
        lemma_find_citizen_push(s.drop_first(), e, q);
    }
}

/// A successful store lookup names an actual entry.
proof fn lemma_find_citizen_index(s: Seq<(CitizenId, Citizen)>, q: CitizenId)
    requires
        find_citizen(s, q) is Some,
    ensures
        exists|j: int|
            0 <= j < s.len() && (#[trigger] s[j]).0 == q && s[j].1 == find_citizen(s, q)->0,
    decreases s.len(),
{
    if s[0].0 == q {
        assert(0 <= 0 < s.len() && s[0].0 == q && s[0].1 == find_citizen(s, q)->0);
    } else {
        lemma_find_citizen_index(s.drop_first(), q);
        let j = choose|j: int|
            0 <= j < s.drop_first().len() && (#[trigger] s.drop_first()[j]).0 == q
                && s.drop_first()[j].1 == find_citizen(s.drop_first(), q)->0;
        assert(s[j + 1] == s.drop_first()[j]);
    }
}

/// Overwriting the unique entry that carries id `e.0` makes lookups of that
/// id see the new record and leaves every other lookup unchanged.
proof fn lemma_find_citizen_update(
    s: Seq<(CitizenId, Citizen)>,
    i: int,
    e: (CitizenId, Citizen),
    q: CitizenId,
)
    requires
        0 <= i < s.len(),
        s[i].0 == e.0,
        forall|j: int| 0 <= j < s.len() && j != i ==> (#[trigger] s[j]).0 != e.0,
    ensures
        find_citizen(s.update(i, e), q) == (if q == e.0 {
            Some(e.1)
        } else {
            find_citizen(s, q)
        }),
    decreases i,
{
    if i == 0 {
        assert(s.update(0, e)[0] == e);
        if q != e.0 {
            assert(s.update(0, e).drop_first() =~= s.drop_first());
        }
    } else {
        assert(s[0].0 != e.0);
        assert(s.update(i, e)[0] == s[0]);
        assert(s.update(i, e).drop_first() =~= s.drop_first().update(i - 1, e));
        assert(s.drop_first()[i - 1].0 == e.0);
        assert forall|j: int|
            0 <= j < s.drop_first().len() && j != i - 1 implies (#[trigger] s.drop_first()[j]).0
            != e.0 by {
            assert(s.drop_first()[j] == s[j + 1]);
        }
        lemma_find_citizen_update(s.drop_first(), i - 1, e, q);
    }
}

impl Coconuts {
    /// Find the citizen id a key is registered under, by scanning the
    /// registry.
    fn lookup_account(&self, account_id: &AccountKey) -> (r: Option<CitizenId>)
        ensures
            r == self.id_of(account_id@),
    {
        let n: usize = self.accounts.len();
        proof {
            assert(self.accounts@.subrange(0, n as int) =~= self.accounts@);
        }
        let mut i: usize = 0;
        while i < n
            invariant
                i <= n,
                n == self.accounts@.len(),
                find_account(self.accounts@, account_id@) == find_account(
                    self.accounts@.subrange(i as int, n as int),
                    account_id@,
                ),
            decreases n - i,
        {
            if self.accounts[i].0 == *account_id {
                proof {
                    assert(self.accounts@.subrange(i as int, n as int)[0] == self.accounts@[i as int]);
                }
                return Some(self.accounts[i].1);
            }
            proof {
                assert(self.accounts@.subrange(i as int, n as int).drop_first() =~= self.accounts@
                    .subrange(i as int + 1, n as int));
            }
            i = i + 1;
        }
        proof {
            assert(self.accounts@.subrange(n as int, n as int) =~= Seq::<
                (AccountKey, CitizenId),
            >::empty());
        }
        None
    }

    /// Find the position of a citizen id in the store, by scanning it.
    fn lookup_citizen_idx(&self, citizen_id: CitizenId) -> (r: Option<usize>)
        ensures
            r matches Some(i) ==> i < self.citizens_seq().len() && self.citizens_seq()[i as int].0
                == citizen_id && find_citizen(self.citizens_seq(), citizen_id) == Some(
                self.citizens_seq()[i as int].1,
            ),
            r is None ==> find_citizen(self.citizens_seq(), citizen_id) is None,
    {
        let n: usize = self.citizens.len();
        proof {
            assert(self.citizens@.subrange(0, n as int) =~= self.citizens@);
        }
        let mut i: usize = 0;
        while i < n
            invariant
                i <= n,
                n == self.citizens@.len(),
                find_citizen(self.citizens@, citizen_id) == find_citizen(
                    self.citizens@.subrange(i as int, n as int),
                    citizen_id,
                ),
            decreases n - i,
        {
            if self.citizens[i].0 == citizen_id {
                proof {
                    assert(self.citizens@.subrange(i as int, n as int)[0] == self.citizens@[i as int]);
                }
                return Some(i);
            }
            proof {
                assert(self.citizens@.subrange(i as int, n as int).drop_first() =~= self.citizens@
                    .subrange(i as int + 1, n as int));
            }
            i = i + 1;
        }
        proof {
            assert(self.citizens@.subrange(n as int, n as int) =~= Seq::<
                (CitizenId, Citizen),
            >::empty());
        }
        None
    }

    /// Load the record stored under a citizen id.
    fn lookup_citizen(&self, citizen_id: CitizenId) -> (r: Option<Citizen>)
        ensures
            r == self.citizen_of(citizen_id),
    {
        match self.lookup_citizen_idx(citizen_id) {
            Some(i) => Some(self.citizens[i].1),
            None => None,
        }
    }

    /// Whether `account_id` is registered.  Under well-formedness a
    /// registered key always has a stored record behind it.
    pub fn is_citizen(&self, account_id: &AccountKey) -> (r: bool)
        requires
            self.wf(),
        ensures
            r == self.registered(account_id@),
    {
        match self.lookup_account(account_id) {
            Some(_citizen_id) => true,
            None => false,
        }
    }

    /// Resolve a key to the citizen id it was registered under.  Fails with
    /// `UnknownAccount` exactly when the key is unregistered.
    pub fn resolve(&self, account_id: &AccountKey) -> (r: Result<CitizenId, CoconutError>)
        ensures
            r matches Ok(id) ==> self.id_of(account_id@) == Some(id),
            r is Err <==> !self.registered(account_id@),
            r matches Err(e) ==> e == CoconutError::UnknownAccount,
    {
        match self.lookup_account(account_id) {
            Some(citizen_id) => Ok(citizen_id),
            None => Err(CoconutError::UnknownAccount),
        }
    }

    /// Load the record of the citizen registered for `account_id`.  Fails
    /// with `UnknownAccount` when the key is unregistered; the
    /// `CorruptLedger` path guards against a registered id that is absent
    /// from the store, which well-formedness rules out.
    pub fn citizen(&self, account_id: &AccountKey) -> (r: Result<Citizen, CoconutError>)
        requires
            self.wf(),
        ensures
            self.registered(account_id@) ==> r == Ok::<Citizen, CoconutError>(
                self.citizen_for(account_id@),
            ),
            !self.registered(account_id@) ==> r == Err::<Citizen, CoconutError>(
                CoconutError::UnknownAccount,
            ),
    {
        let citizen_id: CitizenId = match self.lookup_account(account_id) {
            Some(id) => id,
            None => {
                return Err(CoconutError::UnknownAccount);
            },
        };
        proof {
            lemma_find_account_index(self.accounts@, account_id@);
        }
        match self.lookup_citizen(citizen_id) {
            Some(citizen) => Ok(citizen),
            None => Err(CoconutError::CorruptLedger),
        }
    }

    /// Overwrite the record of the citizen registered for `account_id`.
    /// Fails with `UnknownAccount` when the key is unregistered, and then
    /// changes nothing.
    pub fn set_citizen(&mut self, account_id: &AccountKey, citizen: &Citizen) -> (r: Result<
        (),
        CoconutError,
    >)
        requires
            old(self).wf(),
            citizen.wf(),
        ensures
            final(self).wf(),
            r is Ok <==> old(self).registered(account_id@),
            r matches Err(e) ==> e == CoconutError::UnknownAccount && *final(self) == *old(self),
            r is Ok ==> ({
                let pre = *old(self);
                let post = *final(self);
                &&& post.accounts_seq() == pre.accounts_seq()
                &&& post.next_id() == pre.next_id()
                &&& post.citizen_of(pre.id_of(account_id@)->0) == Some(*citizen)
                &&& (forall|q: CitizenId|
                    q != pre.id_of(account_id@)->0 ==> post.citizen_of(q) == pre.citizen_of(q))
                &&& post.citizens_seq().len() == pre.citizens_seq().len()
                &&& (forall|j: int|
                    0 <= j < pre.citizens_seq().len() ==> (#[trigger] post.citizens_seq()[j]).0
                        == pre.citizens_seq()[j].0)
                &&& (forall|j: int|
                    0 <= j < pre.citizens_seq().len() ==> (#[trigger] post.citizens_seq()[j]).1
                        == pre.citizens_seq()[j].1 || post.citizens_seq()[j].1 == *citizen)
            }),
    {
        let citizen_id: CitizenId = match self.lookup_account(account_id) {
            Some(id) => id,
            None => {
                return Err(CoconutError::UnknownAccount);
            },
        };
        proof {
            lemma_find_account_index(self.accounts@, account_id@);
        }
        let idx: usize = match self.lookup_citizen_idx(citizen_id) {
            Some(i) => i,
            None => {
                return Err(CoconutError::CorruptLedger);
            },
        };
        let ghost pre = *self;
        self.citizens[idx] = (citizen_id, *citizen);
        proof {
            assert forall|q: CitizenId|
                find_citizen(self.citizens@, q) == (if q == citizen_id {
                    Some(*citizen)
                } else {
                    find_citizen(pre.citizens@, q)
                }) by {
                lemma_find_citizen_update(pre.citizens@, idx as int, (citizen_id, *citizen), q);
            }
            assert forall|i: int|
                0 <= i < self.accounts@.len() implies find_citizen(
                self.citizens@,
                #[trigger] self.accounts@[i].1,
            ) is Some by {
                lemma_find_citizen_update(
                    pre.citizens@,
                    idx as int,
                    (citizen_id, *citizen),
                    self.accounts@[i].1,
                );
            }
        }
        Ok(())
    }
}

/// The exact result registration returns for a key in a given state.
pub open spec fn register_outcome(pre: Coconuts, k: Seq<char>) -> Result<CitizenId, CoconutError> {
    if pre.registered(k) {
        Err(CoconutError::AlreadyRegistered)
    } else if pre.next_id() == u64::MAX {
        Err(CoconutError::IdSpaceExhausted)
    } else {
        Ok(pre.next_id())
    }
}

impl Coconuts {
    /// Register the calling account as a new citizen at clock value `now`.
    /// Allocates the next citizen id, stores a fresh record under it, maps
    /// the key to it and advances the counter; everything else is left
    /// untouched.  Fails with `AlreadyRegistered` for a key that is already
    /// mapped and with `IdSpaceExhausted` when the id counter is already at
    /// its maximum; a failed registration changes nothing.
    pub fn signer_create_citizen(&mut self, signer: &AccountKey, now: u64) -> (r: Result<
        CitizenId,
        CoconutError,
    >)
        requires
            old(self).wf(),
        ensures
            final(self).wf(),
            r == register_outcome(*old(self), signer@),
            r is Err ==> *final(self) == *old(self),
            r is Ok ==> ({
                let pre = *old(self);
                let post = *final(self);
                &&& post.accounts_seq() == pre.accounts_seq().push((*signer, pre.next_id()))
                &&& post.citizens_seq() == pre.citizens_seq().push(
                    (pre.next_id(), Citizen::spec_new(now)),
                )
                &&& post.next_id() == pre.next_id() + 1
                &&& post.id_of(signer@) == Some(pre.next_id())
                &&& (forall|k: Seq<char>| k != signer@ ==> post.id_of(k) == pre.id_of(k))
                &&& post.citizen_of(pre.next_id()) == Some(Citizen::spec_new(now))
                &&& (forall|q: CitizenId|
                    q != pre.next_id() ==> post.citizen_of(q) == pre.citizen_of(q))
            }),
            forall|t: u64| old(self).clock_ok(t) && t >= now ==> final(self).clock_ok(t),
    {
        if self.is_citizen(signer) {
            return Err(CoconutError::AlreadyRegistered);
        }
        if self.next_citizen_id == u64::MAX {
            return Err(CoconutError::IdSpaceExhausted);
        }
        let new_citizen_id: CitizenId = self.next_citizen_id;
        let new_citizen: Citizen = Citizen::new(now);
        let ghost pre = *self;
        self.citizens.push((new_citizen_id, new_citizen));
        self.accounts.push((signer.clone(), new_citizen_id));
        self.next_citizen_id = self.next_citizen_id + 1;
        proof {
            let nid = pre.next_id();
            let ea = (*signer, nid);
            let ec = (nid, Citizen::spec_new(now));
            assert(self.accounts@ == pre.accounts@.push(ea));
            assert(self.citizens@ == pre.citizens@.push(ec));
            // The fresh id is absent from the store: every stored id was
            // allocated below the counter.
            assert(find_citizen(pre.citizens@, nid) is None) by {
                if find_citizen(pre.citizens@, nid) is Some {
                    lemma_find_citizen_index(pre.citizens@, nid);
                }
            }
            lemma_find_account_none(pre.accounts@, signer@);
            assert forall|q: CitizenId|
                find_citizen(self.citizens@, q) == (if find_citizen(pre.citizens@, q) is Some {
                    find_citizen(pre.citizens@, q)
                } else if q == nid {
                    Some(Citizen::spec_new(now))
                } else {
                    None::<Citizen>
                }) by {
                lemma_find_citizen_push(pre.citizens@, ec, q);
            }
            assert forall|k: Seq<char>|
                find_account(self.accounts@, k) == (if find_account(pre.accounts@, k) is Some {
                    find_account(pre.accounts@, k)
                } else if k == signer@ {
                    Some(nid)
                } else {
                    None::<CitizenId>
                }) by {
                lemma_find_account_push(pre.accounts@, ea, k);
            }
            // No existing registry entry points at the fresh id.
            assert forall|i: int| 0 <= i < pre.accounts@.len() implies (#[trigger] pre.accounts@[i]).1
                != nid by {
                assert(find_citizen(pre.citizens@, pre.accounts@[i].1) is Some);
            }
            // Each old citizen keeps its referencing key; the new one is
            // referenced by the entry just pushed.
            assert forall|j: int| 0 <= j < self.citizens@.len() implies some_account_refers(
                self.accounts@,
                (#[trigger] self.citizens@[j]).0,
            ) by {
                if j < pre.citizens@.len() {
                    let i = choose|i: int|
                        0 <= i < pre.accounts@.len() && (#[trigger] pre.accounts@[i]).1
                            == pre.citizens@[j].0;
                    assert(self.accounts@[i] == pre.accounts@[i]);
                } else {
                    assert(self.accounts@[pre.accounts@.len() as int].1 == nid);
                }
            }
        }
        Ok(new_citizen_id)
    }
}

/// The exact result a creation-time query returns.
pub open spec fn init_block_index_outcome(pre: Coconuts, k: Seq<char>) -> Result<
    u64,
    CoconutError,
> {
    if pre.registered(k) {
        Ok(pre.citizen_for(k).init_block_index)
    } else {
        Err(CoconutError::UnknownAccount)
    }
}

/// The exact result a young-balance query returns at clock value `now`.
pub open spec fn young_balance_outcome(pre: Coconuts, k: Seq<char>, now: u64) -> Result<
    u128,
    CoconutError,
> {
    if !pre.registered(k) {
        Err(CoconutError::UnknownAccount)
    } else if pre.citizen_for(k).spec_baseline(now) > u128::MAX {
        Err(CoconutError::ArithmeticOverflow)
    } else {
        Ok(pre.citizen_for(k).spec_young(now) as u128)
    }
}

/// The exact result a brown-balance query returns at clock value `now`.
pub open spec fn brown_balance_outcome(pre: Coconuts, k: Seq<char>, now: u64) -> Result<
    u128,
    CoconutError,
> {
    if !pre.registered(k) {
        Err(CoconutError::UnknownAccount)
    } else if pre.citizen_for(k).spec_baseline(now) > u128::MAX {
        Err(CoconutError::ArithmeticOverflow)
    } else {
        Ok(pre.citizen_for(k).spec_brown(now) as u128)
    }
}

/// The exact result a composite state query returns at clock value `now`.
pub open spec fn citizen_state_outcome(pre: Coconuts, key: AccountKey, now: u64) -> Result<
    CitizenState,
    CoconutError,
> {
    if !pre.registered(key@) {
        Err(CoconutError::UnknownAccount)
    } else if pre.citizen_for(key@).spec_baseline(now) > u128::MAX {
        Err(CoconutError::ArithmeticOverflow)
    } else {
        let c = pre.citizen_for(key@);
        Ok(
            (CitizenState {
                account_id: key,
                citizen_id: pre.id_of(key@)->0,
                current_block_index: now,
                init_block_index: c.init_block_index,
                block_age: (now - c.init_block_index) as u64,
                young_coconut_balance: c.spec_young(now) as u128,
                brown_coconut_balance: c.spec_brown(now) as u128,
            }),
        )
    }
}

impl Coconuts {
    /// The record behind a registered key has an index in the store whose
    /// entry the clock invariant and the record invariant speak about.
    pub proof fn lemma_registered_citizen_facts(self, k: Seq<char>, now: u64)
        requires
            self.wf(),
            self.clock_ok(now),
            self.registered(k),
        ensures
            self.citizen_of(self.id_of(k)->0) is Some,
            self.citizen_for(k).wf(),
            now >= self.citizen_for(k).init_block_index,
    {
        lemma_find_account_index(self.accounts@, k);
        lemma_find_citizen_index(self.citizens@, self.id_of(k)->0);
    }

    /// The clock value a citizen was created at.  Fails with
    /// `UnknownAccount` exactly when the key is unregistered.
    pub fn init_block_index(&self, account_id: &AccountKey) -> (r: Result<u64, CoconutError>)
        requires
            self.wf(),
        ensures
            r == init_block_index_outcome(*self, account_id@),
    {
        match self.citizen(account_id) {
            Ok(citizen) => Ok(citizen.init_block_index),
            Err(e) => Err(e),
        }
    }

    /// The young balance of the citizen registered for `account_id`, as of
    /// clock value `now`.
    pub fn young_coconut_balance(&self, account_id: &AccountKey, now: u64) -> (r: Result<
        u128,
        CoconutError,
    >)
        requires
            self.wf(),
            self.clock_ok(now),
        ensures
            r == young_balance_outcome(*self, account_id@, now),
    {
        let citizen: Citizen = match self.citizen(account_id) {
            Ok(c) => c,
            Err(e) => {
                return Err(e);
            },
        };
        proof {
            self.lemma_registered_citizen_facts(account_id@, now);
        }
        citizen.young_coconut_balance(now)
    }

    /// The brown balance of the citizen registered for `account_id`, as of
    /// clock value `now`.
    pub fn brown_coconut_balance(&self, account_id: &AccountKey, now: u64) -> (r: Result<
        u128,
        CoconutError,
    >)
        requires
            self.wf(),
            self.clock_ok(now),
        ensures
            r == brown_balance_outcome(*self, account_id@, now),
    {
        let citizen: Citizen = match self.citizen(account_id) {
            Ok(c) => c,
            Err(e) => {
                return Err(e);
            },
        };
        proof {
            self.lemma_registered_citizen_facts(account_id@, now);
        }
        citizen.brown_coconut_balance(now)
    }

    /// Everything about one citizen as of clock value `now`: identifiers,
    /// times and both balances, all consistent with one clock reading.
    pub fn citizen_state(&self, account_id: &AccountKey, now: u64) -> (r: Result<
        CitizenState,
        CoconutError,
    >)
        requires
            self.wf(),
            self.clock_ok(now),
        ensures
            r == citizen_state_outcome(*self, *account_id, now),
    {
        let citizen: Citizen = match self.citizen(account_id) {
            Ok(c) => c,
            Err(e) => {
                return Err(e);
            },
        };
        let citizen_id: CitizenId = match self.lookup_account(account_id) {
            Some(id) => id,
            // Unreachable: the record was just loaded, so the key resolves.
            None => {
                return Err(CoconutError::UnknownAccount);
            },
        };
        proof {
            self.lemma_registered_citizen_facts(account_id@, now);
        }
        let young: u128 = match citizen.young_coconut_balance(now) {
            Ok(v) => v,
            Err(e) => {
                return Err(e);
            },
        };
        let brown: u128 = match citizen.brown_coconut_balance(now) {
            Ok(v) => v,
            Err(e) => {
                return Err(e);
            },
        };
        Ok(
            CitizenState {
                account_id: account_id.clone(),
                citizen_id,
                current_block_index: now,
                init_block_index: citizen.init_block_index,
                block_age: now - citizen.init_block_index,
                young_coconut_balance: young,
                brown_coconut_balance: brown,
            },
        )
    }
}

/// Whether applying a transfer of `qty` would push one of the two audit
/// counters past the 128-bit range.
pub open spec fn transfer_counters_overflow(
    pre: Coconuts,
    from: Seq<char>,
    to: Seq<char>,
    qty: u128,
) -> bool {
    let cf = pre.citizen_for(from);
    let ct = pre.citizen_for(to);
    if from == to {
        cf.young_coconut_adjustments.sent + qty > u128::MAX
            || cf.young_coconut_adjustments.received + qty > u128::MAX
    } else {
        cf.young_coconut_adjustments.sent + qty > u128::MAX
            || ct.young_coconut_adjustments.received + qty > u128::MAX
    }
}

/// The exact result a transfer returns, checked in this order: sender
/// registered, recipient registered, sender's balance computable, balance
/// sufficient, audit counters free of overflow.
pub open spec fn transfer_outcome(
    pre: Coconuts,
    from: Seq<char>,
    to: Seq<char>,
    qty: u128,
    now: u64,
) -> Result<(), CoconutError> {
    if !pre.registered(from) {
        Err(CoconutError::SenderNotRegistered)
    } else if !pre.registered(to) {
        Err(CoconutError::RecipientNotRegistered)
    } else if pre.citizen_for(from).spec_baseline(now) > u128::MAX {
        Err(CoconutError::ArithmeticOverflow)
    } else if qty > pre.citizen_for(from).spec_young(now) {
        Err(CoconutError::InsufficientBalance)
    } else if transfer_counters_overflow(pre, from, to, qty) {
        Err(CoconutError::ArithmeticOverflow)
    } else {
        Ok(())
    }
}

/// How a successful transfer changes the ledger: the registry and the id
/// counter stay as they were; the sender's `sent` and the recipient's
/// `received` counters each grow by `qty` (both on the same record for a
/// self-transfer); every other record is untouched.
pub open spec fn transfer_effect(
    pre: Coconuts,
    post: Coconuts,
    from: Seq<char>,
    to: Seq<char>,
    qty: u128,
) -> bool {
    let fid = pre.id_of(from)->0;
    let tid = pre.id_of(to)->0;
    &&& post.accounts_seq() == pre.accounts_seq()
    &&& post.next_id() == pre.next_id()
    &&& (from == to ==> post.citizen_of(fid) == Some(
        pre.citizen_for(from).with_sent_added(qty).with_received_added(qty),
    ) && (forall|q: CitizenId| q != fid ==> post.citizen_of(q) == pre.citizen_of(q)))
    &&& (from != to ==> post.citizen_of(fid) == Some(pre.citizen_for(from).with_sent_added(qty))
        && post.citizen_of(tid) == Some(pre.citizen_for(to).with_received_added(qty)) && (
    forall|q: CitizenId| q != fid && q != tid ==> post.citizen_of(q) == pre.citizen_of(q)))
}

impl Coconuts {
    /// Two distinct registered keys never share a citizen id.
    proof fn lemma_distinct_keys_distinct_ids(self, k1: Seq<char>, k2: Seq<char>)
        requires
            self.wf(),
            self.registered(k1),
            self.registered(k2),
            k1 != k2,
        ensures
            self.id_of(k1)->0 != self.id_of(k2)->0,
    {
        lemma_find_account_index(self.accounts@, k1);
        lemma_find_account_index(self.accounts@, k2);
        let i1 = choose|i: int|
            0 <= i < self.accounts@.len() && (#[trigger] self.accounts@[i]).0@ == k1
                && self.accounts@[i].1 == find_account(self.accounts@, k1)->0;
        let i2 = choose|i: int|
            0 <= i < self.accounts@.len() && (#[trigger] self.accounts@[i]).0@ == k2
                && self.accounts@[i].1 == find_account(self.accounts@, k2)->0;
        assert(i1 != i2);
    }

    /// Move `qty` young coconuts from one citizen to another: the sender's
    /// `sent` counter and the recipient's `received` counter each grow by
    /// `qty`.  A self-transfer applies both updates to the one record.  All
    /// checks precede any write, so a failed transfer changes nothing.
    pub fn transfer_young_coconuts(
        &mut self,
        account_id_from: &AccountKey,
        account_id_to: &AccountKey,
        qty: u128,
        now: u64,
    ) -> (r: Result<(), CoconutError>)
        requires
            old(self).wf(),
            old(self).clock_ok(now),
        ensures
            final(self).wf(),
            final(self).clock_ok(now),
            r == transfer_outcome(*old(self), account_id_from@, account_id_to@, qty, now),
            r is Err ==> *final(self) == *old(self),
            r is Ok ==> transfer_effect(
                *old(self),
                *final(self),
                account_id_from@,
                account_id_to@,
                qty,
            ),
    {
        if !self.is_citizen(account_id_from) {
            return Err(CoconutError::SenderNotRegistered);
        }
        if !self.is_citizen(account_id_to) {
            return Err(CoconutError::RecipientNotRegistered);
        }
        let citizen_from: Citizen = match self.citizen(account_id_from) {
            Ok(c) => c,
            // Unreachable: the sender was just checked to be registered.
            Err(e) => {
                return Err(e);
            },
        };
        proof {
            self.lemma_registered_citizen_facts(account_id_from@, now);
            self.lemma_registered_citizen_facts(account_id_to@, now);
        }
        let balance_from: u128 = match citizen_from.young_coconut_balance(now) {
            Ok(v) => v,
            Err(e) => {
                return Err(e);
            },
        };
        if qty > balance_from {
            return Err(CoconutError::InsufficientBalance);
        }
        if *account_id_from == *account_id_to {
            // A self-transfer loads the record once and applies both
            // counter updates to it.
            let new_sent: u128 = match citizen_from.young_coconut_adjustments.sent.checked_add(
                qty,
            ) {
                Some(v) => v,
                None => {
                    return Err(CoconutError::ArithmeticOverflow);
                },
            };
            let new_received: u128 = match citizen_from
                .young_coconut_adjustments
                .received
                .checked_add(qty) {
                Some(v) => v,
                None => {
                    return Err(CoconutError::ArithmeticOverflow);
                },
            };
            let updated: Citizen = Citizen {
                young_coconut_adjustments: Adjustments { sent: new_sent, received: new_received },
                ..citizen_from
            };
            let ghost pre = *self;
            let res: Result<(), CoconutError> = self.set_citizen(account_id_from, &updated);
            match res {
                // The write cannot fail: the key is registered.
                Ok(_) => {
                    proof {
                        assert forall|j: int|
                            0 <= j < self.citizens_seq().len() implies now >= (#[trigger] self
                            .citizens_seq()[j]).1.init_block_index by {
                            assert(pre.clock_ok(now));
                        }
                    }
                    Ok(())
                },
                Err(e) => Err(e),
            }
        } else {
            let citizen_to: Citizen = match self.citizen(account_id_to) {
                Ok(c) => c,
                // Unreachable: the recipient was just checked to be registered.
                Err(e) => {
                    return Err(e);
                },
            };
            let new_sent: u128 = match citizen_from.young_coconut_adjustments.sent.checked_add(
                qty,
            ) {
                Some(v) => v,
                None => {
                    return Err(CoconutError::ArithmeticOverflow);
                },
            };
            let new_received: u128 = match citizen_to.young_coconut_adjustments.received
                .checked_add(qty) {
                Some(v) => v,
                None => {
                    return Err(CoconutError::ArithmeticOverflow);
                },
            };
            let updated_from: Citizen = Citizen {
                young_coconut_adjustments: Adjustments {
                    sent: new_sent,
                    received: citizen_from.young_coconut_adjustments.received,
                },
                ..citizen_from
            };
            let updated_to: Citizen = Citizen {
                young_coconut_adjustments: Adjustments {
                    sent: citizen_to.young_coconut_adjustments.sent,
                    received: new_received,
                },
                ..citizen_to
            };
            let ghost pre = *self;
            proof {
                pre.lemma_distinct_keys_distinct_ids(account_id_from@, account_id_to@);
            }
            let res_from: Result<(), CoconutError> = self.set_citizen(
                account_id_from,
                &updated_from,
            );
            match res_from {
                // The write cannot fail: the sender's key is registered.
                Ok(_) => (),
                Err(e) => {
                    return Err(e);
                },
            };
            proof {
                assert forall|j: int|
                    0 <= j < self.citizens_seq().len() implies now >= (#[trigger] self
                    .citizens_seq()[j]).1.init_block_index by {
                    assert(pre.clock_ok(now));
                }
            }
            let res_to: Result<(), CoconutError> = self.set_citizen(account_id_to, &updated_to);
            match res_to {
                // The write cannot fail: the recipient's key is registered.
                Ok(_) => {
                    proof {
                        assert forall|j: int|
                            0 <= j < self.citizens_seq().len() implies now >= (#[trigger] self
                            .citizens_seq()[j]).1.init_block_index by {
                            assert(pre.clock_ok(now));
                        }
                    }
                    Ok(())
                },
                Err(e) => Err(e),
            }
        }
    }

    /// The transfer entry point as the host calls it: the sender is the
    /// account the host resolved as the signer of the call.
    pub fn signer_transfer_young_coconuts(
        &mut self,
        signer: &AccountKey,
        account_id_to: &AccountKey,
        qty: u128,
        now: u64,
    ) -> (r: Result<(), CoconutError>)
        requires
            old(self).wf(),
            old(self).clock_ok(now),
        ensures
            final(self).wf(),
            final(self).clock_ok(now),
            r == transfer_outcome(*old(self), signer@, account_id_to@, qty, now),
            r is Err ==> *final(self) == *old(self),
            r is Ok ==> transfer_effect(*old(self), *final(self), signer@, account_id_to@, qty),
    {
        self.transfer_young_coconuts(signer, account_id_to, qty, now)
    }
}

/// True exactly when no two registry entries share a key.
fn check_unique_account_keys(accounts: &Vec<(AccountKey, CitizenId)>) -> (r: bool)
    ensures
        r == unique_account_keys(accounts@),
{
    let n: usize = accounts.len();
    let mut i: usize = 0;
    while i < n
        invariant
            i <= n,
            n == accounts@.len(),
            forall|p: int, q: int|
                0 <= p < q < n && p < i ==> (#[trigger] accounts@[p]).0@ != (
                #[trigger] accounts@[q]).0@,
        decreases n - i,
    {
        let mut j: usize = i + 1;
        while j < n
            invariant
                i < n,
                i + 1 <= j <= n,
                n == accounts@.len(),
                forall|q: int| i < q < j ==> (#[trigger] accounts@[q]).0@ != accounts@[i as int].0@,
            decreases n - j,
        {
            if accounts[i].0 == accounts[j].0 {
                return false;
            }
            j = j + 1;
        }
        i = i + 1;
    }
    true
}

/// True exactly when no two registry entries point at the same citizen id.
fn check_unique_account_ids(accounts: &Vec<(AccountKey, CitizenId)>) -> (r: bool)
    ensures
        r == unique_account_ids(accounts@),
{
    let n: usize = accounts.len();
    let mut i: usize = 0;
    while i < n
        invariant
            i <= n,
            n == accounts@.len(),
            forall|p: int, q: int|
                0 <= p < q < n && p < i ==> (#[trigger] accounts@[p]).1 != (
                #[trigger] accounts@[q]).1,
        decreases n - i,
    {
        let mut j: usize = i + 1;
        while j < n
            invariant
                i < n,
                i + 1 <= j <= n,
                n == accounts@.len(),
                forall|q: int| i < q < j ==> (#[trigger] accounts@[q]).1 != accounts@[i as int].1,
            decreases n - j,
        {
            if accounts[i].1 == accounts[j].1 {
                return false;
            }
            j = j + 1;
        }
        i = i + 1;
    }
    true
}

/// True exactly when no two store entries share a citizen id.
fn check_unique_citizen_ids(citizens: &Vec<(CitizenId, Citizen)>) -> (r: bool)
    ensures
        r == unique_citizen_ids(citizens@),
{
    let n: usize = citizens.len();
    let mut i: usize = 0;
    while i < n
        invariant
            i <= n,
            n == citizens@.len(),
            forall|p: int, q: int|
                0 <= p < q < n && p < i ==> (#[trigger] citizens@[p]).0 != (
                #[trigger] citizens@[q]).0,
        decreases n - i,
    {
        let mut j: usize = i + 1;
        while j < n
            invariant
                i < n,
                i + 1 <= j <= n,
                n == citizens@.len(),
                forall|q: int| i < q < j ==> (#[trigger] citizens@[q]).0 != citizens@[i as int].0,
            decreases n - j,
        {
            if citizens[i].0 == citizens[j].0 {
                return false;
            }
            j = j + 1;
        }
        i = i + 1;
    }
    true
}

/// Whether the store holds a record under `citizen_id`.
fn citizens_contain(citizens: &Vec<(CitizenId, Citizen)>, citizen_id: CitizenId) -> (r: bool)
    ensures
        r == (find_citizen(citizens@, citizen_id) is Some),
{
    let n: usize = citizens.len();
    proof {
        assert(citizens@.subrange(0, n as int) =~= citizens@);
    }
    let mut i: usize = 0;
    while i < n
        invariant
            i <= n,
            n == citizens@.len(),
            find_citizen(citizens@, citizen_id) == find_citizen(
                citizens@.subrange(i as int, n as int),
                citizen_id,
            ),
        decreases n - i,
    {
        if citizens[i].0 == citizen_id {
            proof {
                assert(citizens@.subrange(i as int, n as int)[0] == citizens@[i as int]);
            }
            return true;
        }
        proof {
            assert(citizens@.subrange(i as int, n as int).drop_first() =~= citizens@.subrange(
                i as int + 1,
                n as int,
            ));
        }
        i = i + 1;
    }
    proof {
        assert(citizens@.subrange(n as int, n as int) =~= Seq::<(CitizenId, Citizen)>::empty());
    }
    false
}

/// Whether some registry entry points at `citizen_id`.
fn accounts_refer(accounts: &Vec<(AccountKey, CitizenId)>, citizen_id: CitizenId) -> (r: bool)
    ensures
        r == some_account_refers(accounts@, citizen_id),
{
    let n: usize = accounts.len();
    let mut i: usize = 0;
    while i < n
        invariant
            i <= n,
            n == accounts@.len(),
            forall|p: int| 0 <= p < i ==> (#[trigger] accounts@[p]).1 != citizen_id,
        decreases n - i,
    {
        if accounts[i].1 == citizen_id {
            return true;
        }
        i = i + 1;
    }
    false
}

/// True exactly when every registered id has a record in the store.
fn check_accounts_have_citizens(
    accounts: &Vec<(AccountKey, CitizenId)>,
    citizens: &Vec<(CitizenId, Citizen)>,
) -> (r: bool)
    ensures
        r == (forall|i: int|
            0 <= i < accounts@.len() ==> find_citizen(citizens@, (#[trigger] accounts@[i]).1)
                is Some),
{
    let n: usize = accounts.len();
    let mut i: usize = 0;
    while i < n
        invariant
            i <= n,
            n == accounts@.len(),
            forall|p: int|
                0 <= p < i ==> find_citizen(citizens@, (#[trigger] accounts@[p]).1) is Some,
        decreases n - i,
    {
        if !citizens_contain(citizens, accounts[i].1) {
            return false;
        }
        i = i + 1;
    }
    true
}

/// True exactly when every stored id lies below the id counter.
fn check_ids_below_counter(citizens: &Vec<(CitizenId, Citizen)>, next_citizen_id: u64) -> (r: bool)
    ensures
        r == (forall|j: int|
            0 <= j < citizens@.len() ==> (#[trigger] citizens@[j]).0 < next_citizen_id),
{
    let n: usize = citizens.len();
    let mut i: usize = 0;
    while i < n
        invariant
            i <= n,
            n == citizens@.len(),
            forall|p: int| 0 <= p < i ==> (#[trigger] citizens@[p]).0 < next_citizen_id,
        decreases n - i,
    {
        if citizens[i].0 >= next_citizen_id {
            return false;
        }
        i = i + 1;
    }
    true
}

/// True exactly when every stored citizen is referenced by some key.
fn check_citizens_referenced(
    accounts: &Vec<(AccountKey, CitizenId)>,
    citizens: &Vec<(CitizenId, Citizen)>,
) -> (r: bool)
    ensures
        r == (forall|j: int|
            0 <= j < citizens@.len() ==> some_account_refers(accounts@, (#[trigger] citizens@[j]).0)),
{
    let n: usize = citizens.len();
    let mut i: usize = 0;
    while i < n
        invariant
            i <= n,
            n == citizens@.len(),
            forall|p: int|
                0 <= p < i ==> some_account_refers(accounts@, (#[trigger] citizens@[p]).0),
        decreases n - i,
    {
        if !accounts_refer(accounts, citizens[i].0) {
            return false;
        }
        i = i + 1;
    }
    true
}

/// True exactly when every stored record is structurally valid.
fn check_records_valid(citizens: &Vec<(CitizenId, Citizen)>) -> (r: bool)
    ensures
        r == (forall|j: int| 0 <= j < citizens@.len() ==> (#[trigger] citizens@[j]).1.wf()),
{
    let n: usize = citizens.len();
    let mut i: usize = 0;
    while i < n
        invariant
            i <= n,
            n == citizens@.len(),
            forall|p: int| 0 <= p < i ==> (#[trigger] citizens@[p]).1.wf(),
        decreases n - i,
    {
        if citizens[i].1.coconut_tree_count < 1 {
            return false;
        }
        i = i + 1;
    }
    true
}

impl Coconuts {
    /// Rebuild a ledger from its persisted parts: the registry table, the
    /// store table and the id counter, as an external store hands them
    /// back.  Every internal-consistency condition is checked; a state that
    /// violates any of them is rejected with `CorruptLedger` rather than
    /// trusted.
    pub fn restore(
        accounts: Vec<(AccountKey, CitizenId)>,
        citizens: Vec<(CitizenId, Citizen)>,
        next_citizen_id: u64,
    ) -> (r: Result<Coconuts, CoconutError>)
        ensures
            r is Ok <==> parts_wf(accounts@, citizens@, next_citizen_id),
            r matches Ok(c) ==> c.accounts_seq() == accounts@ && c.citizens_seq() == citizens@
                && c.next_id() == next_citizen_id && c.wf(),
            r matches Err(e) ==> e == CoconutError::CorruptLedger,
    {
        if !check_unique_account_keys(&accounts) {
            return Err(CoconutError::CorruptLedger);
        }
        if !check_unique_account_ids(&accounts) {
            return Err(CoconutError::CorruptLedger);
        }
        if !check_unique_citizen_ids(&citizens) {
            return Err(CoconutError::CorruptLedger);
        }
        if !check_accounts_have_citizens(&accounts, &citizens) {
            return Err(CoconutError::CorruptLedger);
        }
        if !check_ids_below_counter(&citizens, next_citizen_id) {
            return Err(CoconutError::CorruptLedger);
        }
        if !check_citizens_referenced(&accounts, &citizens) {
            return Err(CoconutError::CorruptLedger);
        }
        if !check_records_valid(&citizens) {
            return Err(CoconutError::CorruptLedger);
        }
        Ok(Coconuts { accounts, citizens, next_citizen_id })
    }
}

impl Default for Coconuts {
    /// An empty ledger: nothing registered, nothing stored, ids starting
    /// at 0.
    fn default() -> (c: Coconuts)
        ensures
            c.wf(),
            c.accounts_seq().len() == 0,
            c.citizens_seq().len() == 0,
            c.next_id() == 0,
    {
        Coconuts { accounts: Vec::new(), citizens: Vec::new(), next_citizen_id: 0 }
    }
}

} // verus!
