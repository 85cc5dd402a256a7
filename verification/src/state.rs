//! The orchestrator's persistent state and its mathematical model.
//!
//! The state is a set of active fractionalization records — one per locked
//! non-fungible token, carrying the address of the fungible-token contract
//! that stands for its shares — plus a single pending slot for the creation
//! most recently submitted and still awaiting its completion callback.
//!
//! The model of the records is a finite map from (collection, token)
//! pairs to fungible-token addresses. Keeping one record list serve both
//! lookup directions makes the forward map and its reverse index consistent
//! by construction: both are written, or neither.

use vstd::prelude::*;

verus! {

/// What identifies a locked token: its collection's address and its token
/// identifier within that collection.
pub type TokenKey = (Seq<char>, Seq<char>);

/// The pending slot: the pair most recently submitted for fractionalization,
/// kept until the creation callback commits it.
pub struct Config {
    pub last_nft_fractionalized: (String, String),
}

impl View for Config {
    type V = TokenKey;

    open spec fn view(&self) -> TokenKey {
        (self.last_nft_fractionalized.0@, self.last_nft_fractionalized.1@)
    }
}

/// One active fractionalization: the locked token and the fungible-token
/// contract that stands for its shares.
pub struct Record {
    pub collection: String,
    pub token_id: String,
    pub cw20_address: String,
}

/// The key under which a record is found.
pub open spec fn record_key(r: Record) -> TokenKey {
    (r.collection@, r.token_id@)
}

/// The mathematical value of the orchestrator's state.
#[verifier::ext_equal]
pub struct StateModel {
    /// (collection, token) pairs to fungible-token addresses.
    pub records: Map<TokenKey, Seq<char>>,
    /// The pair awaiting its creation callback, if one is outstanding.
    pub pending: Option<TokenKey>,
}

/// The orchestrator's state.
pub struct State {
    /// Version bookkeeping, written once at setup and read-only thereafter.
    pub contract_name: String,
    pub contract_version: String,
    /// The active records; no two share a key and no two share an address.
    pub records: Vec<Record>,
    /// The pending creation, if one is outstanding.
    pub pending: Option<Config>,
}

/// The map the record list stands for. A later record with the same key
/// would shadow an earlier one; well-formed states hold no such pair.
pub open spec fn records_map(rs: Seq<Record>) -> Map<TokenKey, Seq<char>>
    decreases rs.len(),
{
    if rs.len() == 0 {
        Map::empty()
    } else {
        records_map(rs.drop_last()).insert(record_key(rs.last()), rs.last().cw20_address@)
    }
}

impl View for State {
    type V = StateModel;

    open spec fn view(&self) -> StateModel {
        StateModel {
            records: records_map(self.records@),
            pending: match self.pending {
                Some(cfg) => Some(cfg@),
                None => None,
            },
        }
    }
}

/// No two records share a (collection, token) pair, and no two share a
/// fungible-token address: each direction of lookup is single-valued.
pub open spec fn wf_records(rs: Seq<Record>) -> bool {
    forall|i: int, j: int|
        0 <= i < j < rs.len() ==> record_key(#[trigger] rs[i]) != record_key(#[trigger] rs[j])
            && rs[i].cw20_address@ != rs[j].cw20_address@
}

impl State {
    /// The state's invariant.
    pub open spec fn wf(&self) -> bool {
        wf_records(self.records@)
    }
}

/// The pair an address resolves back to, where one exists. Injectivity of
/// well-formed records makes the chosen pair the only one.
pub open spec fn reverse_lookup(m: Map<TokenKey, Seq<char>>, addr: Seq<char>) -> Option<TokenKey> {
    if exists|k: TokenKey| #[trigger] m.contains_key(k) && m[k] == addr {
        Some(choose|k: TokenKey| #[trigger] m.contains_key(k) && m[k] == addr)
    } else {
        None
    }
}

/// The model-level invariant: finitely many records, no address shared.
pub open spec fn model_wf(s: StateModel) -> bool {
    &&& s.records.dom().finite()
    &&& forall|k1: TokenKey, k2: TokenKey|
        #[trigger] s.records.contains_key(k1) && #[trigger] s.records.contains_key(k2) && k1 != k2
            ==> s.records[k1] != s.records[k2]
}

// ---------------------------------------------------------------------------
// The valid transitions of one state. The handlers' contracts say that each
// entry point takes exactly these steps; the laws compose them.
// ---------------------------------------------------------------------------

/// Fractionalize is accepted: the pair has no active record and is not the
/// one already awaiting its creation callback.
pub open spec fn can_fractionalize(s: StateModel, key: TokenKey) -> bool {
    !s.records.contains_key(key) && s.pending != Some(key)
}

/// Fractionalize writes the pending slot, overwriting an unrelated pending
/// creation, and touches no record.
pub open spec fn after_fractionalize(s: StateModel, key: TokenKey) -> StateModel {
    StateModel { records: s.records, pending: Some(key) }
}

/// The completion callback is accepted: a creation is pending, and the
/// reported address collides with no direction of the records map.
pub open spec fn can_commit(s: StateModel, addr: Seq<char>) -> bool {
    &&& s.pending is Some
    &&& !s.records.contains_key(s.pending->0)
    &&& reverse_lookup(s.records, addr) is None
}

/// The callback commits the pending pair to the records and consumes the
/// pending slot.
pub open spec fn after_commit(s: StateModel, addr: Seq<char>) -> StateModel {
    StateModel { records: s.records.insert(s.pending->0, addr), pending: None }
}

/// Unfractionalize is accepted: the address has an active record, and the
/// redeemed amount equals the token's whole outstanding supply.
pub open spec fn can_redeem(
    s: StateModel,
    addr: Seq<char>,
    amount: u128,
    total_supply: u128,
) -> bool {
    reverse_lookup(s.records, addr) is Some && amount == total_supply
}

/// Unfractionalize deletes the record; the pending slot is untouched.
pub open spec fn after_redeem(s: StateModel, addr: Seq<char>) -> StateModel {
    StateModel { records: s.records.remove(reverse_lookup(s.records, addr)->0), pending: s.pending }
}

// ---------------------------------------------------------------------------
// Lemmas tying the record list to its map.
// ---------------------------------------------------------------------------

/// Dropping the last record keeps the records well-formed.
pub proof fn lemma_wf_drop_last(rs: Seq<Record>)
    requires
        wf_records(rs),
        rs.len() > 0,
    ensures
        wf_records(rs.drop_last()),
{
    assert forall|i: int, j: int| 0 <= i < j < rs.drop_last().len() implies record_key(
        #[trigger] rs.drop_last()[i],
    ) != record_key(#[trigger] rs.drop_last()[j]) && rs.drop_last()[i].cw20_address@
        != rs.drop_last()[j].cw20_address@ by {
        assert(rs.drop_last()[i] == rs[i]);
        assert(rs.drop_last()[j] == rs[j]);
    }
}

/// The map holds exactly the keys of the list, with each key's address,
/// and its domain is finite.
pub proof fn lemma_records_map_correspond(rs: Seq<Record>)
    requires
        wf_records(rs),
    ensures
        records_map(rs).dom().finite(),
        forall|i: int|
            0 <= i < rs.len() ==> records_map(rs).contains_key(record_key(#[trigger] rs[i]))
                && records_map(rs)[record_key(rs[i])] == rs[i].cw20_address@,
        forall|k: TokenKey|
            #[trigger] records_map(rs).contains_key(k) ==> exists|i: int|
                0 <= i < rs.len() && record_key(#[trigger] rs[i]) == k,
    decreases rs.len(),
{
    if rs.len() == 0 {
    } else {
        lemma_wf_drop_last(rs);
        lemma_records_map_correspond(rs.drop_last());
        let prev = records_map(rs.drop_last());
        let last = rs.last();
        assert forall|i: int| 0 <= i < rs.len() implies records_map(rs).contains_key(
            record_key(#[trigger] rs[i]),
        ) && records_map(rs)[record_key(rs[i])] == rs[i].cw20_address@ by {
            if i < rs.len() - 1 {
                assert(rs.drop_last()[i] == rs[i]);
                // well-formedness: the last record cannot shadow record i
                assert(record_key(rs[i]) != record_key(rs[rs.len() - 1]));
            } else {
                assert(rs[i] == last);
            }
        }
        assert forall|k: TokenKey| #[trigger] records_map(rs).contains_key(k) implies exists|i: int|
            0 <= i < rs.len() && record_key(#[trigger] rs[i]) == k by {
            if k == record_key(last) {
                assert(record_key(rs[rs.len() - 1]) == k);
            } else {
                assert(prev.contains_key(k));
                let i = choose|i: int| 0 <= i < rs.drop_last().len() && record_key(
                    #[trigger] rs.drop_last()[i],
                ) == k;
                assert(rs.drop_last()[i] == rs[i]);
                assert(record_key(rs[i]) == k);
            }
        }
    }
}

/// Well-formed records give a well-formed model: the handlers keep `wf`,
/// so every state they produce meets the `model_wf` the laws ask for.
pub proof fn lemma_model_wf(s: &State)
    requires
        s.wf(),
    ensures
        model_wf(s@),
{
    let rs = s.records@;
    lemma_records_map_correspond(rs);
    let m = records_map(rs);
    assert forall|k1: TokenKey, k2: TokenKey|
        #[trigger] m.contains_key(k1) && #[trigger] m.contains_key(k2) && k1 != k2 implies m[k1]
        != m[k2] by {
        let i1 = choose|i: int| 0 <= i < rs.len() && record_key(#[trigger] rs[i]) == k1;
        let i2 = choose|i: int| 0 <= i < rs.len() && record_key(#[trigger] rs[i]) == k2;
        assert(m[k1] == rs[i1].cw20_address@);
        assert(m[k2] == rs[i2].cw20_address@);
    }
}

/// The record at position `i` is what reverse lookup of its address finds.
pub proof fn lemma_reverse_lookup_at(rs: Seq<Record>, i: int)
    requires
        wf_records(rs),
        0 <= i < rs.len(),
    ensures
        reverse_lookup(records_map(rs), rs[i].cw20_address@) == Some(record_key(rs[i])),
{
    lemma_records_map_correspond(rs);
    let m = records_map(rs);
    let addr = rs[i].cw20_address@;
    assert(m.contains_key(record_key(rs[i])) && m[record_key(rs[i])] == addr);
    let k = choose|k: TokenKey| #[trigger] m.contains_key(k) && m[k] == addr;
    let j = choose|j: int| 0 <= j < rs.len() && record_key(#[trigger] rs[j]) == k;
    if j != i {
        assert(rs[j].cw20_address@ != rs[i].cw20_address@);
        assert(m[k] == rs[j].cw20_address@);
    }
    assert(k == record_key(rs[i]));
}

/// An address no record holds is found by reverse lookup of no map.
pub proof fn lemma_reverse_lookup_none(rs: Seq<Record>, addr: Seq<char>)
    requires
        wf_records(rs),
        forall|i: int| 0 <= i < rs.len() ==> (#[trigger] rs[i]).cw20_address@ != addr,
    ensures
        reverse_lookup(records_map(rs), addr) is None,
{
    lemma_records_map_correspond(rs);
    let m = records_map(rs);
    if exists|k: TokenKey| #[trigger] m.contains_key(k) && m[k] == addr {
        let k = choose|k: TokenKey| #[trigger] m.contains_key(k) && m[k] == addr;
        let i = choose|i: int| 0 <= i < rs.len() && record_key(#[trigger] rs[i]) == k;
        assert(m[k] == rs[i].cw20_address@);
    }
}

/// Appending a record with a fresh key and address inserts it into the map.
pub proof fn lemma_records_map_push(rs: Seq<Record>, r: Record)
    requires
        wf_records(rs),
        forall|i: int| 0 <= i < rs.len() ==> record_key(#[trigger] rs[i]) != record_key(r),
        forall|i: int| 0 <= i < rs.len() ==> (#[trigger] rs[i]).cw20_address@ != r.cw20_address@,
    ensures
        wf_records(rs.push(r)),
        records_map(rs.push(r)) == records_map(rs).insert(record_key(r), r.cw20_address@),
{
    assert(rs.push(r).drop_last() =~= rs);
    assert(rs.push(r).last() == r);
    assert forall|i: int, j: int| 0 <= i < j < rs.push(r).len() implies record_key(
        #[trigger] rs.push(r)[i],
    ) != record_key(#[trigger] rs.push(r)[j]) && rs.push(r)[i].cw20_address@
        != rs.push(r)[j].cw20_address@ by {
        assert(rs.push(r)[i] == rs[i]);
        if j < rs.len() {
            assert(rs.push(r)[j] == rs[j]);
        } else {
            assert(rs.push(r)[j] == r);
        }
    }
}

/// Removing the record at position `i` removes its key from the map.
pub proof fn lemma_records_map_remove(rs: Seq<Record>, i: int)
    requires
        wf_records(rs),
        0 <= i < rs.len(),
    ensures
        wf_records(rs.remove(i)),
        records_map(rs.remove(i)) == records_map(rs).remove(record_key(rs[i])),
    decreases rs.len(),
{
    lemma_records_map_correspond(rs);
    assert forall|p: int, q: int| 0 <= p < q < rs.remove(i).len() implies record_key(
        #[trigger] rs.remove(i)[p],
    ) != record_key(#[trigger] rs.remove(i)[q]) && rs.remove(i)[p].cw20_address@
        != rs.remove(i)[q].cw20_address@ by {
        assert(rs.remove(i)[p] == if p < i {
            rs[p]
        } else {
            rs[p + 1]
        });
        assert(rs.remove(i)[q] == if q < i {
            rs[q]
        } else {
            rs[q + 1]
        });
    }
    if i == rs.len() - 1 {
        assert(rs.remove(i) =~= rs.drop_last());
        lemma_wf_drop_last(rs);
        lemma_records_map_correspond(rs.drop_last());
        // the last key is fresh in the map of the earlier records
        assert forall|j: int|
            0 <= j < rs.drop_last().len() implies record_key(#[trigger] rs.drop_last()[j])
            != record_key(rs[i]) by {
            assert(rs.drop_last()[j] == rs[j]);
        }
        assert(!records_map(rs.drop_last()).contains_key(record_key(rs[i])));
        assert(records_map(rs.drop_last()).insert(record_key(rs.last()), rs.last().cw20_address@)
            .remove(record_key(rs[i])) =~= records_map(rs.drop_last()));
    } else {
        lemma_wf_drop_last(rs);
        lemma_records_map_remove(rs.drop_last(), i);
        assert(rs.remove(i).drop_last() =~= rs.drop_last().remove(i));
        assert(rs.remove(i).last() == rs.last());
        assert(rs.drop_last()[i] == rs[i]);
        let key_i = record_key(rs[i]);
        let key_last = record_key(rs.last());
        assert(key_i != key_last);
        assert(records_map(rs.remove(i)) == records_map(rs.drop_last()).remove(key_i).insert(
            key_last,
            rs.last().cw20_address@,
        ));
        assert(records_map(rs.drop_last()).remove(key_i).insert(
            key_last,
            rs.last().cw20_address@,
        ) =~= records_map(rs.drop_last()).insert(key_last, rs.last().cw20_address@).remove(key_i));
    }
}

/// A map of well-formed records has as many keys as the list has records.
pub proof fn lemma_records_map_len(rs: Seq<Record>)
    requires
        wf_records(rs),
    ensures
        records_map(rs).dom().len() == rs.len(),
    decreases rs.len(),
{
    if rs.len() == 0 {
        assert(records_map(rs).dom() =~= Set::<TokenKey>::empty());
        broadcast use vstd::set::axiom_set_empty_len;
    } else {
        lemma_wf_drop_last(rs);
        lemma_records_map_len(rs.drop_last());
        lemma_records_map_correspond(rs.drop_last());
        assert forall|j: int|
            0 <= j < rs.drop_last().len() implies record_key(#[trigger] rs.drop_last()[j])
            != record_key(rs.last()) by {
            assert(rs.drop_last()[j] == rs[j]);
            assert(rs.last() == rs[rs.len() - 1]);
        }
        let prev = records_map(rs.drop_last());
        assert(!prev.contains_key(record_key(rs.last())));
        assert(records_map(rs).dom() =~= prev.dom().insert(record_key(rs.last())));
        vstd::set::axiom_set_insert_len(prev.dom(), record_key(rs.last()));
    }
}

// ---------------------------------------------------------------------------
// Executable lookups and updates, each meeting its model-level contract.
// ---------------------------------------------------------------------------

impl State {
    /// The position of the record for a (collection, token) pair.
    fn position(&self, collection: &String, token_id: &String) -> (r: Option<usize>)
        ensures
            match r {
                Some(i) => i < self.records@.len() && record_key(self.records@[i as int]) == (
                    collection@,
                    token_id@,
                ),
                None => forall|i: int|
                    0 <= i < self.records@.len() ==> record_key(#[trigger] self.records@[i]) != (
                        collection@,
                        token_id@,
                    ),
            },
    {
        let n = self.records.len();
        let mut i: usize = 0;
        while i < n
            invariant
                i <= n,
                n == self.records@.len(),
                forall|j: int|
                    0 <= j < i ==> record_key(#[trigger] self.records@[j]) != (
                        collection@,
                        token_id@,
                    ),
            decreases n - i,
        {
            let rec = &self.records[i];
            if rec.collection == *collection && rec.token_id == *token_id {
                return Some(i);
            }
            i = i + 1;
        }
        None
    }

    /// The position of the record holding a fungible-token address.
    fn position_by_address(&self, cw20_address: &String) -> (r: Option<usize>)
        ensures
            match r {
                Some(i) => i < self.records@.len() && self.records@[i as int].cw20_address@
                    == cw20_address@,
                None => forall|i: int|
                    0 <= i < self.records@.len() ==> (#[trigger] self.records@[i]).cw20_address@
                        != cw20_address@,
            },
    {
        let n = self.records.len();
        let mut i: usize = 0;
        while i < n
            invariant
                i <= n,
                n == self.records@.len(),
                forall|j: int|
                    0 <= j < i ==> (#[trigger] self.records@[j]).cw20_address@ != cw20_address@,
            decreases n - i,
        {
            if self.records[i].cw20_address == *cw20_address {
                return Some(i);
            }
            i = i + 1;
        }
        None
    }

    /// Whether a (collection, token) pair has an active record.
    pub fn contains(&self, collection: &String, token_id: &String) -> (r: bool)
        requires
            self.wf(),
        ensures
            r == self@.records.contains_key((collection@, token_id@)),
    {
        proof {
            lemma_records_map_correspond(self.records@);
        }
        match self.position(collection, token_id) {
            Some(_) => true,
            None => {
                proof {
                    if self@.records.contains_key((collection@, token_id@)) {
                        let i = choose|i: int|
                            0 <= i < self.records@.len() && record_key(
                                #[trigger] self.records@[i],
                            ) == (collection@, token_id@);
                        assert(record_key(self.records@[i]) == (collection@, token_id@));
                    }
                }
                false
            },
        }
    }

    /// The fungible-token address recorded for a pair, if any.
    pub fn resolve_address(&self, collection: &String, token_id: &String) -> (r: Option<String>)
        requires
            self.wf(),
        ensures
            r is Some <==> self@.records.contains_key((collection@, token_id@)),
            r is Some ==> r->0@ == self@.records[(collection@, token_id@)],
    {
        proof {
            lemma_records_map_correspond(self.records@);
        }
        match self.position(collection, token_id) {
            Some(i) => Some(self.records[i].cw20_address.clone()),
            None => {
                proof {
                    if self@.records.contains_key((collection@, token_id@)) {
                        let i = choose|i: int|
                            0 <= i < self.records@.len() && record_key(
                                #[trigger] self.records@[i],
                            ) == (collection@, token_id@);
                        assert(record_key(self.records@[i]) == (collection@, token_id@));
                    }
                }
                None
            },
        }
    }

    /// An executable check of the invariant, for a caller that loads a
    /// state from storage it does not trust.
    pub fn invariant_holds(&self) -> (r: bool)
        ensures
            r == self.wf(),
    {
        let n = self.records.len();
        let mut i: usize = 0;
        while i < n
            invariant
                i <= n,
                n == self.records@.len(),
                forall|p: int, q: int|
                    0 <= p < q < self.records@.len() && p < i ==> record_key(
                        #[trigger] self.records@[p],
                    ) != record_key(#[trigger] self.records@[q]) && self.records@[p].cw20_address@
                        != self.records@[q].cw20_address@,
            decreases n - i,
        {
            let mut j: usize = i + 1;
            while j < n
                invariant
                    i < j <= n,
                    i < n,
                    n == self.records@.len(),
                    forall|q: int|
                        i < q < j ==> record_key(self.records@[i as int]) != record_key(
                            #[trigger] self.records@[q],
                        ) && self.records@[i as int].cw20_address@
                            != self.records@[q].cw20_address@,
                decreases n - j,
            {
                let a = &self.records[i];
                let b = &self.records[j];
                if a.collection == b.collection && a.token_id == b.token_id {
                    return false;
                }
                if a.cw20_address == b.cw20_address {
                    return false;
                }
                j = j + 1;
            }
            i = i + 1;
        }
        true
    }

    /// Whether some record holds a fungible-token address.
    pub fn reverse_contains(&self, cw20_address: &String) -> (r: bool)
        requires
            self.wf(),
        ensures
            r == (reverse_lookup(self@.records, cw20_address@) is Some),
    {
        match self.position_by_address(cw20_address) {
            Some(i) => {
                proof {
                    lemma_reverse_lookup_at(self.records@, i as int);
                }
                true
            },
            None => {
                proof {
                    lemma_reverse_lookup_none(self.records@, cw20_address@);
                }
                false
            },
        }
    }

    /// The number of active records.
    pub fn count_active(&self) -> (n: usize)
        requires
            self.wf(),
        ensures
            n as nat == self@.records.dom().len(),
            n as nat == self.records@.len(),
    {
        proof {
            lemma_records_map_len(self.records@);
        }
        self.records.len()
    }

    /// Record a fresh pair-to-address association.
    pub(crate) fn insert_record(
        &mut self,
        collection: String,
        token_id: String,
        cw20_address: String,
    )
        requires
            old(self).wf(),
            !old(self)@.records.contains_key((collection@, token_id@)),
            reverse_lookup(old(self)@.records, cw20_address@) is None,
        ensures
            final(self).wf(),
            final(self)@.records == old(self)@.records.insert(
                (collection@, token_id@),
                cw20_address@,
            ),
            final(self).pending == old(self).pending,
            final(self).contract_name == old(self).contract_name,
            final(self).contract_version == old(self).contract_version,
    {
        let r = Record { collection, token_id, cw20_address };
        proof {
            lemma_records_map_correspond(self.records@);
            assert forall|i: int| 0 <= i < self.records@.len() implies record_key(
                #[trigger] self.records@[i],
            ) != record_key(r) by {
                if record_key(self.records@[i]) == record_key(r) {
                    assert(records_map(self.records@).contains_key(record_key(r)));
                }
            }
            assert forall|i: int|
                0 <= i < self.records@.len() implies (#[trigger] self.records@[i]).cw20_address@
                != r.cw20_address@ by {
                if self.records@[i].cw20_address@ == r.cw20_address@ {
                    lemma_reverse_lookup_at(self.records@, i);
                }
            }
            lemma_records_map_push(self.records@, r);
        }
        self.records.push(r);
    }

    /// Delete the record holding an address; the address must be recorded.
    pub(crate) fn remove_by_address(&mut self, cw20_address: &String) -> (r: (String, String))
        requires
            old(self).wf(),
            reverse_lookup(old(self)@.records, cw20_address@) is Some,
        ensures
            final(self).wf(),
            (r.0@, r.1@) == reverse_lookup(old(self)@.records, cw20_address@)->0,
            final(self)@.records == old(self)@.records.remove(
                reverse_lookup(old(self)@.records, cw20_address@)->0,
            ),
            final(self).pending == old(self).pending,
            final(self).contract_name == old(self).contract_name,
            final(self).contract_version == old(self).contract_version,
    {
        let idx = match self.position_by_address(cw20_address) {
            Some(i) => i,
            None => {
                proof {
                    lemma_reverse_lookup_none(self.records@, cw20_address@);
                }
                // a reverse lookup the precondition grants cannot miss
                // every record
                vstd::pervasive::unreached()
            },
        };
        proof {
            lemma_reverse_lookup_at(self.records@, idx as int);
            lemma_records_map_remove(self.records@, idx as int);
        }
        let collection = self.records[idx].collection.clone();
        let token_id = self.records[idx].token_id.clone();
        self.records.remove(idx);
        (collection, token_id)
    }
}

} // verus!
