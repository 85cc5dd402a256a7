//! The laws of the orchestration state machine, stated over the model
//! transitions that the handlers' contracts name.
//!
//! What one handler alone guarantees stands in its own contract — a
//! rejected redemption names its reason and changes nothing, for instance.
//! The laws here compose several transitions.

use vstd::prelude::*;

use crate::state::after_commit;
use crate::state::after_fractionalize;
use crate::state::after_redeem;
use crate::state::can_commit;
use crate::state::can_fractionalize;
use crate::state::can_redeem;
use crate::state::model_wf;
use crate::state::reverse_lookup;
use crate::state::StateModel;
use crate::state::TokenKey;

verus! {

/// After an accepted fractionalize request, a completion callback carrying
/// a fresh address is accepted, and the pair then resolves to that address.
/// The created supply's distribution is the requested one: the creation
/// instruction carries it untouched (see `fractionalize_post`), so its
/// total is the sum the request named.
pub proof fn law_fractionalize_then_commit(s: StateModel, key: TokenKey, addr: Seq<char>)
    requires
        model_wf(s),
        can_fractionalize(s, key),
        reverse_lookup(s.records, addr) is None,
    ensures
        can_commit(after_fractionalize(s, key), addr),
        after_commit(after_fractionalize(s, key), addr).records.contains_key(key),
        after_commit(after_fractionalize(s, key), addr).records[key] == addr,
{
}

/// A second fractionalize of the same pair is refused both while its
/// creation is pending and after the callback commits it; the refusal
/// itself changes nothing (see `fractionalize_post`).
pub proof fn law_fractionalize_exclusive(s: StateModel, key: TokenKey, addr: Seq<char>)
    requires
        can_fractionalize(s, key),
    ensures
        !can_fractionalize(after_fractionalize(s, key), key),
        !can_fractionalize(after_commit(after_fractionalize(s, key), addr), key),
{
}

/// Round trip: after fractionalize, commit, and a redemption of the whole
/// supply, the pair's record is gone, the address resolves to nothing, and
/// the records are exactly what they were at the start. The token goes to
/// the redemption's recipient and the whole supply is burnt: the two
/// instructions say so (see `unfractionalize_post`).
pub proof fn law_round_trip(s: StateModel, key: TokenKey, addr: Seq<char>, supply: u128)
    requires
        model_wf(s),
        can_fractionalize(s, key),
        reverse_lookup(s.records, addr) is None,
    ensures
        ({
            let settled = after_redeem(after_commit(after_fractionalize(s, key), addr), addr);
            &&& can_redeem(after_commit(after_fractionalize(s, key), addr), addr, supply, supply)
            &&& !settled.records.contains_key(key)
            &&& reverse_lookup(settled.records, addr) is None
            &&& settled.records == s.records
            &&& settled.pending is None
        }),
{
    let s2 = after_commit(after_fractionalize(s, key), addr);
    assert(s2.records.contains_key(key) && s2.records[key] == addr);
    assert(reverse_lookup(s2.records, addr) == Some(key)) by {
        let k = choose|k: TokenKey| #[trigger] s2.records.contains_key(k) && s2.records[k] == addr;
        if k != key {
            assert(s.records.contains_key(k) && s.records[k] == addr);
        }
    }
    let settled = after_redeem(s2, addr);
    assert(settled.records =~= s.records);
    if exists|k: TokenKey| #[trigger] settled.records.contains_key(k) && settled.records[k]
        == addr {
        let k = choose|k: TokenKey| #[trigger] settled.records.contains_key(k) && settled.records[k]
            == addr;
        assert(s.records.contains_key(k) && s.records[k] == addr);
    }
}

/// The reverse index is the records map read backwards: every recorded
/// pair is what reverse lookup of its own address finds. The two
/// directions are kept consistent by construction — one record stands for
/// both.
pub proof fn law_reverse_index_consistent(s: StateModel, key: TokenKey)
    requires
        model_wf(s),
        s.records.contains_key(key),
    ensures
        reverse_lookup(s.records, s.records[key]) == Some(key),
{
    let addr = s.records[key];
    let k = choose|k: TokenKey| #[trigger] s.records.contains_key(k) && s.records[k] == addr;
    if k != key {
        assert(s.records[k] != s.records[key]);
    }
}

} // verus!
