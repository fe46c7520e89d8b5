//! Closing what a state has left on leaves nothing to close.

use crate::closers::{closer_at, closer_codes, closers_before, is_closer, CLOSER_RULES};
use crate::cut::closing_token;
use crate::state::{apply_code, apply_params, AnsiState};
use crate::token::state_after;
use vstd::prelude::*;

verus! {

/// The state after parameters that each stand for themselves.
pub open spec fn apply_codes(state: AnsiState, codes: Seq<u8>) -> AnsiState
    decreases codes.len(),
{
    if codes.len() == 0 {
        state
    } else {
        apply_code(apply_codes(state, codes.drop_last()), codes.last())
    }
}

/// A closing rule has something to close in `state`.
pub open spec fn is_open(state: AnsiState, rank: int) -> bool {
    closer_at(state, rank) is Some
}

/// The parameter 0 opens nothing.
proof fn lemma_opens_nothing_0(state: AnsiState, rank: int)
    requires
        is_open(apply_code(state, 0), rank),
    ensures
        is_open(state, rank),
{
}

/// The parameter 10 opens nothing.
proof fn lemma_opens_nothing_10(state: AnsiState, rank: int)
    requires
        is_open(apply_code(state, 10), rank),
    ensures
        is_open(state, rank),
{
}

/// The parameter 22 opens nothing.
proof fn lemma_opens_nothing_22(state: AnsiState, rank: int)
    requires
        is_open(apply_code(state, 22), rank),
    ensures
        is_open(state, rank),
{
}

/// The parameter 23 opens nothing.
proof fn lemma_opens_nothing_23(state: AnsiState, rank: int)
    requires
        is_open(apply_code(state, 23), rank),
    ensures
        is_open(state, rank),
{
}

/// The parameter 24 opens nothing.
proof fn lemma_opens_nothing_24(state: AnsiState, rank: int)
    requires
        is_open(apply_code(state, 24), rank),
    ensures
        is_open(state, rank),
{
}

/// The parameter 25 opens nothing.
proof fn lemma_opens_nothing_25(state: AnsiState, rank: int)
    requires
        is_open(apply_code(state, 25), rank),
    ensures
        is_open(state, rank),
{
}

/// The parameter 28 opens nothing.
proof fn lemma_opens_nothing_28(state: AnsiState, rank: int)
    requires
        is_open(apply_code(state, 28), rank),
    ensures
        is_open(state, rank),
{
}

/// The parameter 29 opens nothing.
proof fn lemma_opens_nothing_29(state: AnsiState, rank: int)
    requires
        is_open(apply_code(state, 29), rank),
    ensures
        is_open(state, rank),
{
}

/// The parameter 39 opens nothing.
proof fn lemma_opens_nothing_39(state: AnsiState, rank: int)
    requires
        is_open(apply_code(state, 39), rank),
    ensures
        is_open(state, rank),
{
}

/// The parameter 49 opens nothing.
proof fn lemma_opens_nothing_49(state: AnsiState, rank: int)
    requires
        is_open(apply_code(state, 49), rank),
    ensures
        is_open(state, rank),
{
}

/// The parameter 50 opens nothing.
proof fn lemma_opens_nothing_50(state: AnsiState, rank: int)
    requires
        is_open(apply_code(state, 50), rank),
    ensures
        is_open(state, rank),
{
}

/// The parameter 54 opens nothing.
proof fn lemma_opens_nothing_54(state: AnsiState, rank: int)
    requires
        is_open(apply_code(state, 54), rank),
    ensures
        is_open(state, rank),
{
}

/// The parameter 55 opens nothing.
proof fn lemma_opens_nothing_55(state: AnsiState, rank: int)
    requires
        is_open(apply_code(state, 55), rank),
    ensures
        is_open(state, rank),
{
}

/// The parameter 59 opens nothing.
proof fn lemma_opens_nothing_59(state: AnsiState, rank: int)
    requires
        is_open(apply_code(state, 59), rank),
    ensures
        is_open(state, rank),
{
}

/// The parameter 65 opens nothing.
proof fn lemma_opens_nothing_65(state: AnsiState, rank: int)
    requires
        is_open(apply_code(state, 65), rank),
    ensures
        is_open(state, rank),
{
}

/// The parameter 75 opens nothing.
proof fn lemma_opens_nothing_75(state: AnsiState, rank: int)
    requires
        is_open(apply_code(state, 75), rank),
    ensures
        is_open(state, rank),
{
}

/// A closing parameter opens nothing: a rule that has something to close
/// after it had so before.
pub proof fn lemma_closer_opens_nothing(state: AnsiState, code: u8, rank: int)
    requires
        is_closer(code),
        is_open(apply_code(state, code), rank),
    ensures
        is_open(state, rank),
{
    if code == 0 {
        lemma_opens_nothing_0(state, rank);
    } else if code == 10 {
        lemma_opens_nothing_10(state, rank);
    } else if code == 22 {
        lemma_opens_nothing_22(state, rank);
    } else if code == 23 {
        lemma_opens_nothing_23(state, rank);
    } else if code == 24 {
        lemma_opens_nothing_24(state, rank);
    } else if code == 25 {
        lemma_opens_nothing_25(state, rank);
    } else if code == 28 {
        lemma_opens_nothing_28(state, rank);
    } else if code == 29 {
        lemma_opens_nothing_29(state, rank);
    } else if code == 39 {
        lemma_opens_nothing_39(state, rank);
    } else if code == 49 {
        lemma_opens_nothing_49(state, rank);
    } else if code == 50 {
        lemma_opens_nothing_50(state, rank);
    } else if code == 54 {
        lemma_opens_nothing_54(state, rank);
    } else if code == 55 {
        lemma_opens_nothing_55(state, rank);
    } else if code == 59 {
        lemma_opens_nothing_59(state, rank);
    } else if code == 65 {
        lemma_opens_nothing_65(state, rank);
    } else if code == 75 {
        lemma_opens_nothing_75(state, rank);
    }
}

/// The rule of the rank 0 writes the parameter 0, after which it has nothing
/// to close.
proof fn lemma_closes_rank_0(state: AnsiState, before: AnsiState)
    requires
        closer_at(before, 0) is Some,
    ensures
        closer_at(before, 0) == Some(0u8),
        !is_open(apply_code(state, 0), 0),
{
}

/// The rule of the rank 1 writes the parameter 10, after which it has nothing
/// to close.
proof fn lemma_closes_rank_1(state: AnsiState, before: AnsiState)
    requires
        closer_at(before, 1) is Some,
    ensures
        closer_at(before, 1) == Some(10u8),
        !is_open(apply_code(state, 10), 1),
{
}

/// The rule of the rank 2 writes the parameter 22, after which it has nothing
/// to close.
proof fn lemma_closes_rank_2(state: AnsiState, before: AnsiState)
    requires
        closer_at(before, 2) is Some,
    ensures
        closer_at(before, 2) == Some(22u8),
        !is_open(apply_code(state, 22), 2),
{
}

/// The rule of the rank 3 writes the parameter 23, after which it has nothing
/// to close.
proof fn lemma_closes_rank_3(state: AnsiState, before: AnsiState)
    requires
        closer_at(before, 3) is Some,
    ensures
        closer_at(before, 3) == Some(23u8),
        !is_open(apply_code(state, 23), 3),
{
}

/// The rule of the rank 4 writes the parameter 24, after which it has nothing
/// to close.
proof fn lemma_closes_rank_4(state: AnsiState, before: AnsiState)
    requires
        closer_at(before, 4) is Some,
    ensures
        closer_at(before, 4) == Some(24u8),
        !is_open(apply_code(state, 24), 4),
{
}

/// The rule of the rank 5 writes the parameter 25, after which it has nothing
/// to close.
proof fn lemma_closes_rank_5(state: AnsiState, before: AnsiState)
    requires
        closer_at(before, 5) is Some,
    ensures
        closer_at(before, 5) == Some(25u8),
        !is_open(apply_code(state, 25), 5),
{
}

/// The rule of the rank 6 writes the parameter 28, after which it has nothing
/// to close.
proof fn lemma_closes_rank_6(state: AnsiState, before: AnsiState)
    requires
        closer_at(before, 6) is Some,
    ensures
        closer_at(before, 6) == Some(28u8),
        !is_open(apply_code(state, 28), 6),
{
}

/// The rule of the rank 7 writes the parameter 29, after which it has nothing
/// to close.
proof fn lemma_closes_rank_7(state: AnsiState, before: AnsiState)
    requires
        closer_at(before, 7) is Some,
    ensures
        closer_at(before, 7) == Some(29u8),
        !is_open(apply_code(state, 29), 7),
{
}

/// The rule of the rank 8 writes the parameter 39, after which it has nothing
/// to close.
proof fn lemma_closes_rank_8(state: AnsiState, before: AnsiState)
    requires
        closer_at(before, 8) is Some,
    ensures
        closer_at(before, 8) == Some(39u8),
        !is_open(apply_code(state, 39), 8),
{
}

/// The rule of the rank 9 writes the parameter 49, after which it has nothing
/// to close.
proof fn lemma_closes_rank_9(state: AnsiState, before: AnsiState)
    requires
        closer_at(before, 9) is Some,
    ensures
        closer_at(before, 9) == Some(49u8),
        !is_open(apply_code(state, 49), 9),
{
}

/// The rule of the rank 10 writes the parameter 50, after which it has nothing
/// to close.
proof fn lemma_closes_rank_10(state: AnsiState, before: AnsiState)
    requires
        closer_at(before, 10) is Some,
    ensures
        closer_at(before, 10) == Some(50u8),
        !is_open(apply_code(state, 50), 10),
{
}

/// The rule of the rank 11 writes the parameter 54, after which it has nothing
/// to close.
proof fn lemma_closes_rank_11(state: AnsiState, before: AnsiState)
    requires
        closer_at(before, 11) is Some,
    ensures
        closer_at(before, 11) == Some(54u8),
        !is_open(apply_code(state, 54), 11),
{
}

/// The rule of the rank 12 writes the parameter 55, after which it has nothing
/// to close.
proof fn lemma_closes_rank_12(state: AnsiState, before: AnsiState)
    requires
        closer_at(before, 12) is Some,
    ensures
        closer_at(before, 12) == Some(55u8),
        !is_open(apply_code(state, 55), 12),
{
}

/// The rule of the rank 13 writes the parameter 65, after which it has nothing
/// to close.
proof fn lemma_closes_rank_13(state: AnsiState, before: AnsiState)
    requires
        closer_at(before, 13) is Some,
    ensures
        closer_at(before, 13) == Some(65u8),
        !is_open(apply_code(state, 65), 13),
{
}

/// The rule of the rank 14 writes the parameter 59, after which it has nothing
/// to close.
proof fn lemma_closes_rank_14(state: AnsiState, before: AnsiState)
    requires
        closer_at(before, 14) is Some,
    ensures
        closer_at(before, 14) == Some(59u8),
        !is_open(apply_code(state, 59), 14),
{
}

/// The rule of the rank 15 writes the parameter 75, after which it has nothing
/// to close.
proof fn lemma_closes_rank_15(state: AnsiState, before: AnsiState)
    requires
        closer_at(before, 15) is Some,
    ensures
        closer_at(before, 15) == Some(75u8),
        !is_open(apply_code(state, 75), 15),
{
}

/// The rule of the rank 16 writes the parameter 0, after which it has nothing
/// to close.
proof fn lemma_closes_rank_16(state: AnsiState, before: AnsiState)
    requires
        closer_at(before, 16) is Some,
    ensures
        closer_at(before, 16) == Some(0u8),
        !is_open(apply_code(state, 0), 16),
{
}

/// After the parameter that a rule writes, the rule has nothing to close.
pub proof fn lemma_closer_closes(state: AnsiState, before: AnsiState, rank: int)
    requires
        closer_at(before, rank) is Some,
    ensures
        !is_open(apply_code(state, closer_at(before, rank)->0), rank),
{
    if rank == 0 {
        lemma_closes_rank_0(state, before);
    } else if rank == 1 {
        lemma_closes_rank_1(state, before);
    } else if rank == 2 {
        lemma_closes_rank_2(state, before);
    } else if rank == 3 {
        lemma_closes_rank_3(state, before);
    } else if rank == 4 {
        lemma_closes_rank_4(state, before);
    } else if rank == 5 {
        lemma_closes_rank_5(state, before);
    } else if rank == 6 {
        lemma_closes_rank_6(state, before);
    } else if rank == 7 {
        lemma_closes_rank_7(state, before);
    } else if rank == 8 {
        lemma_closes_rank_8(state, before);
    } else if rank == 9 {
        lemma_closes_rank_9(state, before);
    } else if rank == 10 {
        lemma_closes_rank_10(state, before);
    } else if rank == 11 {
        lemma_closes_rank_11(state, before);
    } else if rank == 12 {
        lemma_closes_rank_12(state, before);
    } else if rank == 13 {
        lemma_closes_rank_13(state, before);
    } else if rank == 14 {
        lemma_closes_rank_14(state, before);
    } else if rank == 15 {
        lemma_closes_rank_15(state, before);
    } else if rank == 16 {
        lemma_closes_rank_16(state, before);
    }
}

/// What the rules write are closing parameters.
pub proof fn lemma_closers_are_closers(state: AnsiState, rank: nat)
    ensures
        forall|i: int|
            0 <= i < closers_before(state, rank).len() ==> is_closer(
                #[trigger] closers_before(state, rank)[i],
            ),
    decreases rank,
{
    if rank > 0 {
        let head = closers_before(state, (rank - 1) as nat);
        let all = closers_before(state, rank);
        lemma_closers_are_closers(state, (rank - 1) as nat);
        assert(closer_at(state, rank - 1) matches Some(code) ==> is_closer(code));
        assert forall|i: int| 0 <= i < all.len() implies is_closer(#[trigger] all[i]) by {
            if i < head.len() {
                assert(all[i] == head[i]);
            }
        }
    }
}

/// After what the rules below `rank` write, a rule has something to close
/// only if it had so at first and is not among them.
pub proof fn lemma_closed_below(state: AnsiState, rank: nat, other: int)
    requires
        is_open(apply_codes(state, closers_before(state, rank)), other),
    ensures
        is_open(state, other),
        other >= rank,
    decreases rank,
{
    if rank > 0 {
        let below = (rank - 1) as nat;
        let head = closers_before(state, below);
        let mid = apply_codes(state, head);
        match closer_at(state, rank - 1) {
            Some(code) => {
                assert(head.push(code).drop_last() =~= head);
                assert(apply_codes(state, head.push(code)) == apply_code(mid, code));
                lemma_closer_closes(mid, state, rank - 1);
                lemma_closer_opens_nothing(mid, code, other);
                lemma_closed_below(state, below, other);
            },
            None => {
                lemma_closed_below(state, below, other);
            },
        }
    }
}

/// Where no rule below `rank` has something to close, none of them writes.
pub proof fn lemma_nothing_to_close(state: AnsiState, rank: nat)
    requires
        forall|r: int| 0 <= r < rank ==> !is_open(state, r),
    ensures
        closers_before(state, rank) == Seq::<u8>::empty(),
    decreases rank,
{
    if rank > 0 {
        lemma_nothing_to_close(state, (rank - 1) as nat);
        assert(!is_open(state, rank - 1));
    }
}

/// What closes a state leaves nothing to close: after the closing parameters
/// of a state, no closing rule writes anything.
pub proof fn law_closers_close(state: AnsiState)
    ensures
        closer_codes(apply_codes(state, closer_codes(state))) == Seq::<u8>::empty(),
{
    let after = apply_codes(state, closer_codes(state));
    assert forall|r: int| 0 <= r < CLOSER_RULES implies !is_open(after, r) by {
        if is_open(after, r) {
            lemma_closed_below(state, CLOSER_RULES as nat, r);
        }
    }
    lemma_nothing_to_close(after, CLOSER_RULES as nat);
}

/// The closing tokens of closing parameters change the state as the
/// parameters do, each for itself.
pub proof fn lemma_state_after_closing(state: AnsiState, codes: Seq<u8>)
    requires
        forall|i: int| 0 <= i < codes.len() ==> is_closer(#[trigger] codes[i]),
    ensures
        state_after(state, codes.map_values(|code: u8| closing_token(code))) == apply_codes(
            state,
            codes,
        ),
    decreases codes.len(),
{
    let tokens = codes.map_values(|code: u8| closing_token(code));
    if codes.len() > 0 {
        let head = codes.drop_last();
        lemma_state_after_closing(state, head);
        assert(tokens.drop_last() =~= head.map_values(|code: u8| closing_token(code)));
        let code = codes.last();
        let params = seq![code];
        assert(is_closer(code));
        let mid = apply_codes(state, head);
        assert(apply_params(mid, params) == apply_code(mid, code)) by {
            reveal_with_fuel(apply_params, 2);
            assert(params.skip(1) =~= Seq::empty());
        }
    }
}

} // verus!
