//! Chance and Community Chest cards, and the shuffle that turns a list of
//! random keys into a draw order.

use vstd::prelude::*;

verus! {

/// A Community Chest card.
#[derive(Debug, Clone, Copy, PartialEq, Eq, Structural)]
pub enum CommunityChest {
    AdvanceToGo,
    BankErrorInYourFavor,
    GoToJail,
    PaySchoolFees,
}

/// A Chance card.
#[derive(Debug, Clone, Copy, PartialEq, Eq, Structural)]
pub enum Chance {
    AdvanceToGo,
    AdvanceToNearestUtility,
    AdvanceToNearestRailroad,
    GoBack3Spaces,
    AdvanceToBoardwalk,
}

/// Number of cards in a full Chance deck.
pub const NUM_CHANCE: usize = 5;

/// Number of cards in a full Community Chest deck.
pub const NUM_COMM_CHEST: usize = 4;

/// The full Chance set, in its fixed order.
pub open spec fn chance_card(i: int) -> Chance {
    if i == 0 {
        Chance::AdvanceToGo
    } else if i == 1 {
        Chance::AdvanceToNearestUtility
    } else if i == 2 {
        Chance::AdvanceToNearestRailroad
    } else if i == 3 {
        Chance::GoBack3Spaces
    } else {
        Chance::AdvanceToBoardwalk
    }
}

/// The full Community Chest set, in its fixed order.
pub open spec fn comm_chest_card(i: int) -> CommunityChest {
    if i == 0 {
        CommunityChest::AdvanceToGo
    } else if i == 1 {
        CommunityChest::BankErrorInYourFavor
    } else if i == 2 {
        CommunityChest::GoToJail
    } else {
        CommunityChest::PaySchoolFees
    }
}

/// `i` is an index below `m` whose key no later index below `m` repeats:
/// the entry that survives when the first `m` keys are inserted into a map
/// one after the other.
pub open spec fn last_with_key(keys: Seq<i32>, i: int, m: int) -> bool {
    &&& 0 <= i < m
    &&& forall|j: int| i < j < m ==> keys[j] != keys[i]
}

/// `order` lists the surviving indices of `keys`, by key ascending.
pub open spec fn is_key_order(keys: Seq<i32>, order: Seq<usize>) -> bool {
    &&& forall|a: int| 0 <= a < order.len() ==> last_with_key(keys, #[trigger] order[a] as int, keys.len() as int)
    &&& forall|a: int, b: int| 0 <= a < b < order.len() ==> keys[#[trigger] order[a] as int] < keys[#[trigger] order[b] as int]
    &&& forall|k: int| last_with_key(keys, k, keys.len() as int) ==> #[trigger] order.contains(k as usize)
}

/// Orders the indices of `keys` by key ascending. Where several indices
/// share a key only the last of them is kept, as when each index is stored
/// in an ordered map under its key.
pub fn key_order(keys: &Vec<i32>) -> (order: Vec<usize>)
    ensures
        is_key_order(keys@, order@),
{
    let mut order: Vec<usize> = Vec::new();
    let n = keys.len();
    for i in 0..n
        invariant
            n == keys.len(),
            forall|a: int| 0 <= a < order.len() ==> last_with_key(keys@, #[trigger] order@[a] as int, i as int),
            forall|a: int, b: int| 0 <= a < b < order.len() ==> keys@[#[trigger] order@[a] as int] < keys@[#[trigger] order@[b] as int],
            forall|k: int| last_with_key(keys@, k, i as int) ==> #[trigger] order@.contains(k as usize),
    {
        let x = keys[i];
        let mut p: usize = 0;
        while p < order.len() && keys[order[p]] < x
            invariant
                p <= order.len(),
                forall|a: int| 0 <= a < order.len() ==> (#[trigger] order@[a]) < i,
                i < keys.len(),
                x == keys@[i as int],
                forall|a: int| 0 <= a < p ==> keys@[#[trigger] order@[a] as int] < x,
            decreases order.len() - p,
        {
            p = p + 1;
        }
        let ghost old_order = order@;
        if p < order.len() && keys[order[p]] == x {
            order.set(p, i);
            assert forall|k: int| last_with_key(keys@, k, i + 1) implies #[trigger] order@.contains(k as usize) by {
                if k == i {
                    assert(order@[p as int] == i);
                } else {
                    assert(last_with_key(keys@, k, i as int));
                    assert(old_order.contains(k as usize));
                    let a = choose|a: int| 0 <= a < old_order.len() && old_order[a] == k as usize;
                    assert(a != p);
                    assert(order@[a] == k as usize);
                }
            }
        } else {
            order.insert(p, i);
            assert forall|k: int| last_with_key(keys@, k, i + 1) implies #[trigger] order@.contains(k as usize) by {
                if k == i {
                    assert(order@[p as int] == i);
                } else {
                    assert(last_with_key(keys@, k, i as int));
                    assert(old_order.contains(k as usize));
                    let a = choose|a: int| 0 <= a < old_order.len() && old_order[a] == k as usize;
                    if a < p {
                        assert(order@[a] == k as usize);
                    } else {
                        assert(order@[a + 1] == k as usize);
                    }
                }
            }
        }
    }
    order
}

/// `deck` is the Chance set dealt in the order that `keys` give it: the
/// card at position `i` of the fixed set carries `keys[i]`.
pub open spec fn is_chance_deck(keys: Seq<i32>, deck: Seq<Chance>) -> bool {
    exists|order: Seq<usize>|
        is_key_order(keys, order) && deck == order.map_values(|i: usize| chance_card(i as int))
}

/// `deck` is the Community Chest set dealt in the order that `keys` give it.
pub open spec fn is_comm_chest_deck(keys: Seq<i32>, deck: Seq<CommunityChest>) -> bool {
    exists|order: Seq<usize>|
        is_key_order(keys, order) && deck == order.map_values(|i: usize| comm_chest_card(i as int))
}

/// The surviving indices of a key order are distinct and in range, and the
/// last index always survives.
pub proof fn lemma_key_order_facts(keys: Seq<i32>, order: Seq<usize>)
    requires
        is_key_order(keys, order),
        keys.len() > 0,
    ensures
        order.len() >= 1,
        forall|a: int| 0 <= a < order.len() ==> (#[trigger] order[a]) < keys.len(),
        forall|a: int, b: int| 0 <= a < order.len() && 0 <= b < order.len() && a != b ==> order[a] != order[b],
{
    let n = keys.len() as int;
    assert(last_with_key(keys, n - 1, n));
    assert(order.contains((n - 1) as usize));
    assert forall|a: int, b: int| 0 <= a < order.len() && 0 <= b < order.len() && a != b implies order[a] != order[b] by {
        if a < b {
            assert(keys[order[a] as int] < keys[order[b] as int]);
        } else {
            assert(keys[order[b] as int] < keys[order[a] as int]);
        }
    }
    assert forall|a: int| 0 <= a < order.len() implies (#[trigger] order[a]) < keys.len() by {
        assert(last_with_key(keys, order[a] as int, n));
    }
}

/// Distinct indices below `n` number at most `n`.
pub proof fn lemma_distinct_below_len(s: Seq<usize>, n: nat)
    requires
        forall|a: int, b: int| 0 <= a < s.len() && 0 <= b < s.len() && a != b ==> s[a] != s[b],
        forall|a: int| 0 <= a < s.len() ==> (#[trigger] s[a]) < n,
    ensures
        s.len() <= n,
{
    let t = s.map_values(|x: usize| x as int);
    assert(t.no_duplicates()) by {
        assert forall|a: int, b: int| 0 <= a < t.len() && 0 <= b < t.len() && a != b implies t[a] != t[b] by {
            assert(s[a] != s[b]);
        }
    }
    t.unique_seq_to_set();
    vstd::set_lib::lemma_int_range(0, n as int);
    assert(t.to_set().subset_of(vstd::set_lib::set_int_range(0, n as int))) by {
        assert forall|x: int| t.to_set().contains(x) implies vstd::set_lib::set_int_range(0, n as int).contains(x) by {
            let k = choose|k: int| 0 <= k < t.len() && t[k] == x;
            assert(s[k] < n);
        }
    }
    vstd::set_lib::lemma_len_subset(t.to_set(), vstd::set_lib::set_int_range(0, n as int));
}

/// The card at position `i` of the fixed Chance set.
pub fn chance_at(i: usize) -> (c: Chance)
    ensures
        c == chance_card(i as int),
{
    if i == 0 {
        Chance::AdvanceToGo
    } else if i == 1 {
        Chance::AdvanceToNearestUtility
    } else if i == 2 {
        Chance::AdvanceToNearestRailroad
    } else if i == 3 {
        Chance::GoBack3Spaces
    } else {
        Chance::AdvanceToBoardwalk
    }
}

/// The card at position `i` of the fixed Community Chest set.
pub fn comm_chest_at(i: usize) -> (c: CommunityChest)
    ensures
        c == comm_chest_card(i as int),
{
    if i == 0 {
        CommunityChest::AdvanceToGo
    } else if i == 1 {
        CommunityChest::BankErrorInYourFavor
    } else if i == 2 {
        CommunityChest::GoToJail
    } else {
        CommunityChest::PaySchoolFees
    }
}

/// Deals the full Chance set in the order of `keys` (one key per card of
/// the fixed set). A card whose key a later card repeats is dropped.
pub fn chance_deck(keys: &Vec<i32>) -> (deck: Vec<Chance>)
    requires
        keys.len() == NUM_CHANCE,
    ensures
        is_chance_deck(keys@, deck@),
        deck.len() >= 1,
        deck@.no_duplicates(),
{
    let order = key_order(keys);
    proof {
        lemma_key_order_facts(keys@, order@);
    }
    let mut deck: Vec<Chance> = Vec::new();
    for j in 0..order.len()
        invariant
            deck@ == order@.take(j as int).map_values(|i: usize| chance_card(i as int)),
    {
        let c = chance_at(order[j]);
        deck.push(c);
        assert(order@.take(j + 1) == order@.take(j as int).push(order@[j as int]));
    }
    assert(order@.take(order.len() as int) == order@);
    assert forall|a: int, b: int| 0 <= a < b < deck.len() implies deck@[a] != deck@[b] by {
        assert(order@[a] != order@[b]);
    }
    deck
}

/// Deals the full Community Chest set in the order of `keys` (one key per
/// card of the fixed set). A card whose key a later card repeats is dropped.
pub fn comm_chest_deck(keys: &Vec<i32>) -> (deck: Vec<CommunityChest>)
    requires
        keys.len() == NUM_COMM_CHEST,
    ensures
        is_comm_chest_deck(keys@, deck@),
        deck.len() >= 1,
        deck@.no_duplicates(),
{
    let order = key_order(keys);
    proof {
        lemma_key_order_facts(keys@, order@);
    }
    let mut deck: Vec<CommunityChest> = Vec::new();
    for j in 0..order.len()
        invariant
            deck@ == order@.take(j as int).map_values(|i: usize| comm_chest_card(i as int)),
    {
        let c = comm_chest_at(order[j]);
        deck.push(c);
        assert(order@.take(j + 1) == order@.take(j as int).push(order@[j as int]));
    }
    assert(order@.take(order.len() as int) == order@);
    assert forall|a: int, b: int| 0 <= a < b < deck.len() implies deck@[a] != deck@[b] by {
        assert(order@[a] != order@[b]);
    }
    deck
}

} // verus!
