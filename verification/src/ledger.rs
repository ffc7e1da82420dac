//! Per-player claimable winnings, one ledger per token.
use crate::token::Address;
use vstd::prelude::*;

verus! {

/// One player's claimable amount.
#[derive(Clone, Copy, Debug)]
pub struct ClaimEntry {
    pub player: Address,
    pub amount: u128,
}

/// The index of `player`'s entry in `s`, searching from the end; -1 if none.
pub open spec fn find_player(s: Seq<ClaimEntry>, player: Address) -> int
    decreases s.len(),
{
    if s.len() == 0 {
        -1
    } else if s.last().player == player {
        s.len() - 1
    } else {
        find_player(s.drop_last(), player)
    }
}

/// What `player` can claim according to the entries `s` (zero without an entry).
pub open spec fn claim_of(s: Seq<ClaimEntry>, player: Address) -> int {
    let i = find_player(s, player);
    if i >= 0 {
        s[i].amount as int
    } else {
        0
    }
}

/// The sum of all claimable amounts in `s`.
pub open spec fn claims_sum(s: Seq<ClaimEntry>) -> int
    decreases s.len(),
{
    if s.len() == 0 {
        0
    } else {
        claims_sum(s.drop_last()) + s.last().amount
    }
}

/// Entries are well formed: no player twice, and no zero amount (a player
/// with nothing to claim has no entry).
pub open spec fn entries_wf(s: Seq<ClaimEntry>) -> bool {
    &&& forall|i: int, j: int| 0 <= i < j < s.len() ==> s[i].player != s[j].player
    &&& forall|i: int| 0 <= i < s.len() ==> s[i].amount > 0
}

/// The entries after `player` is credited with `amount`: the amount is added
/// to the player's entry, or a new entry is appended; nothing changes when
/// `amount` is zero.
pub open spec fn credit(s: Seq<ClaimEntry>, player: Address, amount: int) -> Seq<ClaimEntry> {
    let i = find_player(s, player);
    if amount == 0 {
        s
    } else if i >= 0 {
        s.update(i, ClaimEntry { player, amount: (s[i].amount + amount) as u128 })
    } else {
        s.push(ClaimEntry { player, amount: amount as u128 })
    }
}

/// The entries without `player`'s entry.
pub open spec fn remove_player(s: Seq<ClaimEntry>, player: Address) -> Seq<ClaimEntry> {
    let i = find_player(s, player);
    if i >= 0 {
        s.remove(i)
    } else {
        s
    }
}

/// What `find_player` returns.
pub proof fn lemma_find_player(s: Seq<ClaimEntry>, player: Address)
    ensures
        -1 <= find_player(s, player) < s.len(),
        find_player(s, player) >= 0 ==> s[find_player(s, player)].player == player,
        find_player(s, player) == -1 <==> (forall|i: int|
            0 <= i < s.len() ==> #[trigger] s[i].player != player),
        entries_wf(s) ==> forall|i: int|
            0 <= i < s.len() && #[trigger] s[i].player == player ==> find_player(s, player) == i,
    decreases s.len(),
{
    if s.len() > 0 {
        let t = s.drop_last();
        lemma_find_player(t, player);
        assert forall|i: int| 0 <= i < t.len() implies t[i] == s[i] by {}
        if entries_wf(s) {
            assert(entries_wf(t));
        }
    }
}

/// Replacing one entry changes the sum by the difference of the amounts.
pub proof fn lemma_sum_update(s: Seq<ClaimEntry>, i: int, e: ClaimEntry)
    requires
        0 <= i < s.len(),
    ensures
        claims_sum(s.update(i, e)) == claims_sum(s) - s[i].amount + e.amount,
    decreases s.len(),
{
    if i == s.len() - 1 {
        assert(s.update(i, e).drop_last() =~= s.drop_last());
    } else {
        lemma_sum_update(s.drop_last(), i, e);
        assert(s.update(i, e).drop_last() =~= s.drop_last().update(i, e));
    }
}

/// Appending an entry adds its amount to the sum.
pub proof fn lemma_sum_push(s: Seq<ClaimEntry>, e: ClaimEntry)
    ensures
        claims_sum(s.push(e)) == claims_sum(s) + e.amount,
{
    assert(s.push(e).drop_last() =~= s);
}

/// Removing an entry takes its amount off the sum.
pub proof fn lemma_sum_remove(s: Seq<ClaimEntry>, i: int)
    requires
        0 <= i < s.len(),
    ensures
        claims_sum(s.remove(i)) == claims_sum(s) - s[i].amount,
    decreases s.len(),
{
    if i == s.len() - 1 {
        assert(s.remove(i) =~= s.drop_last());
    } else {
        lemma_sum_remove(s.drop_last(), i);
        assert(s.remove(i).drop_last() =~= s.drop_last().remove(i));
        assert(s.remove(i).last() == s.last());
    }
}

/// Every entry is at most the sum, and the sum is never negative.
pub proof fn lemma_entry_le_sum(s: Seq<ClaimEntry>)
    ensures
        claims_sum(s) >= 0,
        forall|i: int| 0 <= i < s.len() ==> #[trigger] s[i].amount <= claims_sum(s),
    decreases s.len(),
{
    if s.len() > 0 {
        lemma_entry_le_sum(s.drop_last());
        assert forall|i: int| 0 <= i < s.len() implies #[trigger] s[i].amount <= claims_sum(s) by {
            if i < s.len() - 1 {
                assert(s[i] == s.drop_last()[i]);
            }
        }
    }
}

/// A player's claim is at most the sum of all claims.
pub proof fn lemma_claim_le_sum(s: Seq<ClaimEntry>, player: Address)
    ensures
        0 <= claim_of(s, player) <= claims_sum(s),
{
    lemma_find_player(s, player);
    lemma_entry_le_sum(s);
}

/// Crediting keeps the entries well formed, adds `amount` to the credited
/// player's claim and to the sum, and leaves every other claim as it was.
pub proof fn lemma_credit(s: Seq<ClaimEntry>, player: Address, amount: int)
    requires
        entries_wf(s),
        amount >= 0,
        claims_sum(s) + amount <= u128::MAX,
    ensures
        entries_wf(credit(s, player, amount)),
        claims_sum(credit(s, player, amount)) == claims_sum(s) + amount,
        claim_of(credit(s, player, amount), player) == claim_of(s, player) + amount,
        forall|other: Address|
            other != player ==> #[trigger] claim_of(credit(s, player, amount), other) == claim_of(
                s,
                other,
            ),
{
    let i = find_player(s, player);
    let t = credit(s, player, amount);
    lemma_find_player(s, player);
    lemma_entry_le_sum(s);
    if amount == 0 {
    } else if i >= 0 {
        let e = ClaimEntry { player, amount: (s[i].amount + amount) as u128 };
        lemma_sum_update(s, i, e);
        assert(t[i] == e);
        assert(entries_wf(t));
        lemma_find_player(t, player);
        assert forall|other: Address| other != player implies #[trigger] claim_of(t, other) == claim_of(
            s,
            other,
        ) by {
            lemma_find_player(s, other);
            lemma_find_player(t, other);
            let j = find_player(s, other);
            if j >= 0 {
                assert(t[j] == s[j]);
            } else {
                assert forall|k: int| 0 <= k < t.len() implies #[trigger] t[k].player != other by {
                    if k != i {
                        assert(t[k] == s[k]);
                    }
                }
            }
        }
    } else {
        let e = ClaimEntry { player, amount: amount as u128 };
        lemma_sum_push(s, e);
        assert(t[s.len() as int] == e);
        assert(entries_wf(t)) by {
            assert forall|a: int, b: int| 0 <= a < b < t.len() implies t[a].player != t[b].player by {
                if b == s.len() {
                    assert(t[a] == s[a]);
                } else {
                    assert(t[a] == s[a] && t[b] == s[b]);
                }
            }
            assert forall|a: int| 0 <= a < t.len() implies t[a].amount > 0 by {
                if a < s.len() {
                    assert(t[a] == s[a]);
                }
            }
        }
        lemma_find_player(t, player);
        assert forall|other: Address| other != player implies #[trigger] claim_of(t, other) == claim_of(
            s,
            other,
        ) by {
            lemma_find_player(s, other);
            lemma_find_player(t, other);
            let j = find_player(s, other);
            if j >= 0 {
                assert(t[j] == s[j]);
            } else {
                assert forall|k: int| 0 <= k < t.len() implies #[trigger] t[k].player != other by {
                    if k < s.len() {
                        assert(t[k] == s[k]);
                    }
                }
            }
        }
    }
}

/// Removing a player keeps the entries well formed, takes the player's claim
/// off the sum, sets it to zero and leaves every other claim as it was.
pub proof fn lemma_remove_player(s: Seq<ClaimEntry>, player: Address)
    requires
        entries_wf(s),
    ensures
        entries_wf(remove_player(s, player)),
        claims_sum(remove_player(s, player)) == claims_sum(s) - claim_of(s, player),
        claim_of(remove_player(s, player), player) == 0,
        forall|other: Address|
            other != player ==> #[trigger] claim_of(remove_player(s, player), other) == claim_of(
                s,
                other,
            ),
{
    let i = find_player(s, player);
    let t = remove_player(s, player);
    lemma_find_player(s, player);
    if i >= 0 {
        lemma_sum_remove(s, i);
        assert(forall|k: int| 0 <= k < i ==> t[k] == s[k]);
        assert(forall|k: int| i <= k < t.len() ==> t[k] == s[k + 1]);
        assert(entries_wf(t)) by {
            assert forall|a: int, b: int| 0 <= a < b < t.len() implies t[a].player != t[b].player by {
                let a2 = if a < i { a } else { a + 1 };
                let b2 = if b < i { b } else { b + 1 };
                assert(t[a] == s[a2] && t[b] == s[b2]);
            }
            assert forall|a: int| 0 <= a < t.len() implies t[a].amount > 0 by {
                let a2 = if a < i { a } else { a + 1 };
                assert(t[a] == s[a2]);
            }
        }
        lemma_find_player(t, player);
        assert forall|k: int| 0 <= k < t.len() implies #[trigger] t[k].player != player by {
            let k2 = if k < i { k } else { k + 1 };
            assert(t[k] == s[k2]);
        }
        assert forall|other: Address| other != player implies #[trigger] claim_of(t, other) == claim_of(
            s,
            other,
        ) by {
            lemma_find_player(s, other);
            lemma_find_player(t, other);
            let j = find_player(s, other);
            if j >= 0 {
                let j2 = if j < i { j } else { j - 1 };
                assert(t[j2] == s[j]);
            } else {
                assert forall|k: int| 0 <= k < t.len() implies #[trigger] t[k].player != other by {
                    let k2 = if k < i { k } else { k + 1 };
                    assert(t[k] == s[k2]);
                }
            }
        }
    }
}

/// The sum over a prefix of the entries is at most the sum over all of them.
pub proof fn lemma_sum_prefix_le(s: Seq<ClaimEntry>, k: int)
    requires
        0 <= k <= s.len(),
    ensures
        claims_sum(s.subrange(0, k)) <= claims_sum(s),
    decreases s.len() - k,
{
    if k < s.len() {
        lemma_sum_prefix_le(s, k + 1);
        assert(s.subrange(0, k + 1).drop_last() =~= s.subrange(0, k));
    } else {
        assert(s.subrange(0, k) =~= s);
    }
}

/// Claimable amounts per player, kept as a list with one entry per player.
pub struct Ledger {
    entries: Vec<ClaimEntry>,
}

impl View for Ledger {
    type V = Seq<ClaimEntry>;

    closed spec fn view(&self) -> Seq<ClaimEntry> {
        self.entries@
    }
}

impl Ledger {
    /// An empty ledger.
    pub fn new() -> (r: Ledger)
        ensures
            r@ == Seq::<ClaimEntry>::empty(),
    {
        Ledger { entries: Vec::new() }
    }

    /// The position of `player`'s entry, if any.
    fn position(&self, player: &Address) -> (r: Option<usize>)
        requires
            entries_wf(self@),
        ensures
            match r {
                Some(i) => i as int == find_player(self@, *player),
                None => find_player(self@, *player) == -1,
            },
    {
        proof {
            lemma_find_player(self@, *player);
        }
        let mut i: usize = 0;
        while i < self.entries.len()
            invariant
                i <= self.entries@.len(),
                entries_wf(self.entries@),
                forall|k: int| 0 <= k < i ==> #[trigger] self.entries@[k].player != *player,
                find_player(self.entries@, *player) == -1 <==> (forall|k: int|
                    0 <= k < self.entries@.len() ==> #[trigger] self.entries@[k].player != *player),
                forall|k: int|
                    0 <= k < self.entries@.len() && #[trigger] self.entries@[k].player == *player
                        ==> find_player(self.entries@, *player) == k,
            decreases self.entries@.len() - i,
        {
            if self.entries[i].player == *player {
                return Some(i);
            }
            i = i + 1;
        }
        None
    }

    /// What `player` can claim.
    pub fn get(&self, player: &Address) -> (r: u128)
        requires
            entries_wf(self@),
        ensures
            r == claim_of(self@, *player),
    {
        proof {
            lemma_find_player(self@, *player);
        }
        match self.position(player) {
            Some(i) => self.entries[i].amount,
            None => 0,
        }
    }

    /// Adds `amount` to `player`'s claim.
    pub fn credit(&mut self, player: &Address, amount: u128)
        requires
            entries_wf(old(self)@),
            claims_sum(old(self)@) + amount <= u128::MAX,
        ensures
            final(self)@ == credit(old(self)@, *player, amount as int),
    {
        if amount == 0 {
            return;
        }
        proof {
            lemma_find_player(self@, *player);
            lemma_entry_le_sum(self@);
        }
        match self.position(player) {
            Some(i) => {
                let e = ClaimEntry { player: *player, amount: self.entries[i].amount + amount };
                self.entries.set(i, e);
            },
            None => {
                self.entries.push(ClaimEntry { player: *player, amount });
            },
        }
    }

    /// Removes `player`'s claim and returns it (zero if there was none).
    pub fn take(&mut self, player: &Address) -> (r: u128)
        requires
            entries_wf(old(self)@),
        ensures
            r == claim_of(old(self)@, *player),
            final(self)@ == remove_player(old(self)@, *player),
    {
        proof {
            lemma_find_player(self@, *player);
        }
        match self.position(player) {
            Some(i) => {
                let e = self.entries.remove(i);
                e.amount
            },
            None => 0,
        }
    }

    /// A copy of the entries.
    pub fn entries(&self) -> (r: Vec<ClaimEntry>)
        ensures
            r@ == self@,
    {
        let mut out: Vec<ClaimEntry> = Vec::new();
        let mut i: usize = 0;
        while i < self.entries.len()
            invariant
                i <= self.entries@.len(),
                out@ == self.entries@.subrange(0, i as int),
            decreases self.entries@.len() - i,
        {
            out.push(self.entries[i]);
            i = i + 1;
            proof {
                assert(out@ =~= self.entries@.subrange(0, i as int));
            }
        }
        proof {
            assert(out@ =~= self.entries@);
        }
        out
    }

    /// A ledger holding `entries`, if they are well formed (no player twice,
    /// no zero amount).
    pub fn from_entries(entries: Vec<ClaimEntry>) -> (r: Option<Ledger>)
        ensures
            r is Some <==> entries_wf(entries@),
            r matches Some(l) ==> l@ == entries@,
    {
        let n = entries.len();
        let mut i: usize = 0;
        while i < n
            invariant
                n == entries@.len(),
                i <= n,
                forall|a: int, b: int| 0 <= a < i && a < b < n ==> entries@[a].player != entries@[b].player,
                forall|a: int| 0 <= a < i ==> entries@[a].amount > 0,
            decreases n - i,
        {
            if entries[i].amount == 0 {
                return None;
            }
            let mut j: usize = i + 1;
            while j < n
                invariant
                    n == entries@.len(),
                    i < n,
                    i + 1 <= j <= n,
                    forall|b: int| i < b < j ==> entries@[i as int].player != entries@[b].player,
                decreases n - j,
            {
                if entries[i].player == entries[j].player {
                    return None;
                }
                j = j + 1;
            }
            i = i + 1;
        }
        Some(Ledger { entries })
    }

    /// The sum of all claims, or `None` when it does not fit in a `u128`.
    pub fn sum(&self) -> (r: Option<u128>)
        ensures
            match r {
                Some(x) => x == claims_sum(self@),
                None => claims_sum(self@) > u128::MAX,
            },
    {
        let n = self.entries.len();
        let mut acc: u128 = 0;
        let mut i: usize = 0;
        while i < n
            invariant
                n == self.entries@.len(),
                i <= n,
                acc == claims_sum(self.entries@.subrange(0, i as int)),
            decreases n - i,
        {
            proof {
                let t = self.entries@.subrange(0, i as int + 1);
                assert(t.drop_last() =~= self.entries@.subrange(0, i as int));
            }
            match acc.checked_add(self.entries[i].amount) {
                Some(x) => {
                    acc = x;
                },
                None => {
                    proof {
                        lemma_sum_prefix_le(self.entries@, i as int + 1);
                    }
                    return None;
                },
            }
            i = i + 1;
        }
        proof {
            assert(self.entries@.subrange(0, n as int) =~= self.entries@);
        }
        Some(acc)
    }
}

} // verus!
