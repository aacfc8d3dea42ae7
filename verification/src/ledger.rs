use vstd::prelude::*;

use vstd::utf8::encode_utf8;

use crate::state::PlayerInfo;

verus! {

/// The storage key of a participant identity: its UTF-8 encoding, the form
/// under which the store orders entries.
pub open spec fn key_of(addr: Seq<char>) -> Seq<u8> {
    encode_utf8(addr)
}

/// Strict lexicographic order on byte strings; stored entries are kept
/// strictly descending under it.
pub open spec fn bytes_lt(a: Seq<u8>, b: Seq<u8>) -> bool
    decreases a.len(),
{
    if b.len() == 0 {
        false
    } else if a.len() == 0 {
        true
    } else if a[0] != b[0] {
        a[0] < b[0]
    } else {
        bytes_lt(a.drop_first(), b.drop_first())
    }
}

/// Of two byte strings, exactly one of `a < b`, `b < a`, `a == b` holds.
pub proof fn lemma_bytes_trichotomy(a: Seq<u8>, b: Seq<u8>)
    ensures
        bytes_lt(a, b) || bytes_lt(b, a) || a == b,
        !(bytes_lt(a, b) && bytes_lt(b, a)),
        bytes_lt(a, b) ==> a != b,
        bytes_lt(b, a) ==> a != b,
    decreases a.len(),
{
    if a.len() == 0 && b.len() == 0 {
        assert(a =~= b);
    } else if a.len() > 0 && b.len() > 0 && a[0] == b[0] {
        lemma_bytes_trichotomy(a.drop_first(), b.drop_first());
        if a.drop_first() == b.drop_first() {
            assert(a =~= b) by {
                assert forall|k: int| 0 <= k < a.len() implies a[k] == b[k] by {
                    if k > 0 {
                        assert(a.drop_first()[k - 1] == a[k]);
                        assert(b.drop_first()[k - 1] == b[k]);
                    }
                }
            }
        }
        if a == b {
            assert(a.drop_first() =~= b.drop_first());
        }
    }
}

/// Lexicographic order is transitive.
pub proof fn lemma_bytes_lt_trans(a: Seq<u8>, b: Seq<u8>, c: Seq<u8>)
    requires
        bytes_lt(a, b),
        bytes_lt(b, c),
    ensures
        bytes_lt(a, c),
    decreases a.len(),
{
    if a.len() > 0 && b.len() > 0 && c.len() > 0 {
        if a[0] == b[0] && b[0] == c[0] {
            lemma_bytes_lt_trans(a.drop_first(), b.drop_first(), c.drop_first());
        }
    }
}

/// Comparing byte strings that agree on a common prefix reduces to comparing
/// what follows it.
pub proof fn lemma_bytes_lt_skip(a: Seq<u8>, b: Seq<u8>, i: int)
    requires
        0 <= i <= a.len(),
        i <= b.len(),
        a.subrange(0, i) == b.subrange(0, i),
    ensures
        bytes_lt(a, b) == bytes_lt(a.skip(i), b.skip(i)),
        (a == b) == (a.skip(i) == b.skip(i)),
    decreases i,
{
    if i == 0 {
        assert(a.skip(0) =~= a);
        assert(b.skip(0) =~= b);
    } else {
        assert(a[0] == b[0]) by {
            assert(a.subrange(0, i)[0] == a[0]);
            assert(b.subrange(0, i)[0] == b[0]);
        }
        assert(a.drop_first().subrange(0, i - 1) =~= b.drop_first().subrange(0, i - 1)) by {
            assert forall|k: int| 0 <= k < i - 1 implies #[trigger] a.drop_first().subrange(
                0,
                i - 1,
            )[k] == b.drop_first().subrange(0, i - 1)[k] by {
                assert(a.subrange(0, i)[k + 1] == a[k + 1]);
                assert(b.subrange(0, i)[k + 1] == b[k + 1]);
                assert(a.drop_first().subrange(0, i - 1)[k] == a.drop_first()[k]);
                assert(b.drop_first().subrange(0, i - 1)[k] == b.drop_first()[k]);
                assert(a.drop_first()[k] == a[k + 1]);
                assert(b.drop_first()[k] == b[k + 1]);
            }
        }
        lemma_bytes_lt_skip(a.drop_first(), b.drop_first(), i - 1);
        assert(a.drop_first().skip(i - 1) =~= a.skip(i));
        assert(b.drop_first().skip(i - 1) =~= b.skip(i));
        if a.skip(i) == b.skip(i) {
            assert(a =~= b) by {
                assert forall|k: int| 0 <= k < a.len() implies a[k] == b[k] by {
                    if k < i {
                        assert(a.subrange(0, i)[k] == a[k]);
                        assert(b.subrange(0, i)[k] == b[k]);
                    } else {
                        assert(a.skip(i)[k - i] == a[k]);
                        assert(b.skip(i)[k - i] == b[k]);
                    }
                }
            }
        }
    }
}

/// Outcome of comparing two stored keys.
#[derive(Debug, Clone, Copy, PartialEq, Eq, Structural)]
pub enum KeyOrder {
    Less,
    Equal,
    Greater,
}

/// Three-way lexicographic comparison of two byte strings.
pub fn compare_bytes(a: &[u8], b: &[u8]) -> (c: KeyOrder)
    ensures
        (c == KeyOrder::Less) == bytes_lt(a@, b@),
        (c == KeyOrder::Greater) == bytes_lt(b@, a@),
        (c == KeyOrder::Equal) == (a@ == b@),
{
    proof {
        lemma_bytes_trichotomy(a@, b@);
        assert(a@.subrange(0, 0) =~= b@.subrange(0, 0));
    }
    let mut i: usize = 0;
    while i < a.len() && i < b.len()
        invariant
            0 <= i <= a@.len(),
            i <= b@.len(),
            a@.subrange(0, i as int) == b@.subrange(0, i as int),
        decreases a@.len() - i,
    {
        let x = a[i];
        let y = b[i];
        proof {
            lemma_bytes_lt_skip(a@, b@, i as int);
            lemma_bytes_lt_skip(b@, a@, i as int);
            assert(a@.skip(i as int)[0] == a@[i as int]);
            assert(b@.skip(i as int)[0] == b@[i as int]);
        }
        if x < y {
            proof {
                assert(bytes_lt(a@.skip(i as int), b@.skip(i as int)));
            }
            return KeyOrder::Less;
        }
        if y < x {
            proof {
                assert(bytes_lt(b@.skip(i as int), a@.skip(i as int)));
            }
            return KeyOrder::Greater;
        }
        proof {
            assert(a@.subrange(0, i as int + 1) =~= b@.subrange(0, i as int + 1)) by {
                assert forall|k: int| 0 <= k < i as int + 1 implies #[trigger] a@.subrange(
                    0,
                    i as int + 1,
                )[k] == b@.subrange(0, i as int + 1)[k] by {
                    if k < i {
                        assert(a@.subrange(0, i as int)[k] == b@.subrange(0, i as int)[k]);
                    }
                }
            }
        }
        i = i + 1;
    }
    proof {
        lemma_bytes_lt_skip(a@, b@, i as int);
        lemma_bytes_lt_skip(b@, a@, i as int);
    }
    if a.len() < b.len() {
        KeyOrder::Less
    } else if b.len() < a.len() {
        KeyOrder::Greater
    } else {
        proof {
            assert(a@.skip(i as int) =~= b@.skip(i as int));
        }
        KeyOrder::Equal
    }
}

/// One stored participant entry: an identity and its holdings.
#[derive(Debug)]
pub struct PlayerEntry {
    pub addr: String,
    pub info: PlayerInfo,
}

/// Mathematical model of one ledger entry.
#[verifier::ext_equal]
pub struct PlayerV {
    pub addr: Seq<char>,
    pub tickets: u64,
}

impl View for PlayerEntry {
    type V = PlayerV;

    open spec fn view(&self) -> PlayerV {
        PlayerV { addr: self.addr@, tickets: self.info.tickets }
    }
}

/// Sum of the ticket counts of the first `n` entries.
pub open spec fn sum_prefix(players: Seq<PlayerV>, n: int) -> int
    decreases n,
{
    if n <= 0 {
        0
    } else {
        sum_prefix(players, n - 1) + players[n - 1].tickets
    }
}

/// Sum of all ticket counts in the ledger.
pub open spec fn sum_tickets(players: Seq<PlayerV>) -> int {
    sum_prefix(players, players.len() as int)
}

/// The ticket count stored under `key`, if any.
pub open spec fn lookup_tickets(players: Seq<PlayerV>, key: Seq<u8>) -> Option<u64>
    decreases players.len(),
{
    if players.len() == 0 {
        None
    } else if key_of(players[0].addr) == key {
        Some(players[0].tickets)
    } else {
        lookup_tickets(players.drop_first(), key)
    }
}

/// The ticket count stored under `key`, counting an absent identity as zero.
pub open spec fn tickets_or_zero(players: Seq<PlayerV>, key: Seq<u8>) -> u64 {
    match lookup_tickets(players, key) {
        Some(t) => t,
        None => 0,
    }
}

/// A prefix sum never goes negative.
pub proof fn lemma_sum_prefix_nonneg(players: Seq<PlayerV>, n: int)
    ensures
        sum_prefix(players, n) >= 0,
    decreases n,
{
    if n > 0 {
        lemma_sum_prefix_nonneg(players, n - 1);
    }
}

/// Prefix sums only grow as the prefix grows.
pub proof fn lemma_sum_prefix_mono(players: Seq<PlayerV>, m: int, n: int)
    requires
        0 <= m <= n,
    ensures
        sum_prefix(players, m) <= sum_prefix(players, n),
    decreases n,
{
    if m < n {
        lemma_sum_prefix_mono(players, m, n - 1);
    }
}

/// Every single count is bounded by any prefix sum that covers it.
pub proof fn lemma_element_le_sum_prefix(players: Seq<PlayerV>, i: int, n: int)
    requires
        0 <= i < n,
    ensures
        players[i].tickets <= sum_prefix(players, n),
    decreases n,
{
    if n - 1 == i {
        lemma_sum_prefix_nonneg(players, n - 1);
    } else {
        lemma_element_le_sum_prefix(players, i, n - 1);
    }
}

/// Replacing the entry at `i` shifts a prefix sum by the difference of the
/// two counts, once the prefix covers `i`.
pub proof fn lemma_sum_prefix_update(players: Seq<PlayerV>, i: int, e: PlayerV, n: int)
    requires
        0 <= i < players.len(),
        0 <= n <= players.len(),
    ensures
        sum_prefix(players.update(i, e), n) == sum_prefix(players, n) + if i < n {
            e.tickets - players[i].tickets
        } else {
            0
        },
    decreases n,
{
    if n > 0 {
        lemma_sum_prefix_update(players, i, e, n - 1);
    }
}

/// Inserting an entry at `pos` adds its count to every prefix sum that
/// covers `pos`.
pub proof fn lemma_sum_prefix_insert(players: Seq<PlayerV>, pos: int, e: PlayerV, n: int)
    requires
        0 <= pos <= players.len(),
        0 <= n <= players.len() + 1,
    ensures
        sum_prefix(players.insert(pos, e), n) == if n <= pos {
            sum_prefix(players, n)
        } else {
            sum_prefix(players, n - 1) + e.tickets
        },
    decreases n,
{
    players.insert_ensures(pos, e);
    if n > 0 {
        lemma_sum_prefix_insert(players, pos, e, n - 1);
        if n - 1 > pos {
            assert(players.insert(pos, e)[n - 1] == players[n - 2]);
        }
    }
}

/// A lookup that has not matched the first `i` entries is a lookup in what
/// follows them.
pub proof fn lemma_lookup_skip(players: Seq<PlayerV>, key: Seq<u8>, i: int)
    requires
        0 <= i <= players.len(),
        forall|j: int| 0 <= j < i ==> key_of(#[trigger] players[j].addr) != key,
    ensures
        lookup_tickets(players, key) == lookup_tickets(players.skip(i), key),
    decreases i,
{
    if i == 0 {
        assert(players.skip(0) =~= players);
    } else {
        assert(key_of(players[0].addr) != key);
        lemma_lookup_skip(players.drop_first(), key, i - 1);
        assert(players.drop_first().skip(i - 1) =~= players.skip(i));
    }
}

/// A key held by no entry is not found.
pub proof fn lemma_lookup_none(players: Seq<PlayerV>, key: Seq<u8>)
    requires
        forall|j: int| 0 <= j < players.len() ==> key_of(#[trigger] players[j].addr) != key,
    ensures
        lookup_tickets(players, key) == None::<u64>,
    decreases players.len(),
{
    if players.len() > 0 {
        lemma_lookup_none(players.drop_first(), key);
    }
}

/// Replacing the entry at `i` leaves lookups of every other key unchanged.
pub proof fn lemma_lookup_update_other(players: Seq<PlayerV>, i: int, e: PlayerV, k: Seq<u8>)
    requires
        0 <= i < players.len(),
        k != key_of(e.addr),
        k != key_of(players[i].addr),
    ensures
        lookup_tickets(players.update(i, e), k) == lookup_tickets(players, k),
    decreases i,
{
    let updated = players.update(i, e);
    if i == 0 {
        assert(updated.drop_first() =~= players.drop_first());
    } else {
        assert(updated[0] == players[0]);
        if key_of(players[0].addr) != k {
            assert(updated.drop_first() =~= players.drop_first().update(i - 1, e));
            lemma_lookup_update_other(players.drop_first(), i - 1, e, k);
        }
    }
}

/// Inserting an entry leaves lookups of every other key unchanged.
pub proof fn lemma_lookup_insert_other(players: Seq<PlayerV>, pos: int, e: PlayerV, k: Seq<u8>)
    requires
        0 <= pos <= players.len(),
        k != key_of(e.addr),
    ensures
        lookup_tickets(players.insert(pos, e), k) == lookup_tickets(players, k),
    decreases pos,
{
    let inserted = players.insert(pos, e);
    players.insert_ensures(pos, e);
    if pos == 0 {
        assert(inserted[0] == e);
        assert(inserted.drop_first() =~= players);
    } else {
        assert(inserted[0] == players[0]);
        if key_of(players[0].addr) != k {
            assert(inserted.drop_first() =~= players.drop_first().insert(pos - 1, e)) by {
                players.drop_first().insert_ensures(pos - 1, e);
            }
            lemma_lookup_insert_other(players.drop_first(), pos - 1, e, k);
        }
    }
}

/// Ticket counts are monotonic: successive successful purchases by one
/// identity accumulate exactly, so after crediting first `n1` and then `n2`
/// tickets the stored count stands `n1 + n2` above where it began, and is
/// never decremented.
pub proof fn lemma_tickets_accumulate(
    p0: Seq<PlayerV>,
    p1: Seq<PlayerV>,
    p2: Seq<PlayerV>,
    key: Seq<u8>,
    n1: u64,
    n2: u64,
)
    requires
        tickets_or_zero(p1, key) == tickets_or_zero(p0, key) + n1,
        tickets_or_zero(p2, key) == tickets_or_zero(p1, key) + n2,
    ensures
        tickets_or_zero(p2, key) == tickets_or_zero(p0, key) + n1 + n2,
{
}

/// The Player Ledger: participant identity mapped to the tickets bought this
/// round. Entries are kept strictly descending by key bytes — the
/// deterministic iteration order of the underlying store — and `total`
/// caches the sum of all counts.
#[derive(Debug)]
pub struct PlayerLedger {
    pub entries: Vec<PlayerEntry>,
    pub total: u64,
}

impl View for PlayerLedger {
    type V = Seq<PlayerV>;

    open spec fn view(&self) -> Seq<PlayerV> {
        self.entries@.map_values(|e: PlayerEntry| e@)
    }
}

impl PlayerLedger {
    /// The ledger invariant: entries strictly descending by key, and the
    /// cached total equal to the sum of all counts.
    pub open spec fn wf(&self) -> bool {
        &&& forall|i: int, j: int|
            0 <= i < j < self@.len() ==> bytes_lt(
                key_of(#[trigger] self@[j].addr),
                key_of(#[trigger] self@[i].addr),
            )
        &&& self.total == sum_tickets(self@)
    }

    /// An empty ledger: no participants yet.
    pub fn new() -> (r: Self)
        ensures
            r@ == Seq::<PlayerV>::empty(),
            r.wf(),
    {
        let r = PlayerLedger { entries: Vec::new(), total: 0 };
        proof {
            assert(r@ =~= Seq::<PlayerV>::empty());
        }
        r
    }

    /// Walks the descending entries to the position of `key`: either its
    /// entry, or the place where it would be inserted.
    fn find_entry(&self, key: &[u8]) -> (r: (usize, bool))
        requires
            self.wf(),
        ensures
            r.0 <= self@.len(),
            forall|j: int| 0 <= j < r.0 ==> bytes_lt(key@, key_of(#[trigger] self@[j].addr)),
            r.1 ==> r.0 < self@.len() && key_of(self@[r.0 as int].addr) == key@,
            !r.1 ==> r.0 == self@.len() || bytes_lt(key_of(self@[r.0 as int].addr), key@),
    {
        let mut i: usize = 0;
        while i < self.entries.len()
            invariant
                self.wf(),
                i <= self@.len(),
                self@.len() == self.entries@.len(),
                forall|j: int| 0 <= j < i ==> bytes_lt(key@, key_of(#[trigger] self@[j].addr)),
            decreases self.entries@.len() - i,
        {
            let c = compare_bytes(key, self.entries[i].addr.as_str().as_bytes());
            match c {
                KeyOrder::Less => {
                    i = i + 1;
                },
                KeyOrder::Equal => {
                    return (i, true);
                },
                KeyOrder::Greater => {
                    return (i, false);
                },
            }
        }
        (i, false)
    }

    /// The ticket count of `addr`, or `None` for an identity that never
    /// bought a ticket this round.
    pub fn get_tickets(&self, addr: &String) -> (r: Option<u64>)
        requires
            self.wf(),
        ensures
            r == lookup_tickets(self@, key_of(addr@)),
    {
        let key = addr.as_str().as_bytes();
        let (pos, found) = self.find_entry(key);
        proof {
            assert forall|j: int| 0 <= j < pos implies key_of(#[trigger] self@[j].addr)
                != key_of(addr@) by {
                lemma_bytes_trichotomy(key_of(addr@), key_of(self@[j].addr));
            }
            lemma_lookup_skip(self@, key_of(addr@), pos as int);
        }
        if found {
            proof {
                assert(self@.skip(pos as int)[0] == self@[pos as int]);
            }
            Some(self.entries[pos].info.tickets)
        } else {
            proof {
                if pos < self.entries.len() {
                    assert forall|j: int| 0 <= j < self@.skip(pos as int).len() implies key_of(
                        #[trigger] self@.skip(pos as int)[j].addr,
                    ) != key_of(addr@) by {
                        assert(self@.skip(pos as int)[j] == self@[pos + j]);
                        if pos + j > pos {
                            assert(bytes_lt(
                                key_of(self@[pos + j].addr),
                                key_of(self@[pos as int].addr),
                            ));
                            lemma_bytes_lt_trans(
                                key_of(self@[pos + j].addr),
                                key_of(self@[pos as int].addr),
                                key_of(addr@),
                            );
                        }
                        lemma_bytes_trichotomy(key_of(self@[pos + j].addr), key_of(addr@));
                    }
                    lemma_lookup_none(self@.skip(pos as int), key_of(addr@));
                } else {
                    assert(self@.skip(pos as int).len() == 0);
                }
            }
            None
        }
    }

    /// Credits `n` freshly bought tickets to `sender`, creating the entry on
    /// a first purchase; fails without any change if the round's ticket
    /// total would overflow the counter.
    pub fn credit(&mut self, sender: &String, n: u64) -> (r: Result<(), ()>)
        requires
            old(self).wf(),
        ensures
            final(self).wf(),
            sum_tickets(old(self)@) + n <= u64::MAX ==> ({
                &&& r == Ok::<(), ()>(())
                &&& lookup_tickets(final(self)@, key_of(sender@)) == Some(
                    (tickets_or_zero(old(self)@, key_of(sender@)) + n) as u64,
                )
                &&& forall|k: Seq<u8>|
                    k != key_of(sender@) ==> lookup_tickets(final(self)@, k) == lookup_tickets(
                        old(self)@,
                        k,
                    )
                &&& sum_tickets(final(self)@) == sum_tickets(old(self)@) + n
            }),
            sum_tickets(old(self)@) + n > u64::MAX ==> r == Err::<(), ()>(()) && final(self)@
                == old(self)@ && final(self).total == old(self).total,
    {
        let ghost gkey = key_of(sender@);
        let key = sender.as_str().as_bytes();
        let (pos, found) = self.find_entry(key);
        proof {
            assert forall|j: int| 0 <= j < pos implies key_of(#[trigger] self@[j].addr)
                != gkey by {
                lemma_bytes_trichotomy(gkey, key_of(self@[j].addr));
            }
            lemma_lookup_skip(self@, gkey, pos as int);
        }
        if self.total > u64::MAX - n {
            // The round's total ticket count would overflow.
            return Err(());
        }
        let new_total = self.total + n;
        if found {
            let old_t = self.entries[pos].info.tickets;
            proof {
                assert(self@.skip(pos as int)[0] == self@[pos as int]);
                lemma_element_le_sum_prefix(self@, pos as int, self@.len() as int);
            }
            let addr_again = self.entries[pos].addr.clone();
            let ghost old_players = self@;
            let ghost new_entry = PlayerV {
                addr: self@[pos as int].addr,
                tickets: (old_t + n) as u64,
            };
            self.entries.set(
                pos,
                PlayerEntry { addr: addr_again, info: PlayerInfo { tickets: old_t + n } },
            );
            self.total = new_total;
            proof {
                assert(key_of(old_players[pos as int].addr) == gkey);
                assert(self@ =~= old_players.update(pos as int, new_entry)) by {
                    assert forall|j: int| 0 <= j < self@.len() implies self@[j]
                        == old_players.update(pos as int, new_entry)[j] by {
                        if j != pos {
                            assert(self.entries@[j] == old(self).entries@[j]);
                        } else {
                            assert(self@[j].tickets == old_t + n);
                            assert(self@[j].addr == addr_again@);
                            assert(addr_again@ == old_players[pos as int].addr);
                        }
                    }
                }
                let updated = old_players.update(pos as int, new_entry);
                assert forall|j: int| 0 <= j < pos implies key_of(#[trigger] updated[j].addr)
                    != gkey by {
                    lemma_bytes_trichotomy(gkey, key_of(updated[j].addr));
                }
                lemma_lookup_skip(updated, gkey, pos as int);
                assert(updated.skip(pos as int)[0] == updated[pos as int]);
                assert(lookup_tickets(updated, gkey) == Some((old_t + n) as u64));
                assert forall|k: Seq<u8>| k != gkey implies lookup_tickets(updated, k)
                    == lookup_tickets(old_players, k) by {
                    lemma_lookup_update_other(old_players, pos as int, new_entry, k);
                }
                lemma_sum_prefix_update(
                    old_players,
                    pos as int,
                    new_entry,
                    old_players.len() as int,
                );
                assert(updated.len() == old_players.len());
            }
            Ok(())
        } else {
            proof {
                if pos < self.entries.len() {
                    assert forall|j: int| pos <= j < self@.len() implies key_of(
                        #[trigger] self@[j].addr,
                    ) != gkey by {
                        if j > pos {
                            assert(bytes_lt(key_of(self@[j].addr), key_of(self@[pos as int].addr)));
                            lemma_bytes_lt_trans(
                                key_of(self@[j].addr),
                                key_of(self@[pos as int].addr),
                                gkey,
                            );
                        }
                        lemma_bytes_trichotomy(key_of(self@[j].addr), gkey);
                    }
                }
                lemma_lookup_none(self@, gkey);
            }
            let ghost old_players = self@;
            let ghost new_entry = PlayerV { addr: sender@, tickets: n };
            self.entries.insert(pos, PlayerEntry { addr: sender.clone(), info: PlayerInfo { tickets: n } });
            self.total = new_total;
            proof {
                let inserted = old_players.insert(pos as int, new_entry);
                old_players.insert_ensures(pos as int, new_entry);
                assert(self@ =~= inserted) by {
                    assert forall|j: int| 0 <= j < self@.len() implies self@[j] == inserted[j] by {
                        assert(self.entries@ == old(self).entries@.insert(
                            pos as int,
                            PlayerEntry {
                                addr: self.entries@[pos as int].addr,
                                info: PlayerInfo { tickets: n },
                            },
                        ));
                        old(self).entries@.insert_ensures(
                            pos as int,
                            self.entries@[pos as int],
                        );
                        if j < pos {
                            assert(self.entries@[j] == old(self).entries@[j]);
                        } else if j > pos {
                            assert(self.entries@[j] == old(self).entries@[j - 1]);
                        }
                    }
                }
                // The new entry's neighbours keep the strict descending order.
                assert forall|i: int, j: int| 0 <= i < j < inserted.len() implies bytes_lt(
                    key_of(#[trigger] inserted[j].addr),
                    key_of(#[trigger] inserted[i].addr),
                ) by {
                    if j < pos {
                        assert(inserted[i] == old_players[i] && inserted[j] == old_players[j]);
                    } else if i > pos {
                        assert(inserted[i] == old_players[i - 1] && inserted[j] == old_players[j
                            - 1]);
                    } else if i < pos && j == pos {
                        assert(inserted[i] == old_players[i] && inserted[j] == new_entry);
                    } else if i < pos && j > pos {
                        assert(inserted[i] == old_players[i] && inserted[j] == old_players[j - 1]);
                    } else if i == pos && j > pos {
                        assert(inserted[i] == new_entry && inserted[j] == old_players[j - 1]);
                        if j - 1 > pos {
                            assert(bytes_lt(
                                key_of(old_players[j - 1].addr),
                                key_of(old_players[pos as int].addr),
                            ));
                            lemma_bytes_lt_trans(
                                key_of(old_players[j - 1].addr),
                                key_of(old_players[pos as int].addr),
                                gkey,
                            );
                        }
                    }
                }
                assert forall|j: int| 0 <= j < pos implies key_of(#[trigger] inserted[j].addr)
                    != gkey by {
                    lemma_bytes_trichotomy(gkey, key_of(inserted[j].addr));
                }
                lemma_lookup_skip(inserted, gkey, pos as int);
                assert(inserted.skip(pos as int)[0] == inserted[pos as int]);
                assert(lookup_tickets(inserted, gkey) == Some(n));
                assert forall|k: Seq<u8>| k != gkey implies lookup_tickets(inserted, k)
                    == lookup_tickets(old_players, k) by {
                    lemma_lookup_insert_other(old_players, pos as int, new_entry, k);
                }
                lemma_sum_prefix_insert(
                    old_players,
                    pos as int,
                    new_entry,
                    old_players.len() as int + 1,
                );
                assert(inserted.len() == old_players.len() + 1);
            }
            Ok(())
        }
    }
}

} // verus!
