use vstd::prelude::*;

verus! {

/// A contiguous half-open interval `[start_range, end_range)` of the draw
/// pool assigned to one player, sized proportionally to their ticket share.
/// Derived afresh for each draw; never persisted.
#[derive(Debug)]
pub struct PlayerRange {
    pub player_addr: String,
    pub start_range: u64,
    pub end_range: u64,
}

/// Mathematical model of a `PlayerRange`.
#[verifier::ext_equal]
pub struct PlayerRangeV {
    pub player_addr: Seq<char>,
    pub start_range: u64,
    pub end_range: u64,
}

impl View for PlayerRange {
    type V = PlayerRangeV;

    open spec fn view(&self) -> PlayerRangeV {
        PlayerRangeV {
            player_addr: self.player_addr@,
            start_range: self.start_range,
            end_range: self.end_range,
        }
    }
}

/// The tiling of the pool for one draw: one range per player, in snapshot
/// order.
#[derive(Debug)]
pub struct PlayerRanges {
    pub ranges: Vec<PlayerRange>,
}

impl View for PlayerRanges {
    type V = Seq<PlayerRangeV>;

    open spec fn view(&self) -> Seq<PlayerRangeV> {
        self.ranges@.map_values(|r: PlayerRange| r@)
    }
}

/// Whether `ticket` falls in `range` under the half-open convention
/// `start <= ticket < end`, the one fixed boundary rule of this engine.
pub open spec fn range_contains(range: PlayerRangeV, ticket: u64) -> bool {
    range.start_range <= ticket < range.end_range
}

/// The player owning the first range that contains `ticket`, if any.
pub open spec fn spec_select(ranges: Seq<PlayerRangeV>, ticket: u64) -> Option<Seq<char>>
    decreases ranges.len(),
{
    if ranges.len() == 0 {
        None
    } else if range_contains(ranges[0], ticket) {
        Some(ranges[0].player_addr)
    } else {
        spec_select(ranges.drop_first(), ticket)
    }
}

/// A scan that has not matched the first `i` ranges is a scan of what
/// follows them.
pub proof fn lemma_select_skip(ranges: Seq<PlayerRangeV>, ticket: u64, i: int)
    requires
        0 <= i <= ranges.len(),
        forall|j: int| 0 <= j < i ==> !range_contains(#[trigger] ranges[j], ticket),
    ensures
        spec_select(ranges, ticket) == spec_select(ranges.skip(i), ticket),
    decreases i,
{
    if i == 0 {
        assert(ranges.skip(0) =~= ranges);
    } else {
        lemma_select_skip(ranges.drop_first(), ticket, i - 1);
        assert(ranges.drop_first().skip(i - 1) =~= ranges.skip(i));
    }
}

/// A ticket some range contains is always found by the scan.
pub proof fn lemma_select_finds(ranges: Seq<PlayerRangeV>, ticket: u64)
    requires
        exists|i: int| 0 <= i < ranges.len() && range_contains(#[trigger] ranges[i], ticket),
    ensures
        spec_select(ranges, ticket) is Some,
    decreases ranges.len(),
{
    let i = choose|i: int| 0 <= i < ranges.len() && range_contains(#[trigger] ranges[i], ticket);
    if !range_contains(ranges[0], ticket) {
        assert(range_contains(ranges.drop_first()[i - 1], ticket));
        lemma_select_finds(ranges.drop_first(), ticket);
    }
}

impl PlayerRanges {
    /// An empty tiling, extended range by range as the snapshot is walked.
    pub fn create() -> (r: PlayerRanges)
        ensures
            r@ == Seq::<PlayerRangeV>::empty(),
    {
        let r = PlayerRanges { ranges: Vec::new() };
        proof {
            assert(r@ =~= Seq::<PlayerRangeV>::empty());
        }
        r
    }

    /// Appends the range `[start, end)` for `addr`.
    pub fn create_player_range(&mut self, addr: String, start: u64, end: u64)
        ensures
            final(self)@ == old(self)@.push(
                PlayerRangeV { player_addr: addr@, start_range: start, end_range: end },
            ),
    {
        let player_range = PlayerRange { player_addr: addr, start_range: start, end_range: end };
        let ghost pushed = player_range@;
        self.ranges.push(player_range);
        proof {
            assert(self@ =~= old(self)@.push(pushed));
        }
    }

    /// Scans the ranges for the one containing `winner_ticket`, under the
    /// half-open boundary convention; `None` is the fatal case of a ticket
    /// no range covers.
    pub fn select_winner(&self, winner_ticket: u64) -> (r: Option<String>)
        ensures
            r matches Some(w) ==> spec_select(self@, winner_ticket) == Some(w@),
            r is None ==> spec_select(self@, winner_ticket) is None,
    {
        let mut i: usize = 0;
        while i < self.ranges.len()
            invariant
                i <= self@.len(),
                self@.len() == self.ranges@.len(),
                forall|j: int| 0 <= j < i ==> !range_contains(#[trigger] self@[j], winner_ticket),
            decreases self.ranges@.len() - i,
        {
            let range = &self.ranges[i];
            if range.start_range <= winner_ticket && winner_ticket < range.end_range {
                proof {
                    lemma_select_skip(self@, winner_ticket, i as int);
                    assert(self@.skip(i as int)[0] == self@[i as int]);
                }
                return Some(range.player_addr.clone());
            }
            i = i + 1;
        }
        proof {
            lemma_select_skip(self@, winner_ticket, i as int);
            assert(self@.skip(i as int).len() == 0);
        }
        None
    }
}

} // verus!
