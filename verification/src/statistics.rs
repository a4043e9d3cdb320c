//! How often each kind of piece has entered the field.

use crate::geometry::TetrominoType;
use vstd::prelude::*;

verus! {

/// Number of kinds of pieces.
pub const PIECE_KINDS: usize = 7;

/// One counter for each of the seven kinds of pieces.
#[derive(Clone, Copy, Debug)]
pub struct PieceStatistics {
    pub counts: [u32; PIECE_KINDS],
}

/// The counts when no piece has entered yet: zero for each of the seven
/// kinds.
pub open spec fn no_pieces() -> Map<TetrominoType, nat> {
    Map::new(|t: TetrominoType| t.is_standard(), |t: TetrominoType| 0nat)
}

/// The counts after one more piece of kind `t` has entered.
pub open spec fn counted(counts: Map<TetrominoType, nat>, t: TetrominoType) -> Map<TetrominoType, nat> {
    counts.insert(t, counts[t] + 1)
}

/// The counts are kept for the seven kinds of pieces and for nothing else.
pub open spec fn counts_wf(counts: Map<TetrominoType, nat>) -> bool {
    forall|t: TetrominoType| counts.dom().contains(t) <==> t.is_standard()
}

/// Each count can grow by `n` and still be stored.
pub open spec fn counts_have_room(counts: Map<TetrominoType, nat>, n: nat) -> bool {
    forall|t: TetrominoType| t.is_standard() ==> #[trigger] counts[t] + n <= u32::MAX
}

impl View for PieceStatistics {
    type V = Map<TetrominoType, nat>;

    open spec fn view(&self) -> Map<TetrominoType, nat> {
        Map::new(|t: TetrominoType| t.is_standard(), |t: TetrominoType| self.counts[t.slot()] as nat)
    }
}

impl PieceStatistics {
    /// Counters that stand at zero.
    pub fn new() -> (s: PieceStatistics)
        ensures
            s@ == no_pieces(),
    {
        let s = PieceStatistics { counts: [0; PIECE_KINDS] };
        assert(s@ =~= no_pieces());
        s
    }

    /// How many pieces of kind `t` have entered; zero for a kind that is no
    /// piece.
    pub fn get(&self, t: TetrominoType) -> (n: u32)
        ensures
            n == (if t.is_standard() {
                self@[t]
            } else {
                0
            }),
    {
        let i: usize = t.index();
        if i < PIECE_KINDS {
            self.counts[i]
        } else {
            0
        }
    }

    /// Counts one more piece of kind `t`.
    pub fn record(&mut self, t: TetrominoType)
        requires
            t.is_standard(),
            old(self)@[t] < u32::MAX,
        ensures
            final(self)@ == counted(old(self)@, t),
    {
        let i: usize = t.index();
        let n: u32 = self.counts[i];
        self.counts[i] = n + 1;
        assert(self@ =~= counted(old(self)@, t)) by {
            assert forall|k: TetrominoType| k.is_standard() implies #[trigger] self@[k] == counted(
                old(self)@,
                t,
            )[k] by {
                if k != t {
                    assert(k.slot() != t.slot());
                }
            }
        }
    }

    /// Tests whether each count can grow by `n` and still be stored.
    pub fn has_room(&self, n: u32) -> (r: bool)
        ensures
            r == counts_have_room(self@, n as nat),
    {
        let mut i: usize = 0;
        while i < PIECE_KINDS
            invariant
                i <= PIECE_KINDS,
                forall|k: int| 0 <= k < i ==> (#[trigger] self.counts[k]) + n <= u32::MAX,
            decreases PIECE_KINDS - i,
        {
            if self.counts[i] > u32::MAX - n {
                proof {
                    let t = TetrominoType::spec_from_index(i as int);
                    assert(t.is_standard() && t.slot() == i);
                    assert(self@[t] + n > u32::MAX);
                }
                return false;
            }
            i += 1;
        }
        assert forall|t: TetrominoType| t.is_standard() implies #[trigger] self@[t] + n <= u32::MAX by {
            assert(self.counts[t.slot()] + n <= u32::MAX);
        }
        true
    }
}

} // verus!
