use vstd::prelude::*;

use rand::Rng;

use crate::bits::{
    bit_indices, lemma_bit_indices_complete, lemma_bit_indices_len, lemma_bit_indices_sound,
    lemma_bit_not, lemma_popcount_bounds, lemma_popcount_zero_iff, popcount, popcount16,
};
use crate::board::Board;
use crate::position::Position;

verus! {

/// Score of a fully realized win; any non-terminal evaluation is strictly
/// smaller in magnitude.
pub const WIN_SCORE: i32 = 1_000_000;

/// Seed of a maximizing fold, below every reachable score.
pub const SCORE_MIN: i32 = -2_000_000_000;

/// Seed of a minimizing fold, above every reachable score.
pub const SCORE_MAX: i32 = 2_000_000_000;

/// The four search phases that make up one full logical turn. Within one
/// turn a side nominates (handing the opponent a piece) and the other side
/// places it, so the maximizing role inverts between the nomination
/// sub-decision and the placement sub-decision.
#[derive(Debug, Clone, Copy, PartialEq, Eq, Structural)]
pub enum SearchPhase {
    MaxiPlace,
    MaxiNominate,
    MiniPlace,
    MiniNominate,
}

impl SearchPhase {
    /// The phase folds its children with `max` (otherwise with `min`).
    pub open spec fn is_maximizing(self) -> bool {
        self == SearchPhase::MaxiPlace || self == SearchPhase::MiniNominate
    }

    /// The phase generates placements (otherwise nominations).
    pub open spec fn is_placement(self) -> bool {
        self == SearchPhase::MaxiPlace || self == SearchPhase::MiniPlace
    }

    /// The phase evaluates terminal boards from the minimizing side.
    pub open spec fn is_mini_side(self) -> bool {
        self == SearchPhase::MiniPlace || self == SearchPhase::MiniNominate
    }

    /// The phase that follows, one ply deeper.
    pub open spec fn spec_next(self) -> Self {
        match self {
            SearchPhase::MaxiPlace => SearchPhase::MaxiNominate,
            SearchPhase::MaxiNominate => SearchPhase::MiniPlace,
            SearchPhase::MiniPlace => SearchPhase::MiniNominate,
            SearchPhase::MiniNominate => SearchPhase::MaxiPlace,
        }
    }

    #[verifier::when_used_as_spec(spec_next)]
    pub fn next(self) -> (r: Self)
        ensures
            r == self.spec_next(),
    {
        match self {
            SearchPhase::MaxiPlace => SearchPhase::MaxiNominate,
            SearchPhase::MaxiNominate => SearchPhase::MiniPlace,
            SearchPhase::MiniPlace => SearchPhase::MiniNominate,
            SearchPhase::MiniNominate => SearchPhase::MaxiPlace,
        }
    }
}

/// The feature byte on square `i`, with a vacant square acting as an
/// all-ones wildcard.
pub open spec fn cell_or_ones(b: Board, i: int) -> u8 {
    if b.occupied(i) {
        b.board[i]
    } else {
        0xFFu8
    }
}

/// Bitwise AND of the features over the occupied squares of line `q`.
pub open spec fn line_and(b: Board, q: [usize; 4]) -> u8 {
    cell_or_ones(b, q[0] as int) & cell_or_ones(b, q[1] as int) & cell_or_ones(b, q[2] as int)
        & cell_or_ones(b, q[3] as int)
}

/// The line's shared feature count.
pub open spec fn line_count(b: Board, q: [usize; 4]) -> int {
    popcount16(line_and(b, q) as u16)
}

/// Largest shared feature count among the first `k` winning lines.
pub open spec fn best_line_below(b: Board, k: nat) -> int
    decreases k,
{
    if k == 0 {
        0
    } else {
        let c = line_count(b, Board::quartos_spec()[k - 1]);
        let rest = best_line_below(b, (k - 1) as nat);
        if c > rest {
            c
        } else {
            rest
        }
    }
}

/// Largest shared feature count among all 19 winning lines.
pub open spec fn best_line_count(b: Board) -> int {
    best_line_below(b, 19)
}

/// Static evaluation of a board: the win score on a won board, otherwise
/// the best line's shared feature count plus the number of moves still
/// open, preferring faster forced wins.
pub open spec fn spec_eval(b: Board) -> int {
    if b.spec_win() {
        WIN_SCORE as int
    } else {
        16 - popcount16(b.placed) + best_line_count(b)
    }
}

proof fn lemma_best_line_below_bounds(b: Board, k: nat)
    ensures
        0 <= best_line_below(b, k) <= 16,
    decreases k,
{
    if k > 0 {
        lemma_best_line_below_bounds(b, (k - 1) as nat);
        lemma_popcount_bounds(line_and(b, Board::quartos_spec()[k - 1]) as u16);
    }
}

pub proof fn lemma_eval_bounds(b: Board)
    ensures
        0 <= spec_eval(b) <= WIN_SCORE as int,
{
    if !b.spec_win() {
        lemma_popcount_bounds(b.placed);
        lemma_best_line_below_bounds(b, 19);
    }
}

/// Value of a board at the bottom of the search: the static evaluation,
/// negated in the minimizing phases.
pub open spec fn terminal_score(ph: SearchPhase, b: Board) -> int {
    if ph.is_mini_side() {
        -spec_eval(b)
    } else {
        spec_eval(b)
    }
}

/// Value of `b` under depth-limited adversarial search at phase `ph`:
/// terminal boards and exhausted depth score statically, any other board
/// scores as the best child under the phase's fold, one ply deeper.
pub open spec fn spec_search(ph: SearchPhase, depth: nat, b: Board) -> int
    decreases depth, 17int,
{
    if depth == 0 || b.spec_win() {
        terminal_score(ph, b)
    } else {
        spec_search_from(ph, (depth - 1) as nat, b, 0)
    }
}

/// Fold of the children of `b` with move index at least `i`, every child
/// searched at depth `depth`; the seed of an empty fold is the phase's
/// worst score.
pub open spec fn spec_search_from(ph: SearchPhase, depth: nat, b: Board, i: nat) -> int
    decreases depth + 1, 16 - i,
{
    if i >= 16 {
        if ph.is_maximizing() {
            SCORE_MIN as int
        } else {
            SCORE_MAX as int
        }
    } else {
        let rest = spec_search_from(ph, depth, b, i + 1);
        let legal = if ph.is_placement() {
            b.can_place(i as int)
        } else {
            b.can_nominate(i as usize)
        };
        if legal {
            let nb = if ph.is_placement() {
                b.after_place(i as int)
            } else {
                b.with_nominated(i as usize)
            };
            let child = spec_search(ph.spec_next(), depth, nb);
            if ph.is_maximizing() {
                if child > rest {
                    child
                } else {
                    rest
                }
            } else {
                if child < rest {
                    child
                } else {
                    rest
                }
            }
        } else {
            rest
        }
    }
}

/// Every search value lies between the two fold seeds.
pub proof fn lemma_search_bounds(ph: SearchPhase, depth: nat, b: Board)
    ensures
        SCORE_MIN as int <= spec_search(ph, depth, b) <= SCORE_MAX as int,
    decreases depth, 17int,
{
    if depth == 0 || b.spec_win() {
        lemma_eval_bounds(b);
    } else {
        lemma_search_from_bounds(ph, (depth - 1) as nat, b, 0);
    }
}

pub proof fn lemma_search_from_bounds(ph: SearchPhase, depth: nat, b: Board, i: nat)
    ensures
        SCORE_MIN as int <= spec_search_from(ph, depth, b, i) <= SCORE_MAX as int,
    decreases depth + 1, 16 - i,
{
    if i < 16 {
        lemma_search_from_bounds(ph, depth, b, i + 1);
        let legal = if ph.is_placement() {
            b.can_place(i as int)
        } else {
            b.can_nominate(i as usize)
        };
        if legal {
            let nb = if ph.is_placement() {
                b.after_place(i as int)
            } else {
                b.with_nominated(i as usize)
            };
            lemma_search_bounds(ph.spec_next(), depth, nb);
        }
    }
}

pub struct MinimaxPlayer;

impl MinimaxPlayer {
    pub const MAX_DEPTH: usize = 5;

    /// Evaluates `board` statically; see `spec_eval`.
    pub fn evaluate_board(&self, board: &Board) -> (r: i32)
        ensures
            r as int == spec_eval(*board),
    {
        if board.detect_win() {
            return WIN_SCORE;
        }
        let qs = Board::quartos();
        let mut best: i32 = 0;
        let mut k: usize = 0;
        while k < 19
            invariant
                qs@ == Board::quartos_spec(),
                k <= 19,
                best as int == best_line_below(*board, k as nat),
                0 <= best <= 16,
            decreases 19 - k,
        {
            let four = qs[k];
            let a = wildcard_cell(board, four[0]) & wildcard_cell(board, four[1]) & wildcard_cell(
                board,
                four[2],
            ) & wildcard_cell(board, four[3]);
            let c = popcount(a as u16);
            proof {
                lemma_popcount_bounds(a as u16);
            }
            let c32 = c as i32;
            if c32 > best {
                best = c32;
            }
            k += 1;
        }
        let pc = board.placed_count();
        proof {
            lemma_popcount_bounds(board.placed);
        }
        (16 - pc) as i32 + best
    }

    /// One step of the four-phase search; see `spec_search`.
    pub fn search(&self, phase: SearchPhase, depth: usize, board: &Board) -> (r: i32)
        requires
            board.wf(),
        ensures
            r as int == spec_search(phase, depth as nat, *board),
        decreases depth,
    {
        let is_mini_side = match phase {
            SearchPhase::MiniPlace | SearchPhase::MiniNominate => true,
            _ => false,
        };
        if depth == 0 || board.detect_win() {
            let e = self.evaluate_board(board);
            proof {
                lemma_eval_bounds(*board);
            }
            return if is_mini_side {
                -e
            } else {
                e
            };
        }
        let is_maximizing = match phase {
            SearchPhase::MaxiPlace | SearchPhase::MiniNominate => true,
            _ => false,
        };
        let is_placement = match phase {
            SearchPhase::MaxiPlace | SearchPhase::MiniPlace => true,
            _ => false,
        };
        let ghost d1 = (depth - 1) as nat;
        let mut acc: i32 = if is_maximizing {
            SCORE_MIN
        } else {
            SCORE_MAX
        };
        let mut i: usize = 0;
        proof {
            lemma_search_from_bounds(phase, d1, *board, 0);
        }
        while i < 16
            invariant
                board.wf(),
                depth >= 1,
                i <= 16,
                d1 == (depth - 1) as nat,
                is_maximizing == phase.is_maximizing(),
                is_placement == phase.is_placement(),
                is_maximizing ==> spec_search_from(phase, d1, *board, 0) == (if (acc as int)
                    > spec_search_from(phase, d1, *board, i as nat) {
                    acc as int
                } else {
                    spec_search_from(phase, d1, *board, i as nat)
                }),
                !is_maximizing ==> spec_search_from(phase, d1, *board, 0) == (if (acc as int)
                    < spec_search_from(phase, d1, *board, i as nat) {
                    acc as int
                } else {
                    spec_search_from(phase, d1, *board, i as nat)
                }),
                is_maximizing ==> acc as int >= SCORE_MIN as int,
                !is_maximizing ==> acc as int <= SCORE_MAX as int,
            decreases 16 - i,
        {
            let legal = if is_placement {
                proof {
                    crate::bits::lemma_bit_test(board.placed, i as u16);
                }
                board.nominated_index().is_some() && board.space_bits() & (1u16 << (i as u16)) == 0
            } else {
                proof {
                    crate::bits::lemma_bit_test(board.remaining_pieces, i as u16);
                }
                board.piece_bits() & (1u16 << (i as u16)) != 0
            };
            if legal {
                let nb = if is_placement {
                    let pos = match Position::from_index(i) {
                        Some(p) => p,
                        None => vstd::pervasive::unreached(),
                    };
                    match board.place(pos) {
                        Ok(b) => b,
                        Err(_) => vstd::pervasive::unreached(),
                    }
                } else {
                    match board.nominate(i) {
                        Ok(b) => b,
                        Err(_) => vstd::pervasive::unreached(),
                    }
                };
                let child = self.search(phase.next(), depth - 1, &nb);
                if is_maximizing {
                    if child > acc {
                        acc = child;
                    }
                } else {
                    if child < acc {
                        acc = child;
                    }
                }
            }
            i += 1;
        }
        acc
    }

    /// Searches placements for the maximizing side.
    pub fn maxi_place(&self, depth: usize, board: &Board) -> (r: i32)
        requires
            board.wf(),
        ensures
            r as int == spec_search(SearchPhase::MaxiPlace, depth as nat, *board),
    {
        self.search(SearchPhase::MaxiPlace, depth, board)
    }

    /// Searches nominations made for the maximizing side to hand over.
    pub fn maxi_nominate(&self, depth: usize, board: &Board) -> (r: i32)
        requires
            board.wf(),
        ensures
            r as int == spec_search(SearchPhase::MaxiNominate, depth as nat, *board),
    {
        self.search(SearchPhase::MaxiNominate, depth, board)
    }

    /// Searches placements for the minimizing side.
    pub fn mini_place(&self, depth: usize, board: &Board) -> (r: i32)
        requires
            board.wf(),
        ensures
            r as int == spec_search(SearchPhase::MiniPlace, depth as nat, *board),
    {
        self.search(SearchPhase::MiniPlace, depth, board)
    }

    /// Searches nominations made for the minimizing side to hand over.
    pub fn mini_nominate(&self, depth: usize, board: &Board) -> (r: i32)
        requires
            board.wf(),
        ensures
            r as int == spec_search(SearchPhase::MiniNominate, depth as nat, *board),
    {
        self.search(SearchPhase::MiniNominate, depth, board)
    }

    /// Scores every available piece as a nomination, in increasing index
    /// order. The result is a function of the board alone.
    pub fn nomination_scores(&self, board: &Board) -> (r: Vec<(usize, i32)>)
        requires
            board.wf(),
        ensures
            nomination_scores_ok(*board, r@),
    {
        let pieces = board.piece_indexes();
        let mut out: Vec<(usize, i32)> = Vec::new();
        let mut t: usize = 0;
        while t < pieces.len()
            invariant
                board.wf(),
                pieces@ == bit_indices(board.remaining_pieces),
                t <= pieces@.len(),
                out@.len() == t,
                forall|u: int|
                    0 <= u < t ==> (#[trigger] out@[u]).0 == pieces@[u] && out@[u].1 as int
                        == nomination_score(*board, out@[u].0),
            decreases pieces@.len() - t,
        {
            proof {
                lemma_bit_indices_sound(board.remaining_pieces);
            }
            let piece = pieces[t];
            let nb = match board.nominate(piece) {
                Ok(b) => b,
                Err(_) => vstd::pervasive::unreached(),
            };
            let sc = self.maxi_nominate(MinimaxPlayer::MAX_DEPTH, &nb);
            out.push((piece, sc));
            t += 1;
        }
        out
    }

    /// Scores every free square as a placement of the nominated piece, in
    /// increasing index order. The result is a function of the board alone.
    pub fn placement_scores(&self, board: &Board) -> (r: Vec<(usize, i32)>)
        requires
            board.wf(),
            board.nominated is Some,
        ensures
            placement_scores_ok(*board, r@),
    {
        let spaces = board.free_spaces();
        let mut out: Vec<(usize, i32)> = Vec::new();
        let mut t: usize = 0;
        while t < spaces.len()
            invariant
                board.wf(),
                board.nominated is Some,
                spaces@ == bit_indices(!board.placed),
                t <= spaces@.len(),
                out@.len() == t,
                forall|u: int|
                    0 <= u < t ==> (#[trigger] out@[u]).0 == spaces@[u] && out@[u].1 as int
                        == placement_score(*board, out@[u].0 as int),
            decreases spaces@.len() - t,
        {
            proof {
                lemma_bit_indices_sound(!board.placed);
            }
            let space = spaces[t];
            proof {
                lemma_bit_not(board.placed, space as u16);
            }
            let pos = match Position::from_index(space) {
                Some(p) => p,
                None => vstd::pervasive::unreached(),
            };
            let nb = match board.place(pos) {
                Ok(b) => b,
                Err(_) => vstd::pervasive::unreached(),
            };
            let sc = self.maxi_nominate(MinimaxPlayer::MAX_DEPTH, &nb);
            out.push((space, sc));
            t += 1;
        }
        out
    }

    /// Chooses a nomination: an available piece whose search score is
    /// maximal among all available pieces; ties are broken at random.
    pub fn nominate(&mut self, board: &Board) -> (r: usize)
        requires
            board.wf(),
            board.remaining_pieces != 0,
        ensures
            board.can_nominate(r),
            forall|p: usize|
                board.can_nominate(p) ==> nomination_score(*board, p) <= nomination_score(
                    *board,
                    r,
                ),
    {
        let moves = self.nomination_scores(board);
        proof {
            lemma_bit_indices_len(board.remaining_pieces);
            lemma_popcount_zero_iff(board.remaining_pieces);
        }
        let mut best: i32 = moves[0].1;
        let mut t: usize = 1;
        while t < moves.len()
            invariant
                nomination_scores_ok(*board, moves@),
                1 <= t <= moves@.len(),
                exists|u: int| 0 <= u < t && (#[trigger] moves@[u]).1 == best,
                forall|u: int| 0 <= u < t ==> (#[trigger] moves@[u]).1 <= best,
            decreases moves@.len() - t,
        {
            if moves[t].1 > best {
                best = moves[t].1;
            }
            t += 1;
        }
        let mut ties: Vec<usize> = Vec::new();
        let mut t2: usize = 0;
        while t2 < moves.len()
            invariant
                nomination_scores_ok(*board, moves@),
                t2 <= moves@.len(),
                forall|u: int|
                    0 <= u < ties@.len() ==> board.can_nominate(#[trigger] ties@[u])
                        && nomination_score(*board, ties@[u]) == best as int,
                (exists|u: int| 0 <= u < t2 && (#[trigger] moves@[u]).1 == best) ==> ties@.len()
                    > 0,
            decreases moves@.len() - t2,
        {
            if moves[t2].1 == best {
                proof {
                    lemma_bit_indices_sound(board.remaining_pieces);
                }
                ties.push(moves[t2].0);
            }
            t2 += 1;
        }
        let n = random_u32();
        let idx = (n as usize) % ties.len();
        let r = ties[idx];
        proof {
            assert forall|p: usize| board.can_nominate(p) implies nomination_score(*board, p)
                <= nomination_score(*board, r) by {
                lemma_bit_indices_complete(board.remaining_pieces, p as u16);
                let s = bit_indices(board.remaining_pieces);
                let u = choose|u: int| 0 <= u < s.len() && s[u] == p;
                assert(moves@[u].0 == p);
                assert(moves@[u].1 <= best);
            }
        }
        r
    }

    /// Chooses a placement: a free square whose search score is maximal
    /// among all free squares; ties are broken at random.
    pub fn place(&mut self, board: &Board) -> (r: Position)
        requires
            board.wf(),
            board.nominated is Some,
            board.placed != 0xFFFFu16,
        ensures
            board.can_place(r.idx()),
            forall|i: int|
                board.can_place(i) ==> placement_score(*board, i) <= placement_score(
                    *board,
                    r.idx(),
                ),
    {
        let moves = self.placement_scores(board);
        proof {
            let placed = board.placed;
            assert(!placed != 0u16) by (bit_vector)
                requires
                    placed != 0xFFFFu16,
            ;
            lemma_bit_indices_len(!board.placed);
            lemma_popcount_zero_iff(!board.placed);
        }
        let mut best: i32 = moves[0].1;
        let mut t: usize = 1;
        while t < moves.len()
            invariant
                placement_scores_ok(*board, moves@),
                1 <= t <= moves@.len(),
                exists|u: int| 0 <= u < t && (#[trigger] moves@[u]).1 == best,
                forall|u: int| 0 <= u < t ==> (#[trigger] moves@[u]).1 <= best,
            decreases moves@.len() - t,
        {
            if moves[t].1 > best {
                best = moves[t].1;
            }
            t += 1;
        }
        let mut ties: Vec<usize> = Vec::new();
        let mut t2: usize = 0;
        while t2 < moves.len()
            invariant
                board.nominated is Some,
                placement_scores_ok(*board, moves@),
                t2 <= moves@.len(),
                forall|u: int|
                    0 <= u < ties@.len() ==> board.can_place(#[trigger] ties@[u] as int)
                        && placement_score(*board, ties@[u] as int) == best as int,
                (exists|u: int| 0 <= u < t2 && (#[trigger] moves@[u]).1 == best) ==> ties@.len()
                    > 0,
            decreases moves@.len() - t2,
        {
            if moves[t2].1 == best {
                proof {
                    lemma_bit_indices_sound(!board.placed);
                    lemma_bit_not(board.placed, moves@[t2 as int].0 as u16);
                }
                ties.push(moves[t2].0);
            }
            t2 += 1;
        }
        let n = random_u32();
        let idx = (n as usize) % ties.len();
        let space = ties[idx];
        let r = match Position::from_index(space) {
            Some(p) => p,
            None => vstd::pervasive::unreached(),
        };
        proof {
            assert forall|i: int| board.can_place(i) implies placement_score(*board, i)
                <= placement_score(*board, r.idx()) by {
                lemma_bit_not(board.placed, i as u16);
                lemma_bit_indices_complete(!board.placed, i as u16);
                let s = bit_indices(!board.placed);
                let u = choose|u: int| 0 <= u < s.len() && s[u] == i as usize;
                assert(moves@[u].0 == i as usize);
                assert(moves@[u].1 <= best);
            }
        }
        r
    }
}

/// Score the search assigns to nominating `piece` on `b`.
pub open spec fn nomination_score(b: Board, piece: usize) -> int {
    spec_search(
        SearchPhase::MaxiNominate,
        MinimaxPlayer::MAX_DEPTH as nat,
        b.with_nominated(piece),
    )
}

/// Score the search assigns to placing the nominated piece of `b` on
/// square `i`.
pub open spec fn placement_score(b: Board, i: int) -> int {
    spec_search(SearchPhase::MaxiNominate, MinimaxPlayer::MAX_DEPTH as nat, b.after_place(i))
}

/// `s` is the scored nomination candidate set of `b`: the still-available
/// piece indices in increasing order, each paired with its search score.
pub open spec fn nomination_scores_ok(b: Board, s: Seq<(usize, i32)>) -> bool {
    &&& s.len() == bit_indices(b.remaining_pieces).len()
    &&& forall|t: int|
        0 <= t < s.len() ==> (#[trigger] s[t]).0 == bit_indices(b.remaining_pieces)[t]
            && s[t].1 as int == nomination_score(b, s[t].0)
}

/// `s` is the scored placement candidate set of `b`: the free square
/// indices in increasing order, each paired with its search score.
pub open spec fn placement_scores_ok(b: Board, s: Seq<(usize, i32)>) -> bool {
    &&& s.len() == bit_indices(!b.placed).len()
    &&& forall|t: int|
        0 <= t < s.len() ==> (#[trigger] s[t]).0 == bit_indices(!b.placed)[t] && s[t].1 as int
            == placement_score(b, s[t].0 as int)
}

/// On a fixed board, the scored nomination candidate set is unique: any two
/// sequences satisfying `nomination_scores_ok` are equal, so repeated
/// scoring passes yield the same candidates and scores every time.
pub proof fn lemma_nomination_scores_deterministic(
    b: Board,
    s1: Seq<(usize, i32)>,
    s2: Seq<(usize, i32)>,
)
    requires
        nomination_scores_ok(b, s1),
        nomination_scores_ok(b, s2),
    ensures
        s1 == s2,
{
    assert forall|t: int| 0 <= t < s1.len() implies s1[t] == s2[t] by {
        assert(s1[t].1 as int == s2[t].1 as int);
    }
    assert(s1 =~= s2);
}

/// On a fixed board, the scored placement candidate set is unique.
pub proof fn lemma_placement_scores_deterministic(
    b: Board,
    s1: Seq<(usize, i32)>,
    s2: Seq<(usize, i32)>,
)
    requires
        placement_scores_ok(b, s1),
        placement_scores_ok(b, s2),
    ensures
        s1 == s2,
{
    assert forall|t: int| 0 <= t < s1.len() implies s1[t] == s2[t] by {
        assert(s1[t].1 as int == s2[t].1 as int);
    }
    assert(s1 =~= s2);
}

/// Relies on rand::thread_rng and rand::Rng::gen: a machine-random number;
/// nothing is assumed of its value.
#[verifier::external_body]
fn random_u32() -> u32 {
    rand::thread_rng().gen()
}

/// The feature byte on square `i`, a vacant or out-of-range square acting
/// as an all-ones wildcard.
fn wildcard_cell(board: &Board, i: usize) -> (r: u8)
    ensures
        r == cell_or_ones(*board, i as int),
{
    if i < 16 {
        match board.get_square_index(i) {
            Some(p) => p.0,
            None => 0xFF,
        }
    } else {
        0xFF
    }
}

} // verus!
