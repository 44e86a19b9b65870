use vstd::prelude::*;

use crate::grid::Grid;
use crate::grid::col_full;
use crate::grid::grid_full;
use crate::grid::grid_wf;
use crate::grid::place_in_grid;
use crate::grid::remove_from_grid;

verus! {

/// A die face, 1 through 6.
#[derive(Clone, Copy, Debug, PartialEq, Eq, Structural)]
pub enum DieValue {
    One,
    Two,
    Three,
    Four,
    Five,
    Six,
}

impl DieValue {
    /// The numeric face value, 1..=6.
    pub open spec fn spec_face(self) -> u8 {
        match self {
            DieValue::One => 1,
            DieValue::Two => 2,
            DieValue::Three => 3,
            DieValue::Four => 4,
            DieValue::Five => 5,
            DieValue::Six => 6,
        }
    }

    /// The numeric face value, 1..=6.
    pub fn face(self) -> (r: u8)
        ensures
            r == self.spec_face(),
            1 <= r <= 6,
    {
        match self {
            DieValue::One => 1,
            DieValue::Two => 2,
            DieValue::Three => 3,
            DieValue::Four => 4,
            DieValue::Five => 5,
            DieValue::Six => 6,
        }
    }
}

/// One of the two players.
#[derive(Clone, Copy, Debug, PartialEq, Eq, Structural)]
pub enum Player {
    Player1,
    Player2,
}

impl Player {
    /// The opponent of this player.
    pub open spec fn spec_other(self) -> Player {
        match self {
            Player::Player1 => Player::Player2,
            Player::Player2 => Player::Player1,
        }
    }

    /// The opponent of this player.
    pub fn other(self) -> (r: Player)
        ensures
            r == self.spec_other(),
    {
        match self {
            Player::Player1 => Player::Player2,
            Player::Player2 => Player::Player1,
        }
    }
}

/// Where a turn stands: waiting for a roll, waiting for a placement, or over.
#[derive(Clone, Copy, Debug, PartialEq, Eq, Structural)]
pub enum GamePhase {
    Rolling,
    Placing,
    Ended,
}

/// One of the three columns of a grid.
#[derive(Clone, Copy, Debug, PartialEq, Eq, Structural)]
pub enum ColumnIndex {
    Zero,
    One,
    Two,
}

impl ColumnIndex {
    /// The numeric column index, 0..=2.
    pub open spec fn spec_index(self) -> usize {
        match self {
            ColumnIndex::Zero => 0,
            ColumnIndex::One => 1,
            ColumnIndex::Two => 2,
        }
    }

    /// The numeric column index, 0..=2.
    pub fn index(self) -> (r: usize)
        ensures
            r == self.spec_index(),
            r < 3,
    {
        match self {
            ColumnIndex::Zero => 0,
            ColumnIndex::One => 1,
            ColumnIndex::Two => 2,
        }
    }
}

/// A full snapshot of the game between two moves. Transitions (`roll_die`,
/// `apply_move`) build a fresh value and never mutate the input, so search
/// can explore many lines from one snapshot.
#[derive(Clone, Copy, Debug)]
pub struct GameState {
    pub grid1: Grid,
    pub grid2: Grid,
    pub current_player: Player,
    pub current_die: Option<u8>,
    pub phase: GamePhase,
    pub turn_number: u32,
}

impl GameState {
    /// Validity: both grids well formed; a pending die is a real face; the
    /// die is present exactly in the placing phase (and possibly after the
    /// terminal placement).
    pub open spec fn wf(self) -> bool {
        &&& grid_wf(self.grid1@)
        &&& grid_wf(self.grid2@)
        &&& match self.current_die {
            Some(d) => 1 <= d <= 6,
            None => true,
        }
        &&& (self.phase == GamePhase::Placing ==> self.current_die is Some)
        &&& (self.phase == GamePhase::Rolling ==> self.current_die is None)
    }

    /// The grid owned by `p`.
    pub open spec fn spec_grid_of(self, p: Player) -> Grid {
        match p {
            Player::Player1 => self.grid1,
            Player::Player2 => self.grid2,
        }
    }

    /// The grid of the player whose turn it is.
    pub open spec fn my_grid(self) -> Grid {
        self.spec_grid_of(self.current_player)
    }

    /// The grid of the waiting player.
    pub open spec fn opp_grid(self) -> Grid {
        self.spec_grid_of(self.current_player.spec_other())
    }

    /// The grid owned by `p`.
    pub fn grid_of(&self, p: Player) -> (g: &Grid)
        ensures
            *g == self.spec_grid_of(p),
    {
        match p {
            Player::Player1 => &self.grid1,
            Player::Player2 => &self.grid2,
        }
    }
}

/// The state after the mover drops the pending die into `col`: the die fills
/// the lowest empty row of the mover's column, every matching die leaves the
/// opponent's column, and the game ends at once if the mover's grid is now
/// full — otherwise the turn passes and a new roll is awaited.
///
/// Returns `None` (and nothing changes) when no die is pending or the
/// mover's column is full.
pub fn apply_move(state: &GameState, col: usize) -> (r: Option<GameState>)
    requires
        state.wf(),
        col < 3,
    ensures
        r is None <==> (state.current_die is None || col_full(state.my_grid()@, col as int)),
        match r {
            None => true,
            Some(s2) => {
                let die = state.current_die->0;
                let mg2 = place_in_grid(state.my_grid()@, col as int, die);
                let og2 = remove_from_grid(state.opp_grid()@, col as int, die);
                &&& s2.wf()
                &&& s2.spec_grid_of(state.current_player)@ == mg2
                &&& s2.spec_grid_of(state.current_player.spec_other())@ == og2
                &&& (grid_full(mg2) ==> s2.phase == GamePhase::Ended && s2.current_player
                    == state.current_player && s2.current_die == state.current_die
                    && s2.turn_number == state.turn_number)
                &&& (!grid_full(mg2) ==> s2.phase == GamePhase::Rolling && s2.current_player
                    == state.current_player.spec_other() && s2.current_die is None
                    && s2.turn_number == state.turn_number.saturating_add(1))
            },
        },
{
    let die: u8 = match state.current_die {
        Some(d) => d,
        None => {
            return None;
        },
    };
    let mut s2 = *state;
    let placed = match state.current_player {
        Player::Player1 => s2.grid1.place_die(col, die),
        Player::Player2 => s2.grid2.place_die(col, die),
    };
    if !placed {
        return None;
    }
    match state.current_player {
        Player::Player1 => {
            let _ = s2.grid2.remove_matching(col, die);
        },
        Player::Player2 => {
            let _ = s2.grid1.remove_matching(col, die);
        },
    }
    let my_full = match state.current_player {
        Player::Player1 => s2.grid1.is_full(),
        Player::Player2 => s2.grid2.is_full(),
    };
    if my_full {
        s2.phase = GamePhase::Ended;
        return Some(s2);
    }
    s2.current_player = state.current_player.other();
    s2.current_die = None;
    s2.phase = GamePhase::Rolling;
    s2.turn_number = s2.turn_number.saturating_add(1);
    Some(s2)
}

/// The state after the die shows `die`: the face becomes pending and the
/// phase moves to placing. Pure — returns a new state.
pub fn roll_die(state: &GameState, die: u8) -> (r: GameState)
    requires
        state.wf(),
        state.phase != GamePhase::Ended,
        1 <= die <= 6,
    ensures
        r.wf(),
        r.grid1 == state.grid1,
        r.grid2 == state.grid2,
        r.current_player == state.current_player,
        r.current_die == Some(die),
        r.phase == GamePhase::Placing,
        r.turn_number == state.turn_number,
{
    let mut s2 = *state;
    s2.current_die = Some(die);
    s2.phase = GamePhase::Placing;
    s2
}

/// The columns the mover may still play: those of their own grid that are
/// not full, in ascending order.
pub fn legal_columns(state: &GameState) -> (r: Vec<usize>)
    requires
        state.wf(),
    ensures
        r@.len() <= 3,
        forall|i: int| 0 <= i < r@.len() ==> #[trigger] r@[i] < 3 && !col_full(
            state.my_grid()@,
            r@[i] as int,
        ),
        forall|c: int| 0 <= c < 3 && !col_full(state.my_grid()@, c) ==> r@.contains(c as usize),
        forall|i: int, j: int| 0 <= i < j < r@.len() ==> r@[i] < r@[j],
{
    let mut r: Vec<usize> = Vec::new();
    let g = self_grid(state);
    if !g.is_column_full(0) {
        r.push(0);
    }
    if !g.is_column_full(1) {
        r.push(1);
    }
    if !g.is_column_full(2) {
        r.push(2);
    }
    proof {
        assert forall|c: int| 0 <= c < 3 && !col_full(state.my_grid()@, c) implies r@.contains(
            c as usize,
        ) by {
            if c == 0 {
                assert(r@[0] == 0usize);
            }
            let last = r@.len() - 1;
            if c == 2 {
                assert(r@[last] == 2usize);
            }
            if c == 1 {
                if !col_full(state.my_grid()@, 0) {
                    assert(r@[1] == 1usize);
                } else {
                    assert(r@[0] == 1usize);
                }
            }
        }
    }
    r
}

/// The grid of the player whose turn it is.
fn self_grid(state: &GameState) -> (g: &Grid)
    ensures
        *g == state.my_grid(),
{
    match state.current_player {
        Player::Player1 => &state.grid1,
        Player::Player2 => &state.grid2,
    }
}

} // verus!
