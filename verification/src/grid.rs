use vstd::prelude::*;

verus! {

/// One player's board: 3 columns x 3 rows of cells, flattened column-major
/// (cell `col * 3 + row`). Cell value 0 means empty; 1..=6 is a die face.
///
/// Invariant (`grid_wf`): within a column the occupied cells are contiguous
/// from row 0 upward. `place_die` fills the lowest empty row and
/// `remove_matching` compacts the survivors downward, so both preserve it.
#[derive(Clone, Copy, Debug, PartialEq, Eq)]
pub struct Grid {
    cells: [u8; 9],
}

/// The cell of a grid view at `col`, `row` (row 0 is the bottom).
pub open spec fn gcell(s: Seq<u8>, col: int, row: int) -> u8 {
    s[col * 3 + row]
}

/// The three cells of one column, bottom row first.
pub open spec fn col_seq(s: Seq<u8>, col: int) -> Seq<u8> {
    seq![gcell(s, col, 0), gcell(s, col, 1), gcell(s, col, 2)]
}

/// A column is full when all three of its rows are occupied.
pub open spec fn col_full(s: Seq<u8>, col: int) -> bool {
    gcell(s, col, 0) != 0 && gcell(s, col, 1) != 0 && gcell(s, col, 2) != 0
}

/// The lowest empty row of a column, or 3 when the column is full.
pub open spec fn first_empty_row(s: Seq<u8>, col: int) -> int {
    if gcell(s, col, 0) == 0 {
        0
    } else if gcell(s, col, 1) == 0 {
        1
    } else if gcell(s, col, 2) == 0 {
        2
    } else {
        3
    }
}

/// Contiguity of one column: an occupied row never sits above an empty one.
pub open spec fn col_wf(s: Seq<u8>, col: int) -> bool {
    &&& (gcell(s, col, 1) != 0 ==> gcell(s, col, 0) != 0)
    &&& (gcell(s, col, 2) != 0 ==> gcell(s, col, 1) != 0)
}

/// Well-formed grid view: 9 cells, each column contiguous from row 0.
pub open spec fn grid_wf(s: Seq<u8>) -> bool {
    &&& s.len() == 9
    &&& forall|c: int| 0 <= c < 3 ==> #[trigger] col_wf(s, c)
}

/// Every cell of the grid is occupied.
pub open spec fn grid_full(s: Seq<u8>) -> bool {
    forall|i: int| 0 <= i < 9 ==> #[trigger] s[i] != 0
}

/// The grid after dropping face `v` into `col`: the lowest empty row takes
/// `v`; a full column leaves the grid unchanged.
pub open spec fn place_in_grid(s: Seq<u8>, col: int, v: u8) -> Seq<u8> {
    if col_full(s, col) {
        s
    } else {
        s.update(col * 3 + first_empty_row(s, col), v)
    }
}

/// The cells of a column that survive removal of face `drop`, in row order.
pub open spec fn keep_cells(col: Seq<u8>, drop: u8) -> Seq<u8> {
    col.filter(|x: u8| x != 0 && x != drop)
}

/// A survivor sequence padded with empty cells up to the column height of 3.
pub open spec fn padded3(kept: Seq<u8>) -> Seq<u8>
    recommends
        kept.len() <= 3,
{
    kept + Seq::new((3 - kept.len()) as nat, |i: int| 0u8)
}

/// One column after removing face `drop` and compacting downward.
pub open spec fn compact_col(col: Seq<u8>, drop: u8) -> Seq<u8> {
    padded3(keep_cells(col, drop))
}

/// The grid after removing every die of face `v` from `col` and compacting
/// the survivors downward.
pub open spec fn remove_from_grid(s: Seq<u8>, col: int, v: u8) -> Seq<u8> {
    let k = compact_col(col_seq(s, col), v);
    s.update(col * 3 + 0, k[0]).update(col * 3 + 1, k[1]).update(col * 3 + 2, k[2])
}

/// How many cells of a three-cell column hold face `v`.
pub open spec fn count_in_col(col: Seq<u8>, v: u8) -> int
    recommends
        col.len() == 3,
{
    (if col[0] == v {
        1int
    } else {
        0int
    }) + (if col[1] == v {
        1int
    } else {
        0int
    }) + (if col[2] == v {
        1int
    } else {
        0int
    })
}

/// Computes `keep_cells` on a concrete three-cell column.
pub proof fn lemma_keep_cells3(v0: u8, v1: u8, v2: u8, drop: u8)
    ensures
        ({
            let kept = keep_cells(seq![v0, v1, v2], drop);
            let k0 = v0 != 0 && v0 != drop;
            let k1 = v1 != 0 && v1 != drop;
            let k2 = v2 != 0 && v2 != drop;
            kept == (if k0 {
                if k1 {
                    if k2 {
                        seq![v0, v1, v2]
                    } else {
                        seq![v0, v1]
                    }
                } else {
                    if k2 {
                        seq![v0, v2]
                    } else {
                        seq![v0]
                    }
                }
            } else {
                if k1 {
                    if k2 {
                        seq![v1, v2]
                    } else {
                        seq![v1]
                    }
                } else {
                    if k2 {
                        seq![v2]
                    } else {
                        Seq::<u8>::empty()
                    }
                }
            })
        }),
{
    let s = seq![v0, v1, v2];
    let pred = |x: u8| x != 0 && x != drop;
    reveal_with_fuel(Seq::filter, 5);
    assert(s.drop_last() =~= seq![v0, v1]);
    assert(seq![v0, v1].drop_last() =~= seq![v0]);
    assert(seq![v0].drop_last() =~= Seq::<u8>::empty());
    assert(Seq::<u8>::empty().filter(pred) =~= Seq::<u8>::empty());
    assert(seq![v0].filter(pred) == if pred(v0) {
        Seq::<u8>::empty().push(v0)
    } else {
        Seq::<u8>::empty()
    });
    assert(Seq::<u8>::empty().push(v0) =~= seq![v0]);
    assert(seq![v0].push(v1) =~= seq![v0, v1]);
    assert(seq![v0].push(v2) =~= seq![v0, v2]);
    assert(seq![v1].push(v2) =~= seq![v1, v2]);
    assert(Seq::<u8>::empty().push(v1) =~= seq![v1]);
    assert(Seq::<u8>::empty().push(v2) =~= seq![v2]);
    assert(seq![v0, v1].push(v2) =~= seq![v0, v1, v2]);
}

impl View for Grid {
    type V = Seq<u8>;

    closed spec fn view(&self) -> Seq<u8> {
        self.cells@
    }
}

impl Grid {
    /// An empty grid.
    pub fn new() -> (g: Grid)
        ensures
            g@.len() == 9,
            forall|i: int| 0 <= i < 9 ==> #[trigger] g@[i] == 0,
            grid_wf(g@),
    {
        Grid { cells: [0u8; 9] }
    }

    /// Reads the cell at `col`, `row`.
    pub fn get(&self, col: usize, row: usize) -> (v: u8)
        requires
            col < 3,
            row < 3,
        ensures
            v == gcell(self@, col as int, row as int),
    {
        self.cells[col * 3 + row]
    }

    fn set(&mut self, col: usize, row: usize, value: u8)
        requires
            col < 3,
            row < 3,
        ensures
            final(self)@ == old(self)@.update(col * 3 + row, value),
    {
        self.cells[col * 3 + row] = value;
    }

    /// Whether all three rows of `col` are occupied.
    pub fn is_column_full(&self, col: usize) -> (r: bool)
        requires
            col < 3,
        ensures
            r == col_full(self@, col as int),
    {
        self.get(col, 0) != 0 && self.get(col, 1) != 0 && self.get(col, 2) != 0
    }

    /// The lowest empty row of `col`, or `None` when the column is full.
    pub fn get_empty_row(&self, col: usize) -> (r: Option<usize>)
        requires
            col < 3,
        ensures
            match r {
                Some(row) => row < 3 && row == first_empty_row(self@, col as int),
                None => col_full(self@, col as int),
            },
    {
        if self.get(col, 0) == 0 {
            Some(0)
        } else if self.get(col, 1) == 0 {
            Some(1)
        } else if self.get(col, 2) == 0 {
            Some(2)
        } else {
            None
        }
    }

    /// Drops face `value` into `col`: the lowest empty row takes the die.
    /// Returns false (and changes nothing) when the column is already full.
    pub fn place_die(&mut self, col: usize, value: u8) -> (r: bool)
        requires
            col < 3,
            1 <= value <= 6,
            grid_wf(old(self)@),
        ensures
            r == !col_full(old(self)@, col as int),
            final(self)@ == place_in_grid(old(self)@, col as int, value),
            grid_wf(final(self)@),
    {
        match self.get_empty_row(col) {
            Some(row) => {
                self.set(col, row, value);
                proof {
                    assert forall|c: int| 0 <= c < 3 implies #[trigger] col_wf(self@, c) by {
                        assert(col_wf(old(self)@, c));
                    }
                }
                true
            },
            None => false,
        }
    }

    /// Removes every die of face `value` from `col`, compacts the survivors
    /// downward (their order is kept), and returns how many were removed.
    #[verifier::rlimit(50)]
    pub fn remove_matching(&mut self, col: usize, value: u8) -> (removed: usize)
        requires
            col < 3,
            1 <= value <= 6,
            grid_wf(old(self)@),
        ensures
            removed == count_in_col(col_seq(old(self)@, col as int), value),
            final(self)@ == remove_from_grid(old(self)@, col as int, value),
            grid_wf(final(self)@),
    {
        let v0 = self.get(col, 0);
        let v1 = self.get(col, 1);
        let v2 = self.get(col, 2);
        proof {
            lemma_keep_cells3(v0, v1, v2, value);
            assert(col_seq(self@, col as int) =~= seq![v0, v1, v2]);
        }
        let mut kept0: u8 = 0;
        let mut kept1: u8 = 0;
        let mut kept2: u8 = 0;
        let mut k: usize = 0;
        let mut removed: usize = 0;
        if v0 != 0 && v0 != value {
            kept0 = v0;
            k = 1;
        } else if v0 == value {
            removed = removed + 1;
        }
        if v1 != 0 && v1 != value {
            if k == 0 {
                kept0 = v1;
            } else {
                kept1 = v1;
            }
            k = k + 1;
        } else if v1 == value {
            removed = removed + 1;
        }
        if v2 != 0 && v2 != value {
            if k == 0 {
                kept0 = v2;
            } else if k == 1 {
                kept1 = v2;
            } else {
                kept2 = v2;
            }
            k = k + 1;
        } else if v2 == value {
            removed = removed + 1;
        }
        self.set(col, 0, kept0);
        self.set(col, 1, kept1);
        self.set(col, 2, kept2);
        proof {
            assert(compact_col(seq![v0, v1, v2], value) =~= seq![kept0, kept1, kept2]);
            assert forall|c: int| 0 <= c < 3 implies #[trigger] col_wf(self@, c) by {
                assert(col_wf(old(self)@, c));
            }
        }
        removed
    }

    /// Whether every cell of the grid is occupied.
    pub fn is_full(&self) -> (r: bool)
        ensures
            r == grid_full(self@),
    {
        let mut i: usize = 0;
        while i < 9
            invariant
                i <= 9,
                forall|j: int| 0 <= j < i ==> #[trigger] self@[j] != 0,
            decreases 9 - i,
        {
            if self.cells[i] == 0 {
                return false;
            }
            i = i + 1;
        }
        true
    }
}

} // verus!
