//! Decomposition of a matrix into a grid of fixed-size square tiles, and
//! the proof that the decomposition is lossless.

use vstd::prelude::*;
use crate::matrix::dims_text;
use crate::matrix::grid_wf;
use crate::matrix::Matrix;
use crate::matrix::MatrixError;
use crate::num::Number;
use crate::text::dec_digits;
use crate::text::usize_text;
use vstd::arithmetic::div_mod::lemma_fundamental_div_mod;
use vstd::string::StringExecFns;

verus! {

/// The message refusing a zero tile size: it names the offending size.
pub open spec fn tile_size_err_text(ts: nat) -> Seq<char> {
    "Tile size must be positive: got "@ + dec_digits(ts)
}

/// The message refusing a tile size that does not divide the matrix: it
/// names the matrix's dimensions and the tile size.
pub open spec fn tile_divide_err_text(rows: nat, cols: nat, ts: nat) -> Seq<char> {
    "Matrix dimensions must be divisible by tile size: "@ + dims_text(rows, cols)
        + " matrix, tile size "@ + dec_digits(ts)
}

/// A matrix rearranged into a grid of square `tile_size x tile_size`
/// tiles; each tile is an independent matrix holding a value copy of a
/// contiguous block of the source.
#[derive(Debug)]
pub struct TiledMatrix<T: Number> {
    pub tiles: Vec<Vec<Matrix<T>>>,
    pub tile_size: usize,
}

impl<T: Number> View for TiledMatrix<T> {
    type V = Seq<Seq<Seq<Seq<T>>>>;

    open spec fn view(&self) -> Seq<Seq<Seq<Seq<T>>>> {
        Seq::new(
            self.tiles@.len(),
            |i: int| Seq::new(self.tiles@[i]@.len(), |j: int| self.tiles@[i]@[j]@),
        )
    }
}

/// The tile decomposition of a grid: tile `(i, j)` holds, at local
/// position `(ti, tj)`, the source element `(i*ts + ti, j*ts + tj)`.
pub open spec fn tiles_of<T>(g: Seq<Seq<T>>, ts: nat) -> Seq<Seq<Seq<Seq<T>>>> {
    Seq::new(
        g.len() / ts,
        |i: int|
            Seq::new(
                g[0].len() / ts,
                |j: int|
                    Seq::new(
                        ts,
                        |ti: int| Seq::new(ts, |tj: int| g[i * ts + ti][j * ts + tj]),
                    ),
            ),
    )
}

/// The grid a tile decomposition reassembles to: element `(r, c)` is read
/// from tile `(r/ts, c/ts)` at local position `(r%ts, c%ts)`.
pub open spec fn untile<T>(
    tiles: Seq<Seq<Seq<Seq<T>>>>,
    ts: nat,
    rows: nat,
    cols: nat,
) -> Seq<Seq<T>> {
    Seq::new(
        rows,
        |r: int|
            Seq::new(
                cols,
                |c: int| tiles[r / (ts as int)][c / (ts as int)][r % (ts as int)][c % (ts as int)],
            ),
    )
}

impl<T: Number> TiledMatrix<T> {
    /// All structural invariants of a tile decomposition hold: a non-empty
    /// rectangular grid of well-formed `tile_size x tile_size` tiles.
    pub open spec fn wf(&self) -> bool {
        &&& self.tile_size >= 1
        &&& self.tiles@.len() >= 1
        &&& forall|i: int|
            0 <= i < self.tiles@.len() ==> (#[trigger] self.tiles@[i])@.len()
                == self.tiles@[0]@.len()
        &&& self.tiles@[0]@.len() >= 1
        &&& forall|i: int, j: int|
            0 <= i < self.tiles@.len() && 0 <= j < self.tiles@[i]@.len() ==> {
                &&& (#[trigger] self.tiles@[i]@[j]).wf()
                &&& self.tiles@[i]@[j].rows == self.tile_size
                &&& self.tiles@[i]@[j].cols == self.tile_size
            }
    }
}

impl<T: Number> Matrix<T> {
    /// Splits the matrix into square tiles of edge length `tile_size`.
    ///
    /// Succeeds exactly when `tile_size` is positive and divides both
    /// dimensions; the result is then the decomposition `tiles_of(self@,
    /// tile_size)`, every tile a fresh value copy. Fails with
    /// `InvalidDimensions` on a zero tile size or a non-divisible
    /// dimension, naming the offending tile size and shape in the message;
    /// no partial tile is ever produced.
    pub fn split_into_tiles(&self, tile_size: usize) -> (r: Result<TiledMatrix<T>, MatrixError>)
        requires
            self.wf(),
        ensures
            r is Ok <==> (tile_size >= 1 && self.rows as int % (tile_size as int) == 0
                && self.cols as int % (tile_size as int) == 0),
            match r {
                Ok(t) => {
                    &&& t.wf()
                    &&& t.tile_size == tile_size
                    &&& t.tiles@.len() == self.rows as int / (tile_size as int)
                    &&& t.tiles@[0]@.len() == self.cols as int / (tile_size as int)
                    &&& t@ == tiles_of(self@, tile_size as nat)
                },
                Err(MatrixError::InvalidDimensions(msg)) => {
                    if tile_size == 0 {
                        msg@ == tile_size_err_text(tile_size as nat)
                    } else {
                        msg@ == tile_divide_err_text(
                            self.rows as nat,
                            self.cols as nat,
                            tile_size as nat,
                        )
                    }
                },
                Err(MatrixError::EmptyMatrix) => false,
            },
    {
        if tile_size == 0 {
            let mut msg = String::new();
            msg.append("Tile size must be positive: got ");
            let size_text = usize_text(tile_size);
            msg.append(size_text.as_str());
            proof {
                assert(msg@ =~= tile_size_err_text(tile_size as nat));
            }
            return Err(MatrixError::InvalidDimensions(msg));
        }
        if self.rows % tile_size != 0 || self.cols % tile_size != 0 {
            let mut msg = String::new();
            msg.append("Matrix dimensions must be divisible by tile size: ");
            let row_count = usize_text(self.rows);
            msg.append(row_count.as_str());
            msg.append("x");
            let col_count = usize_text(self.cols);
            msg.append(col_count.as_str());
            msg.append(" matrix, tile size ");
            let size_text = usize_text(tile_size);
            msg.append(size_text.as_str());
            proof {
                assert(msg@ =~= tile_divide_err_text(
                    self.rows as nat,
                    self.cols as nat,
                    tile_size as nat,
                ));
            }
            return Err(MatrixError::InvalidDimensions(msg));
        }
        let tile_rows: usize = self.rows / tile_size;
        let tile_cols: usize = self.cols / tile_size;
        proof {
            lemma_fundamental_div_mod(self.rows as int, tile_size as int);
            lemma_fundamental_div_mod(self.cols as int, tile_size as int);
        }
        let ghost target = tiles_of(self@, tile_size as nat);
        let mut tiles: Vec<Vec<Matrix<T>>> = Vec::new();
        let mut i: usize = 0;
        while i < tile_rows
            invariant
                self.wf(),
                tile_size >= 1,
                tile_rows == self.rows as int / (tile_size as int),
                tile_cols == self.cols as int / (tile_size as int),
                self.rows == tile_rows * tile_size,
                self.cols == tile_cols * tile_size,
                target == tiles_of(self@, tile_size as nat),
                i <= tile_rows,
                tiles@.len() == i,
                forall|a: int|
                    0 <= a < i ==> (#[trigger] tiles@[a])@.len() == tile_cols,
                forall|a: int, b: int|
                    0 <= a < i && 0 <= b < tile_cols ==> {
                        &&& (#[trigger] tiles@[a]@[b]).wf()
                        &&& tiles@[a]@[b].rows == tile_size
                        &&& tiles@[a]@[b].cols == tile_size
                        &&& tiles@[a]@[b]@ == target[a][b]
                    },
            decreases tile_rows - i,
        {
            let mut tile_row: Vec<Matrix<T>> = Vec::new();
            let mut j: usize = 0;
            while j < tile_cols
                invariant
                    self.wf(),
                    tile_size >= 1,
                    tile_rows == self.rows as int / (tile_size as int),
                    tile_cols == self.cols as int / (tile_size as int),
                    self.rows == tile_rows * tile_size,
                    self.cols == tile_cols * tile_size,
                    target == tiles_of(self@, tile_size as nat),
                    i < tile_rows,
                    j <= tile_cols,
                    tile_row@.len() == j,
                    forall|b: int|
                        0 <= b < j ==> {
                            &&& (#[trigger] tile_row@[b]).wf()
                            &&& tile_row@[b].rows == tile_size
                            &&& tile_row@[b].cols == tile_size
                            &&& tile_row@[b]@ == target[i as int][b]
                        },
                decreases tile_cols - j,
            {
                let mut tile_data: Vec<Vec<T>> = Vec::new();
                let mut ti: usize = 0;
                while ti < tile_size
                    invariant
                        self.wf(),
                        tile_size >= 1,
                        self.rows == tile_rows * tile_size,
                        self.cols == tile_cols * tile_size,
                        i < tile_rows,
                        j < tile_cols,
                        ti <= tile_size,
                        tile_data@.len() == ti,
                        forall|a: int|
                            0 <= a < ti ==> (#[trigger] tile_data@[a])@ =~= Seq::new(
                                tile_size as nat,
                                |tj: int| self@[i * tile_size + a][j * tile_size + tj],
                            ),
                    decreases tile_size - ti,
                {
                    proof {
                        assert(i * tile_size + ti < tile_rows * tile_size) by (nonlinear_arith)
                            requires
                                0 <= i,
                                0 <= ti,
                                i < tile_rows,
                                ti < tile_size,
                                tile_size >= 1,
                        ;
                    }
                    let row_idx: usize = i * tile_size + ti;
                    let mut row: Vec<T> = Vec::new();
                    let mut tj: usize = 0;
                    while tj < tile_size
                        invariant
                            self.wf(),
                            tile_size >= 1,
                            self.rows == tile_rows * tile_size,
                            self.cols == tile_cols * tile_size,
                            i < tile_rows,
                            j < tile_cols,
                            ti < tile_size,
                            tj <= tile_size,
                            row_idx == i * tile_size + ti,
                            row_idx < self.rows,
                            row@.len() == tj,
                            forall|b: int|
                                0 <= b < tj ==> row@[b] == self@[row_idx as int][j * tile_size
                                    + b],
                        decreases tile_size - tj,
                    {
                        proof {
                            assert(j * tile_size + tj < tile_cols * tile_size) by (
                            nonlinear_arith)
                                requires
                                    0 <= j,
                                    0 <= tj,
                                    j < tile_cols,
                                    tj < tile_size,
                                    tile_size >= 1,
                            ;
                            assert(self@[row_idx as int] == self.data@[row_idx as int]@);
                            assert(self@[row_idx as int].len() == self.cols);
                        }
                        let col_idx: usize = j * tile_size + tj;
                        row.push(self.data[row_idx][col_idx]);
                        tj = tj + 1;
                    }
                    tile_data.push(row);
                    ti = ti + 1;
                }
                let tile = Matrix { rows: tile_size, cols: tile_size, data: tile_data };
                proof {
                    assert(tile@ =~~= target[i as int][j as int]);
                    assert(tile.wf());
                }
                tile_row.push(tile);
                j = j + 1;
            }
            tiles.push(tile_row);
            i = i + 1;
        }
        let t = TiledMatrix { tiles, tile_size };
        proof {
            assert(tile_rows >= 1) by (nonlinear_arith)
                requires
                    0 <= tile_rows,
                    tile_size >= 1,
                    self.rows as int == tile_rows * tile_size,
                    self.rows >= 1,
            ;
            assert(tile_cols >= 1) by (nonlinear_arith)
                requires
                    0 <= tile_cols,
                    tile_size >= 1,
                    self.cols as int == tile_cols * tile_size,
                    self.cols >= 1,
            ;
            assert(t@ =~~= target);
            assert(t.wf());
        }
        Ok(t)
    }
}

/// The tile decomposition is lossless: reassembling `tiles_of(g, ts)`
/// reproduces `g` exactly.
pub proof fn lemma_tiling_round_trip<T>(g: Seq<Seq<T>>, ts: nat, rows: nat, cols: nat)
    requires
        grid_wf(g, rows, cols),
        ts >= 1,
        rows % ts == 0,
        cols % ts == 0,
    ensures
        untile(tiles_of(g, ts), ts, rows, cols) == g,
{
    let tiles = tiles_of(g, ts);
    assert forall|r: int, c: int|
        0 <= r < rows && 0 <= c < cols implies untile(tiles, ts, rows, cols)[r][c] == g[r][c] by {
        lemma_fundamental_div_mod(r, ts as int);
        lemma_fundamental_div_mod(c, ts as int);
        lemma_fundamental_div_mod(rows as int, ts as int);
        lemma_fundamental_div_mod(cols as int, ts as int);
        let tr = r / (ts as int);
        let tc = c / (ts as int);
        assert(0 <= r % (ts as int) < ts as int);
        assert(0 <= c % (ts as int) < ts as int);
        assert(tr < rows as int / (ts as int)) by (nonlinear_arith)
            requires
                ts >= 1,
                r < rows,
                0 <= r,
                tr == r / (ts as int),
                r == ts * tr + r % (ts as int),
                0 <= r % (ts as int) < ts as int,
                rows as int == ts * (rows as int / (ts as int)),
        ;
        assert(tc < cols as int / (ts as int)) by (nonlinear_arith)
            requires
                ts >= 1,
                c < cols,
                0 <= c,
                tc == c / (ts as int),
                c == ts * tc + c % (ts as int),
                0 <= c % (ts as int) < ts as int,
                cols as int == ts * (cols as int / (ts as int)),
        ;
        assert(0 <= tr && 0 <= tc);
        assert(tr * (ts as int) == (ts as int) * tr) by (nonlinear_arith);
        assert(tc * (ts as int) == (ts as int) * tc) by (nonlinear_arith);
        assert(tiles[tr][tc][r % (ts as int)][c % (ts as int)] == g[tr * ts + r % (ts as int)][tc * ts
            + c % (ts as int)]);
        assert(tr * ts + r % (ts as int) == r);
        assert(tc * ts + c % (ts as int) == c);
    }
    assert(untile(tiles, ts, rows, cols) =~~= g);
}

} // verus!
