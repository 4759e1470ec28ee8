//! The board model: an 8 by 8 grid of optional pieces together with the
//! side to move, the four castling-rights flags, the en-passant target
//! square and the half-move and full-move counters. The mathematical view
//! of a board is a `BoardModel`, on which every contract of the engine is
//! stated.

use vstd::prelude::*;

use crate::types::{Color, Piece, PieceKind, Square};

verus! {

/// The mathematical model of a board: the grid as a sequence of 64
/// optional pieces, indexed by `rank * 8 + file`, plus the game-state
/// fields that travel with a position.
#[verifier::ext_equal]
pub struct BoardModel {
    pub grid: Seq<Option<Piece>>,
    pub active: Color,
    pub castle_wk: bool,
    pub castle_wq: bool,
    pub castle_bk: bool,
    pub castle_bq: bool,
    pub en_passant: Option<Square>,
    pub halfmove_clock: int,
    pub fullmove_number: int,
}

/// Both coordinates lie on the 8 by 8 board.
pub open spec fn on_board(f: int, r: int) -> bool {
    0 <= f < 8 && 0 <= r < 8
}

impl BoardModel {
    /// A model is well formed when its grid has exactly 64 squares and its
    /// counters are non-negative.
    pub open spec fn wf(self) -> bool {
        self.grid.len() == 64 && self.halfmove_clock >= 0 && self.fullmove_number >= 0
    }

    /// The piece on a square; coordinates off the board hold nothing.
    pub open spec fn at(self, f: int, r: int) -> Option<Piece> {
        if on_board(f, r) {
            self.grid[r * 8 + f]
        } else {
            None
        }
    }

    /// The color of the piece on a square, if any.
    pub open spec fn color_at(self, f: int, r: int) -> Option<Color> {
        match self.at(f, r) {
            Some(p) => Some(p.color),
            None => None,
        }
    }

}

/// The piece that the standard starting position puts on a square: the
/// back rank order rook, knight, bishop, queen, king, bishop, knight,
/// rook on ranks 0 and 7, a full pawn rank for each color, and nothing in
/// between. White occupies ranks 0 and 1, Black ranks 6 and 7.
pub open spec fn initial_piece(f: int, r: int) -> Option<Piece> {
    if r == 0 {
        Some(Piece { kind: back_rank_kind(f), color: Color::White })
    } else if r == 1 {
        Some(Piece { kind: PieceKind::Pawn, color: Color::White })
    } else if r == 6 {
        Some(Piece { kind: PieceKind::Pawn, color: Color::Black })
    } else if r == 7 {
        Some(Piece { kind: back_rank_kind(f), color: Color::Black })
    } else {
        None
    }
}

/// The piece kind on a back-rank file in the standard starting position.
pub open spec fn back_rank_kind(f: int) -> PieceKind {
    if f == 0 || f == 7 {
        PieceKind::Rook
    } else if f == 1 || f == 6 {
        PieceKind::Knight
    } else if f == 2 || f == 5 {
        PieceKind::Bishop
    } else if f == 3 {
        PieceKind::Queen
    } else {
        PieceKind::King
    }
}

/// The model of the standard starting position: White to move, all four
/// castling rights, no en-passant target, counters at their start values.
pub open spec fn initial_model() -> BoardModel {
    BoardModel {
        grid: Seq::new(64, |i: int| initial_piece(i % 8, i / 8)),
        active: Color::White,
        castle_wk: true,
        castle_wq: true,
        castle_bk: true,
        castle_bq: true,
        en_passant: None,
        halfmove_clock: 0,
        fullmove_number: 1,
    }
}

/// An 8 by 8 board of optional pieces plus side to move, castling rights,
/// en-passant target and move counters. The grid is stored row by row,
/// rank 0 (White's first rank) first.
pub struct Board {
    pub squares: Vec<Option<Piece>>,
    pub active: Color,
    pub castle_wk: bool,
    pub castle_wq: bool,
    pub castle_bk: bool,
    pub castle_bq: bool,
    pub en_passant: Option<Square>,
    pub halfmove_clock: u64,
    pub fullmove_number: u64,
}

impl View for Board {
    type V = BoardModel;

    open spec fn view(&self) -> BoardModel {
        BoardModel {
            grid: self.squares@,
            active: self.active,
            castle_wk: self.castle_wk,
            castle_wq: self.castle_wq,
            castle_bk: self.castle_bk,
            castle_bq: self.castle_bq,
            en_passant: self.en_passant,
            halfmove_clock: self.halfmove_clock as int,
            fullmove_number: self.fullmove_number as int,
        }
    }
}

impl Board {
    /// The stored grid has exactly 64 squares.
    pub open spec fn wf(self) -> bool {
        self@.wf()
    }

    /// The exec kind on a back-rank file, mirroring `back_rank_kind`.
    fn back_rank_piece(f: u8) -> (k: PieceKind)
        ensures
            k == back_rank_kind(f as int),
    {
        if f == 0 || f == 7 {
            PieceKind::Rook
        } else if f == 1 || f == 6 {
            PieceKind::Knight
        } else if f == 2 || f == 5 {
            PieceKind::Bishop
        } else if f == 3 {
            PieceKind::Queen
        } else {
            PieceKind::King
        }
    }

    /// Constructs the standard starting position: the back ranks, the two
    /// pawn ranks, White to move, all castling rights, fresh counters.
    pub fn initial() -> (b: Board)
        ensures
            b.wf(),
            b@ == initial_model(),
    {
        let mut grid: Vec<Option<Piece>> = Vec::new();
        let mut i: usize = 0;
        while i < 64
            invariant
                i <= 64,
                grid@.len() == i as int,
                forall|j: int|
                    0 <= j < i as int ==> grid@[j] == initial_piece(j % 8, j / 8),
            decreases 64 - i,
        {
            let f = (i % 8) as u8;
            let r = (i / 8) as u8;
            let p: Option<Piece> = if r == 0 {
                Some(Piece { kind: Self::back_rank_piece(f), color: Color::White })
            } else if r == 1 {
                Some(Piece { kind: PieceKind::Pawn, color: Color::White })
            } else if r == 6 {
                Some(Piece { kind: PieceKind::Pawn, color: Color::Black })
            } else if r == 7 {
                Some(Piece { kind: Self::back_rank_piece(f), color: Color::Black })
            } else {
                None
            };
            grid.push(p);
            i += 1;
        }
        let b = Board {
            squares: grid,
            active: Color::White,
            castle_wk: true,
            castle_wq: true,
            castle_bk: true,
            castle_bq: true,
            en_passant: None,
            halfmove_clock: 0,
            fullmove_number: 1,
        };
        proof {
            assert(b@.grid =~= initial_model().grid);
            assert(b@ =~= initial_model());
        }
        b
    }

    /// O(1) lookup of the piece on a square.
    pub fn piece_at(&self, sq: Square) -> (r: Option<Piece>)
        requires
            self.wf(),
            sq.wf(),
        ensures
            r == self@.at(sq.file as int, sq.rank as int),
    {
        self.squares[(sq.rank as usize) * 8 + (sq.file as usize)]
    }

    /// Lookup by raw file and rank indices.
    pub fn piece_at_fr(&self, f: u8, r: u8) -> (p: Option<Piece>)
        requires
            self.wf(),
            f < 8,
            r < 8,
        ensures
            p == self@.at(f as int, r as int),
    {
        self.squares[(r as usize) * 8 + (f as usize)]
    }

    /// Puts a piece on a square, replacing whatever was there. A low-level
    /// mutator used only while applying an already validated move.
    pub fn place(&mut self, sq: Square, p: Piece)
        requires
            old(self).wf(),
            sq.wf(),
        ensures
            final(self).wf(),
            final(self)@ == (BoardModel {
                grid: old(self)@.grid.update(sq.rank as int * 8 + sq.file as int, Some(p)),
                ..old(self)@
            }),
    {
        let i = (sq.rank as usize) * 8 + (sq.file as usize);
        self.squares[i] = Some(p);
    }

    /// Empties a square. A low-level mutator used only while applying an
    /// already validated move.
    pub fn remove(&mut self, sq: Square)
        requires
            old(self).wf(),
            sq.wf(),
        ensures
            final(self).wf(),
            final(self)@ == (BoardModel {
                grid: old(self)@.grid.update(sq.rank as int * 8 + sq.file as int, None),
                ..old(self)@
            }),
    {
        let i = (sq.rank as usize) * 8 + (sq.file as usize);
        self.squares[i] = None;
    }

    /// Relocates whatever stands on `from` to `to`, leaving `from` empty.
    /// A low-level mutator used only while applying an already validated
    /// move.
    pub fn move_piece(&mut self, from: Square, to: Square)
        requires
            old(self).wf(),
            from.wf(),
            to.wf(),
            from != to,
        ensures
            final(self).wf(),
            final(self)@ == (BoardModel {
                grid: old(self)@.grid
                    .update(from.rank as int * 8 + from.file as int, None)
                    .update(
                    to.rank as int * 8 + to.file as int,
                    old(self)@.at(from.file as int, from.rank as int),
                ),
                ..old(self)@
            }),
    {
        let moved = self.piece_at(from);
        let fi = (from.rank as usize) * 8 + (from.file as usize);
        let ti = (to.rank as usize) * 8 + (to.file as usize);
        self.squares[fi] = None;
        self.squares[ti] = moved;
    }

    /// An owned copy of this board, used to simulate a candidate move on a
    /// scratch board during legality filtering.
    pub fn duplicate(&self) -> (r: Board)
        requires
            self.wf(),
        ensures
            r.wf(),
            r@ == self@,
    {
        let mut grid: Vec<Option<Piece>> = Vec::new();
        let mut i: usize = 0;
        while i < 64
            invariant
                self.wf(),
                i <= 64,
                grid@ =~= self.squares@.subrange(0, i as int),
            decreases 64 - i,
        {
            grid.push(self.squares[i]);
            i += 1;
        }
        let r = Board {
            squares: grid,
            active: self.active,
            castle_wk: self.castle_wk,
            castle_wq: self.castle_wq,
            castle_bk: self.castle_bk,
            castle_bq: self.castle_bq,
            en_passant: self.en_passant,
            halfmove_clock: self.halfmove_clock,
            fullmove_number: self.fullmove_number,
        };
        proof {
            assert(r.squares@ =~= self.squares@);
            assert(r@ =~= self@);
        }
        r
    }
}

} // verus!
