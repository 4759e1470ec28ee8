//! Core value types: colors, piece kinds, pieces, squares, moves, game
//! states and the error kinds that move application can report.

use vstd::prelude::*;

verus! {

/// The two sides of a chess game. White moves first; the turn flips after
/// every successfully applied move.
#[derive(Copy, Clone, Debug, PartialEq, Eq, Structural)]
pub enum Color {
    White,
    Black,
}

impl Color {
    /// The other side.
    pub open spec fn spec_opposite(self) -> Color {
        match self {
            Color::White => Color::Black,
            Color::Black => Color::White,
        }
    }

    pub fn opposite(self) -> (r: Color)
        ensures
            r == self.spec_opposite(),
    {
        match self {
            Color::White => Color::Black,
            Color::Black => Color::White,
        }
    }
}

/// The six kinds of chess pieces. A pure value with no behavior of its own.
#[derive(Copy, Clone, Debug, PartialEq, Eq, Structural)]
pub enum PieceKind {
    King,
    Queen,
    Rook,
    Bishop,
    Knight,
    Pawn,
}

/// A piece is a kind together with the color that owns it. Pieces have no
/// identity beyond kind, color and location.
#[derive(Copy, Clone, Debug, PartialEq, Eq, Structural)]
pub struct Piece {
    pub kind: PieceKind,
    pub color: Color,
}

/// The one-character chess glyph of a piece: the hollow figurines
/// U+2654 through U+2659 for White's king, queen, rook, bishop, knight
/// and pawn, and the solid figurines U+265A through U+265F for Black's.
/// The mapping is injective over the twelve pieces.
pub open spec fn piece_glyph(p: Piece) -> char {
    match p.color {
        Color::White => match p.kind {
            PieceKind::King => '\u{2654}',
            PieceKind::Queen => '\u{2655}',
            PieceKind::Rook => '\u{2656}',
            PieceKind::Bishop => '\u{2657}',
            PieceKind::Knight => '\u{2658}',
            PieceKind::Pawn => '\u{2659}',
        },
        Color::Black => match p.kind {
            PieceKind::King => '\u{265A}',
            PieceKind::Queen => '\u{265B}',
            PieceKind::Rook => '\u{265C}',
            PieceKind::Bishop => '\u{265D}',
            PieceKind::Knight => '\u{265E}',
            PieceKind::Pawn => '\u{265F}',
        },
    }
}

impl Piece {
    /// True exactly when the piece belongs to White.
    pub fn iswhite(&self) -> (r: bool)
        ensures
            r == (self.color is White),
    {
        match self.color {
            Color::White => true,
            Color::Black => false,
        }
    }

    /// The piece's chess glyph as a one-character string: `piece_glyph`
    /// fixes it to U+2654 through U+2659 for White and U+265A through
    /// U+265F for Black.
    pub fn icon(&self) -> (r: String)
        ensures
            r@ == seq![piece_glyph(*self)],
    {
        let text: &str = match (self.color, self.kind) {
            (Color::White, PieceKind::King) => "\u{2654}",
            (Color::White, PieceKind::Queen) => "\u{2655}",
            (Color::White, PieceKind::Rook) => "\u{2656}",
            (Color::White, PieceKind::Bishop) => "\u{2657}",
            (Color::White, PieceKind::Knight) => "\u{2658}",
            (Color::White, PieceKind::Pawn) => "\u{2659}",
            (Color::Black, PieceKind::King) => "\u{265A}",
            (Color::Black, PieceKind::Queen) => "\u{265B}",
            (Color::Black, PieceKind::Rook) => "\u{265C}",
            (Color::Black, PieceKind::Bishop) => "\u{265D}",
            (Color::Black, PieceKind::Knight) => "\u{265E}",
            (Color::Black, PieceKind::Pawn) => "\u{265F}",
        };
        proof {
            reveal_strlit("\u{2654}");
            reveal_strlit("\u{2655}");
            reveal_strlit("\u{2656}");
            reveal_strlit("\u{2657}");
            reveal_strlit("\u{2658}");
            reveal_strlit("\u{2659}");
            reveal_strlit("\u{265A}");
            reveal_strlit("\u{265B}");
            reveal_strlit("\u{265C}");
            reveal_strlit("\u{265D}");
            reveal_strlit("\u{265E}");
            reveal_strlit("\u{265F}");
        }
        let r = String::from_str(text);
        proof {
            assert(r@ =~= seq![piece_glyph(*self)]);
        }
        r
    }
}

/// A board coordinate: file 0 is the a-file, rank 0 is White's first rank.
/// Both components must be below 8; out-of-range text is rejected by the
/// notation layer before a `Square` is ever built.
#[derive(Copy, Clone, Debug, PartialEq, Eq, Structural)]
pub struct Square {
    pub file: u8,
    pub rank: u8,
}

impl Square {
    /// Both coordinates are on the 8 by 8 board.
    pub open spec fn wf(self) -> bool {
        self.file < 8 && self.rank < 8
    }

    pub fn new(file: u8, rank: u8) -> (r: Square)
        requires
            file < 8,
            rank < 8,
        ensures
            r == (Square { file, rank }),
    {
        Square { file, rank }
    }
}

/// A candidate or generated move: source and destination squares, the
/// promotion choice for a pawn reaching the last rank, and flags that
/// record whether the move captures, castles or captures en passant.
/// The flags are derived from the board; the move generator produces them
/// and `candidate` moves built from caller input recompute them.
#[derive(Copy, Clone, Debug, PartialEq, Eq)]
pub struct Move {
    pub from: Square,
    pub to: Square,
    pub promotion: Option<PieceKind>,
    pub is_capture: bool,
    pub is_castle: bool,
    pub is_en_passant: bool,
}

/// The state reported after a move: `Check` is a transient sub-state of an
/// in-progress game, while `Checkmate`, `Stalemate` and `GameOver` are
/// terminal.
#[derive(Copy, Clone, Debug, PartialEq, Eq, Structural)]
pub enum GameState {
    InProgress,
    Check,
    Checkmate,
    Stalemate,
    GameOver,
}

/// True for the states in which no further move may be applied.
pub open spec fn is_terminal(s: GameState) -> bool {
    s is Checkmate || s is Stalemate || s is GameOver
}

/// The recoverable error kinds of the engine. The first five indicate a
/// rejected input and leave all state unchanged; `InvariantViolation`
/// reports an internally inconsistent board (king count differing from
/// one) and indicates a defect, not a user error.
#[derive(Copy, Clone, Debug, PartialEq, Eq, Structural)]
pub enum MoveError {
    InvalidNotation,
    NoPieceAtSource,
    WrongSideToMove,
    IllegalMove,
    GameAlreadyOver,
    InvariantViolation,
}

} // verus!
