//! The game state machine: a `Game` owns a board and a status, is created
//! in the standard starting position, and is mutated only by applying a
//! legal move, after which the resulting position is classified as in
//! progress, check, checkmate or stalemate.

use vstd::prelude::*;

use crate::attack::{in_check, in_check_model, pawn_last_rank};
use crate::board::{initial_model, Board, BoardModel};
use crate::movegen::{
    apply_move_model, board_after, build_candidate, candidate_move, is_legal, is_pseudo_legal,
    legal_move, legal_moves, all_legal_moves, mover_color,
};
use crate::notation::{lemma_square_name_injective, lemma_square_name_roundtrip, parsed_square,
    pos_from_string, pos_to_string, rank_char, square_name};
use crate::types::{is_terminal, piece_glyph, Color, GameState, Move, MoveError, Piece, PieceKind,
    Square};

verus! {

/// Color `c` has at least one legal move on this board.
pub open spec fn exists_legal_move_for(m: BoardModel, c: Color) -> bool {
    exists|mv: Move| #[trigger] legal_move(m, mv) && mover_color(m, mv) == Some(c)
}

/// The status of a position for its side to move: checkmate when in check
/// with no legal move, stalemate when not in check with no legal move,
/// check when in check but able to move, in progress otherwise.
pub open spec fn classify_model(m: BoardModel) -> GameState {
    if in_check_model(m, m.active) {
        if !exists_legal_move_for(m, m.active) {
            GameState::Checkmate
        } else {
            GameState::Check
        }
    } else {
        if !exists_legal_move_for(m, m.active) {
            GameState::Stalemate
        } else {
            GameState::InProgress
        }
    }
}

/// The mathematical view of a `Game`: the board model, the stored status,
/// and the piece kind the next promotion will choose.
#[verifier::ext_equal]
pub struct GameModel {
    pub board: BoardModel,
    pub state: GameState,
    pub promotion_choice: PieceKind,
}

/// What one move request does to a game, given already parsed squares: the
/// error that rejects it, leaving the game unchanged, or the applied move
/// with the new status. A request names at most one candidate move, since
/// the flags of a move are derived from the board.
pub open spec fn step_squares(
    g: GameModel,
    fs: Square,
    ts: Square,
    promo: Option<PieceKind>,
) -> (GameModel, Result<GameState, MoveError>) {
    let m = g.board;
    match m.at(fs.file as int, fs.rank as int) {
        None => (g, Err(MoveError::NoPieceAtSource)),
        Some(p) => if p.color != m.active {
            (g, Err(MoveError::WrongSideToMove))
        } else {
            let mv = candidate_move(m, fs, ts, promo);
            if legal_move(m, mv) {
                let m2 = apply_move_model(m, mv);
                let st = classify_model(m2);
                (GameModel { board: m2, state: st, promotion_choice: g.promotion_choice }, Ok(st))
            } else {
                (g, Err(MoveError::IllegalMove))
            }
        },
    }
}

/// What one move request, given as text, does to a game: a terminal game
/// rejects everything with `GameAlreadyOver`; malformed square text is
/// `InvalidNotation`; otherwise the parsed squares are looked up as
/// `step_squares` says. Every rejection leaves the game exactly as it was.
pub open spec fn step_model(
    g: GameModel,
    from_text: Seq<char>,
    to_text: Seq<char>,
    promo: Option<PieceKind>,
) -> (GameModel, Result<GameState, MoveError>) {
    if is_terminal(g.state) {
        (g, Err(MoveError::GameAlreadyOver))
    } else {
        match (parsed_square(from_text), parsed_square(to_text)) {
            (Some(fs), Some(ts)) => step_squares(g, fs, ts, promo),
            _ => (g, Err(MoveError::InvalidNotation)),
        }
    }
}

/// The promotion choice `make_move` passes along: the stored choice when
/// the named move carries a pawn onto its last rank, nothing otherwise.
pub open spec fn make_move_promo(
    g: GameModel,
    from_text: Seq<char>,
    to_text: Seq<char>,
) -> Option<PieceKind> {
    match (parsed_square(from_text), parsed_square(to_text)) {
        (Some(fs), Some(ts)) => match g.board.at(fs.file as int, fs.rank as int) {
            Some(p) => if p.kind is Pawn && ts.rank as int == pawn_last_rank(p.color) {
                Some(g.promotion_choice)
            } else {
                None
            },
            None => None,
        },
        _ => None,
    }
}

/// The piece kind named by promotion text: its first letter, either case,
/// out of queen, rook, bishop and knight; anything else names nothing.
pub open spec fn parsed_promotion(s: Seq<char>) -> Option<PieceKind> {
    if s.len() == 0 {
        None
    } else if s[0] == 'q' || s[0] == 'Q' {
        Some(PieceKind::Queen)
    } else if s[0] == 'r' || s[0] == 'R' {
        Some(PieceKind::Rook)
    } else if s[0] == 'b' || s[0] == 'B' {
        Some(PieceKind::Bishop)
    } else if s[0] == 'n' || s[0] == 'N' {
        Some(PieceKind::Knight)
    } else {
        None
    }
}

/// A sequence of square-name strings holds the name `s`.
pub open spec fn names_contain(v: Seq<String>, s: Seq<char>) -> bool {
    exists|i: int| 0 <= i < v.len() && v[i]@ == s
}

/// Some legal move leads from `from` to `to` on this board.
pub open spec fn has_legal_move_to(m: BoardModel, from: Square, to: Square) -> bool {
    exists|mv: Move| #[trigger] legal_move(m, mv) && mv.from == from && mv.to == to
}

/// A chess game: the board, the current status, and the piece kind that
/// the next pawn promotion will choose (set by `set_promotion`, queen by
/// default). Created in the standard starting position and mutated only
/// through move application.
pub struct Game {
    pub board: Board,
    pub state: GameState,
    pub promotion_choice: PieceKind,
}

impl View for Game {
    type V = GameModel;

    open spec fn view(&self) -> GameModel {
        GameModel { board: self.board@, state: self.state, promotion_choice: self.promotion_choice }
    }
}

/// Classifies a position for its side to move.
pub fn classify(b: &Board) -> (st: GameState)
    requires
        b.wf(),
    ensures
        st == classify_model(b@),
{
    let chk = in_check(b, b.active);
    let moves = all_legal_moves(b, b.active);
    let any = moves.len() > 0;
    proof {
        if moves@.len() > 0 {
            assert(legal_move(b@, moves@[0]) && mover_color(b@, moves@[0]) == Some(b@.active));
        } else {
            if exists_legal_move_for(b@, b@.active) {
                let mv = choose|mv: Move|
                    #[trigger] legal_move(b@, mv) && mover_color(b@, mv) == Some(b@.active);
                assert(moves@.contains(mv));
                assert(false);
            }
        }
    }
    if any {
        if chk {
            GameState::Check
        } else {
            GameState::InProgress
        }
    } else {
        if chk {
            GameState::Checkmate
        } else {
            GameState::Stalemate
        }
    }
}

impl Game {
    /// The game's board is well formed.
    pub open spec fn wf(self) -> bool {
        self.board.wf()
    }

    /// Initialises a new game: the standard starting position, status in
    /// progress, promotion choice queen.
    pub fn new() -> (g: Game)
        ensures
            g.wf(),
            g@.board == initial_model(),
            g@.state == GameState::InProgress,
            g@.promotion_choice == PieceKind::Queen,
    {
        Game {
            board: Board::initial(),
            state: GameState::InProgress,
            promotion_choice: PieceKind::Queen,
        }
    }

    /// The current game status.
    pub fn get_game_state(&self) -> (st: GameState)
        ensures
            st == self@.state,
    {
        self.state
    }

    /// The current game status, under the boundary name.
    pub fn status(&self) -> (st: GameState)
        ensures
            st == self@.state,
    {
        self.state
    }

    /// The piece on a square, if any.
    pub fn get_piece(&self, sq: Square) -> (r: Option<Piece>)
        requires
            self.wf(),
            sq.wf(),
        ensures
            r == self@.board.at(sq.file as int, sq.rank as int),
    {
        self.board.piece_at(sq)
    }

    /// Applies one requested move, the sole mutator of a game. A terminal
    /// game, malformed square text, an empty source square, a piece of the
    /// idle color, or a candidate that no legal move matches are each
    /// rejected with their error and leave the game exactly as it was;
    /// otherwise the board advances as the move dictates and the new
    /// status is stored and returned.
    pub fn apply_move(&mut self, from: &str, to: &str, promotion: Option<PieceKind>) -> (r: Result<
        GameState,
        MoveError,
    >)
        requires
            old(self).wf(),
        ensures
            final(self).wf(),
            final(self)@ == step_model(old(self)@, from@, to@, promotion).0,
            r == step_model(old(self)@, from@, to@, promotion).1,
    {
        let terminal = match self.state {
            GameState::Checkmate => true,
            GameState::Stalemate => true,
            GameState::GameOver => true,
            _ => false,
        };
        if terminal {
            return Err(MoveError::GameAlreadyOver);
        }
        let fs = match pos_from_string(from) {
            Ok(sq) => sq,
            Err(_) => {
                return Err(MoveError::InvalidNotation);
            },
        };
        let ts = match pos_from_string(to) {
            Ok(sq) => sq,
            Err(_) => {
                return Err(MoveError::InvalidNotation);
            },
        };
        let p = match self.board.piece_at(fs) {
            Some(p) => p,
            None => {
                return Err(MoveError::NoPieceAtSource);
            },
        };
        if p.color != self.board.active {
            return Err(MoveError::WrongSideToMove);
        }
        let cand = build_candidate(&self.board, fs, ts, promotion);
        if is_pseudo_legal(&self.board, cand) {
            if is_legal(&self.board, cand) {
                let nb = board_after(&self.board, cand);
                self.board = nb;
                let st = classify(&self.board);
                self.state = st;
                proof {
                    assert(self@ == step_model(old(self)@, from@, to@, promotion).0);
                }
                return Ok(st);
            }
        }
        Err(MoveError::IllegalMove)
    }

    /// If the game is in progress and the move is legal, moves a piece and
    /// returns the resulting game status. A pawn arriving on its last rank
    /// promotes to the stored promotion choice.
    pub fn make_move(&mut self, from: String, to: String) -> (r: Result<GameState, MoveError>)
        requires
            old(self).wf(),
        ensures
            final(self).wf(),
            final(self)@ == step_model(
                old(self)@,
                from@,
                to@,
                make_move_promo(old(self)@, from@, to@),
            ).0,
            r == step_model(old(self)@, from@, to@, make_move_promo(old(self)@, from@, to@)).1,
    {
        let promo = match (pos_from_string(from.as_str()), pos_from_string(to.as_str())) {
            (Ok(fs), Ok(ts)) => match self.board.piece_at(fs) {
                Some(p) => {
                    let is_pawn = match p.kind {
                        PieceKind::Pawn => true,
                        _ => false,
                    };
                    let last: u8 = match p.color {
                        Color::White => 7,
                        Color::Black => 0,
                    };
                    if is_pawn && ts.rank == last {
                        Some(self.promotion_choice)
                    } else {
                        None
                    }
                },
                None => None,
            },
            _ => None,
        };
        self.apply_move(from.as_str(), to.as_str(), promo)
    }

    /// Sets the piece kind that a pawn becomes on promotion, named by the
    /// first letter of the given text (either case) out of queen, rook,
    /// bishop and knight; any other text leaves the choice unchanged.
    pub fn set_promotion(&mut self, piece: String)
        requires
            old(self).wf(),
        ensures
            final(self).wf(),
            final(self)@.board == old(self)@.board,
            final(self)@.state == old(self)@.state,
            final(self)@.promotion_choice == (match parsed_promotion(piece@) {
                Some(k) => k,
                None => old(self)@.promotion_choice,
            }),
    {
        let s = piece.as_str();
        if s.unicode_len() == 0 {
            return;
        }
        let c0 = s.get_char(0);
        let k = if c0 == 'q' || c0 == 'Q' {
            Some(PieceKind::Queen)
        } else if c0 == 'r' || c0 == 'R' {
            Some(PieceKind::Rook)
        } else if c0 == 'b' || c0 == 'B' {
            Some(PieceKind::Bishop)
        } else if c0 == 'n' || c0 == 'N' {
            Some(PieceKind::Knight)
        } else {
            None
        };
        if let Some(k) = k {
            self.promotion_choice = k;
        }
    }

    /// The destinations of all legal moves of the piece on the named
    /// square, as algebraic names without duplicates: exactly the squares
    /// some legal move from there reaches. Malformed text is
    /// `InvalidNotation`; an empty square is `NoPieceAtSource`; a piece
    /// with no legal move yields an empty list, which is not an error.
    pub fn legal_destinations(&self, position: &str) -> (r: Result<Vec<String>, MoveError>)
        requires
            self.wf(),
        ensures
            match parsed_square(position@) {
                None => r == Err::<Vec<String>, MoveError>(MoveError::InvalidNotation),
                Some(sq) => {
                    if self@.board.at(sq.file as int, sq.rank as int) is None {
                        r == Err::<Vec<String>, MoveError>(MoveError::NoPieceAtSource)
                    } else {
                        r matches Ok(v) && (forall|to: Square|
                            to.wf() ==> (has_legal_move_to(self@.board, sq, to)
                                <==> names_contain(v@, square_name(to)))) && (forall|i: int|
                            0 <= i < v@.len() ==> (parsed_square((#[trigger] v@[i])@) matches Some(
                                d,
                            ) && has_legal_move_to(self@.board, sq, d))) && (forall|i: int, j: int|
                            0 <= i < j < v@.len()
                                ==> (parsed_square((#[trigger] v@[i])@) matches Some(a)
                                && parsed_square((#[trigger] v@[j])@) matches Some(b)
                                && a.rank * 8 + a.file < b.rank * 8 + b.file))
                    }
                },
            },
    {
        let sq = match pos_from_string(position) {
            Ok(sq) => sq,
            Err(_) => {
                return Err(MoveError::InvalidNotation);
            },
        };
        if self.board.piece_at(sq).is_none() {
            return Err(MoveError::NoPieceAtSource);
        }
        let moves = legal_moves(&self.board, sq);
        let mut out: Vec<String> = Vec::new();
        let ghost mut dests: Seq<Square> = Seq::empty();
        let mut idx: u8 = 0;
        while idx < 64
            invariant
                self.wf(),
                sq.wf(),
                idx <= 64,
                forall|k: int|
                    0 <= k < moves@.len() ==> legal_move(self@.board, #[trigger] moves@[k])
                        && moves@[k].from == sq,
                forall|mv: Move|
                    legal_move(self@.board, mv) && mv.from == sq ==> moves@.contains(mv),
                dests.len() == out@.len(),
                forall|i: int|
                    0 <= i < dests.len() ==> (#[trigger] dests[i]).wf() && out@[i]@ == square_name(
                        dests[i],
                    ) && has_legal_move_to(self@.board, sq, dests[i]) && dests[i].rank as int * 8
                        + (dests[i].file as int) < (idx as int),
                forall|i: int, j: int|
                    0 <= i < j < dests.len() ==> dests[i].rank as int * 8 + (dests[i].file as int)
                        < dests[j].rank as int * 8 + dests[j].file as int,
                forall|to: Square|
                    to.wf() && to.rank as int * 8 + (to.file as int) < (idx as int)
                        && has_legal_move_to(self@.board, sq, to) ==> names_contain(
                        out@,
                        square_name(to),
                    ),
            decreases 64 - idx,
        {
            let to = Square { file: idx % 8, rank: idx / 8 };
            let mut found = false;
            let mut j: usize = 0;
            while j < moves.len()
                invariant
                    j <= moves@.len(),
                    forall|k: int|
                        0 <= k < moves@.len() ==> legal_move(self@.board, #[trigger] moves@[k])
                            && moves@[k].from == sq,
                    found ==> has_legal_move_to(self@.board, sq, to),
                    !found ==> forall|k: int|
                        0 <= k < j as int ==> (#[trigger] moves@[k]).to != to,
                decreases moves@.len() - j,
            {
                if moves[j].to == to {
                    found = true;
                }
                j += 1;
            }
            let ghost out0 = out@;
            if found {
                out.push(pos_to_string(to));
                proof {
                    dests = dests.push(to);
                    assert(out@[out@.len() - 1]@ == square_name(to));
                    assert forall|i: int| 0 <= i < out0.len() implies out@[i] == out0[i] by {}
                }
            } else {
                proof {
                    assert forall|to2: Square|
                        to2.wf() && to2.rank as int * 8 + (to2.file as int) < (idx as int) + 1
                            && has_legal_move_to(self@.board, sq, to2) implies names_contain(
                        out@,
                        square_name(to2),
                    ) by {
                        if to2.rank as int * 8 + to2.file as int == idx as int {
                            assert(to2 == to);
                            let mv = choose|mv: Move|
                                #[trigger] legal_move(self@.board, mv) && mv.from == sq && mv.to
                                    == to;
                            assert(moves@.contains(mv));
                            let k = choose|k: int| 0 <= k < moves@.len() && moves@[k] == mv;
                            assert(false);
                        }
                    }
                }
            }
            idx += 1;
        }
        proof {
            assert forall|to: Square|
                to.wf() && names_contain(out@, square_name(to)) implies has_legal_move_to(
                self@.board,
                sq,
                to,
            ) by {
                let i = choose|i: int| 0 <= i < out@.len() && out@[i]@ == square_name(to);
                lemma_square_name_injective(to, dests[i]);
            }
            assert forall|i: int| 0 <= i < out@.len() implies parsed_square(
                #[trigger] out@[i]@,
            ) == Some(dests[i]) by {
                lemma_square_name_roundtrip(dests[i]);
            }
        }
        Ok(out)
    }

    /// The destinations of all legal moves of the piece on the named
    /// square, as `legal_destinations` reports them.
    pub fn get_possible_moves(&self, position: String) -> (r: Result<Vec<String>, MoveError>)
        requires
            self.wf(),
        ensures
            match parsed_square(position@) {
                None => r == Err::<Vec<String>, MoveError>(MoveError::InvalidNotation),
                Some(sq) => {
                    if self@.board.at(sq.file as int, sq.rank as int) is None {
                        r == Err::<Vec<String>, MoveError>(MoveError::NoPieceAtSource)
                    } else {
                        r matches Ok(v) && (forall|to: Square|
                            to.wf() ==> (has_legal_move_to(self@.board, sq, to)
                                <==> names_contain(v@, square_name(to)))) && (forall|i: int|
                            0 <= i < v@.len() ==> (parsed_square((#[trigger] v@[i])@) matches Some(
                                d,
                            ) && has_legal_move_to(self@.board, sq, d))) && (forall|i: int, j: int|
                            0 <= i < j < v@.len()
                                ==> (parsed_square((#[trigger] v@[i])@) matches Some(a)
                                && parsed_square((#[trigger] v@[j])@) matches Some(b)
                                && a.rank * 8 + a.file < b.rank * 8 + b.file))
                    }
                },
            },
    {
        self.legal_destinations(position.as_str())
    }
}

/// The board-dump character of one square: the piece's chess glyph, or
/// an asterisk for an empty square.
pub open spec fn cell_char(m: BoardModel, f: int, r: int) -> char {
    match m.at(f, r) {
        Some(p) => piece_glyph(p),
        None => '*',
    }
}

/// The characters of one rank line from file `f` rightward: each cell's
/// character followed by a space.
pub open spec fn row_chars(m: BoardModel, r: int, f: int) -> Seq<char>
    decreases 8 - f,
{
    if f < 0 || f >= 8 {
        Seq::empty()
    } else {
        seq![cell_char(m, f, r), ' '] + row_chars(m, r, f + 1)
    }
}

/// The rank lines from rank `r` down to rank 0: each line is the rank
/// digit, a space, the eight cells, and a newline.
pub open spec fn rows_chars(m: BoardModel, r: int) -> Seq<char>
    decreases r + 1,
{
    if r < 0 {
        Seq::empty()
    } else {
        seq![rank_char(r), ' '] + row_chars(m, r, 0) + seq!['\n'] + rows_chars(m, r - 1)
    }
}

/// The file-label header line of the board dump.
pub open spec fn header_chars() -> Seq<char> {
    seq![' ', ' ', 'a', ' ', 'b', ' ', 'c', ' ', 'd', ' ', 'e', ' ', 'f', ' ', 'g', ' ', 'h', '\n']
}

/// The whole board dump: the header line, then the eight ranks from 8
/// down to 1.
pub open spec fn render_model(m: BoardModel) -> Seq<char> {
    header_chars() + rows_chars(m, 7)
}

impl Game {
    /// A human-readable board dump for diagnostics: a file-label header,
    /// then the ranks from 8 at the top down to 1, each rank labelled with
    /// its digit and showing each piece's chess glyph and an asterisk per
    /// empty square.
    pub fn render(&self) -> (r: String)
        requires
            self.wf(),
        ensures
            r@ == render_model(self@.board),
    {
        let ghost m = self@.board;
        let mut out = String::from_str("  a b c d e f g h\n");
        proof {
            reveal_strlit("  a b c d e f g h\n");
            assert(out@ =~= header_chars());
        }
        let mut rr: u8 = 8;
        while rr > 0
            invariant
                self.wf(),
                m == self@.board,
                rr <= 8,
                out@ + rows_chars(m, rr as int - 1) == render_model(m),
            decreases rr,
        {
            let rank = rr - 1;
            let ghost out_head = out@;
            out.append(crate::notation::rank_text(rank));
            out.append(" ");
            proof {
                reveal_strlit(" ");
                assert(out@ =~= out_head + seq![rank_char(rank as int), ' ']);
                assert(out@ + row_chars(m, rank as int, 0) + seq!['\n'] + rows_chars(
                    m,
                    rank as int - 1,
                ) =~= out_head + rows_chars(m, rank as int));
            }
            let mut f: u8 = 0;
            while f < 8
                invariant
                    self.wf(),
                    m == self@.board,
                    rank < 8,
                    rr == rank + 1,
                    f <= 8,
                    out@ + row_chars(m, rank as int, f as int) + seq!['\n'] + rows_chars(
                        m,
                        rank as int - 1,
                    ) == render_model(m),
                decreases 8 - f,
            {
                let here = self.board.piece_at_fr(f, rank);
                let cell: String = match here {
                    Some(q) => q.icon(),
                    None => {
                        proof {
                            reveal_strlit("*");
                        }
                        String::from_str("*")
                    },
                };
                let ghost out_mid = out@;
                out.append(cell.as_str());
                out.append(" ");
                proof {
                    reveal_strlit(" ");
                    assert(out@ =~= out_mid + seq![cell_char(m, f as int, rank as int), ' ']);
                    assert(out@ + row_chars(m, rank as int, f as int + 1) + seq!['\n']
                        + rows_chars(m, rank as int - 1) =~= out_mid + row_chars(
                        m,
                        rank as int,
                        f as int,
                    ) + seq!['\n'] + rows_chars(m, rank as int - 1));
                }
                f += 1;
            }
            let ghost out_line = out@;
            out.append("\n");
            proof {
                reveal_strlit("\n");
                assert(row_chars(m, rank as int, 8) =~= Seq::<char>::empty());
                assert(out@ =~= out_line + seq!['\n']);
                assert(out@ + rows_chars(m, rank as int - 1) =~= out_line + row_chars(
                    m,
                    rank as int,
                    8,
                ) + seq!['\n'] + rows_chars(m, rank as int - 1));
            }
            rr -= 1;
        }
        proof {
            assert(rows_chars(m, -1) =~= Seq::<char>::empty());
            assert(out@ =~= render_model(m));
        }
        out
    }
}

/// A fresh game in the standard starting position.
pub fn new_game() -> (g: Game)
    ensures
        g.wf(),
        g@.board == initial_model(),
        g@.state == GameState::InProgress,
        g@.promotion_choice == PieceKind::Queen,
{
    Game::new()
}

} // verus!
