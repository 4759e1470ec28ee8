//! Engine-wide laws, stated and proved against the same spec functions
//! that the public functions' contracts use: a rejected move request
//! changes nothing, an applied legal move never leaves the mover's own
//! king in check, a pawn reaching the last rank always carries a
//! promotion choice, and which of the four pieces it becomes never
//! affects legality.

use vstd::prelude::*;

use crate::attack::{
    attacks, bishop_line, in_check_model, king_at, king_step, open_falling_diag_between,
    open_file_between, open_rank_between, open_rising_diag_between, pawn_last_rank, rook_line,
    square_attacked_by,
};
use crate::board::{back_rank_kind, on_board, BoardModel};
use crate::game::{classify_model, exists_legal_move_for, step_model, step_squares, GameModel};
use crate::movegen::{
    apply_move_model, candidate_move, castle_side_ok, ep_shape, legal_move, mover_color,
    pseudo_legal,
};
use crate::types::{Color, GameState, Move, MoveError, Piece, PieceKind, Square};

verus! {

/// A move request that is rejected, with whatever error, leaves the game
/// exactly as it was: neither the board nor the status nor the promotion
/// choice moves.
pub proof fn lemma_rejected_move_changes_nothing(
    g: GameModel,
    from_text: Seq<char>,
    to_text: Seq<char>,
    promo: Option<PieceKind>,
)
    requires
        step_model(g, from_text, to_text, promo).1 is Err,
    ensures
        step_model(g, from_text, to_text, promo).0 == g,
{
}

/// Applying any legal move leaves the mover's own color out of check on
/// the resulting board: that is what the legality filter is for.
pub proof fn lemma_legal_move_keeps_king_safe(m: BoardModel, mv: Move, c: Color)
    requires
        legal_move(m, mv),
        mover_color(m, mv) == Some(c),
    ensures
        !in_check_model(apply_move_model(m, mv), c),
{
}

/// A pseudo-legal pawn move onto the pawn's last rank always carries a
/// promotion choice, and that choice is one of queen, rook, bishop or
/// knight: no move reaches the last rank with an empty promotion field.
pub proof fn lemma_promotion_required(m: BoardModel, mv: Move, c: Color)
    requires
        pseudo_legal(m, mv),
        m.at(mv.from.file as int, mv.from.rank as int) == Some(
            Piece { kind: PieceKind::Pawn, color: c },
        ),
        mv.to.rank as int == pawn_last_rank(c),
    ensures
        mv.promotion is Some,
        mv.promotion != Some(PieceKind::King),
        mv.promotion != Some(PieceKind::Pawn),
{
}

/// Two boards that hold pieces of the same colors on the same squares,
/// differing at most in the kind of one non-king piece of color `c`, agree
/// on whether `c` is in check: check depends on the opponent's pieces and
/// on which squares are occupied, never on the kind of the mover's own
/// non-king piece.
proof fn lemma_check_blind_to_own_kind(m1: BoardModel, m2: BoardModel, f0: int, r0: int, c: Color)
    requires
        on_board(f0, r0),
        forall|f: int, r: int| !(f == f0 && r == r0) ==> m1.at(f, r) == m2.at(f, r),
        m1.at(f0, r0) matches Some(p1) && p1.color == c && !(p1.kind is King),
        m2.at(f0, r0) matches Some(p2) && p2.color == c && !(p2.kind is King),
    ensures
        in_check_model(m1, c) == in_check_model(m2, c),
{
    assert forall|f: int, r: int| ((#[trigger] m1.at(f, r)) is None) == (m2.at(f, r) is None) by {
        if !(f == f0 && r == r0) {
            assert(m1.at(f, r) == m2.at(f, r));
        }
    }
    assert forall|f: int, r: int| ((#[trigger] m2.at(f, r)) is None) == (m1.at(f, r) is None) by {
        if !(f == f0 && r == r0) {
            assert(m1.at(f, r) == m2.at(f, r));
        }
    }
    assert forall|ff: int, fr: int, tf: int, tr: int|
        !(ff == f0 && fr == r0) implies (#[trigger] attacks(m1, ff, fr, tf, tr)) == attacks(
        m2,
        ff,
        fr,
        tf,
        tr,
    ) by {
        lemma_attacks_blind_to_occupant_kinds(m1, m2, ff, fr, tf, tr);
    }
    assert forall|f: int, r: int| (#[trigger] king_at(m1, c, f, r)) == king_at(m2, c, f, r) by {
        if !(f == f0 && r == r0) {
            assert(m1.at(f, r) == m2.at(f, r));
        }
    }
    let opp = c.spec_opposite();
    assert forall|tf: int, tr: int|
        (#[trigger] square_attacked_by(m1, opp, tf, tr)) == square_attacked_by(m2, opp, tf, tr) by {
        if square_attacked_by(m1, opp, tf, tr) {
            let (ff, fr) = choose|ff: int, fr: int|
                m1.color_at(ff, fr) == Some(opp) && #[trigger] attacks(m1, ff, fr, tf, tr);
            assert(!(ff == f0 && fr == r0));
            assert(m1.at(ff, fr) == m2.at(ff, fr));
            assert(attacks(m2, ff, fr, tf, tr));
        }
        if square_attacked_by(m2, opp, tf, tr) {
            let (ff, fr) = choose|ff: int, fr: int|
                m2.color_at(ff, fr) == Some(opp) && #[trigger] attacks(m2, ff, fr, tf, tr);
            assert(!(ff == f0 && fr == r0));
            assert(m1.at(ff, fr) == m2.at(ff, fr));
            assert(attacks(m1, ff, fr, tf, tr));
        }
    }
    if in_check_model(m1, c) {
        let (f, r) = choose|f: int, r: int|
            #[trigger] king_at(m1, c, f, r) && square_attacked_by(m1, opp, f, r);
        assert(king_at(m2, c, f, r) && square_attacked_by(m2, opp, f, r));
    }
    if in_check_model(m2, c) {
        let (f, r) = choose|f: int, r: int|
            #[trigger] king_at(m2, c, f, r) && square_attacked_by(m2, opp, f, r);
        assert(king_at(m1, c, f, r) && square_attacked_by(m1, opp, f, r));
    }
}

/// Whether one piece attacks a square is blind to the kinds of the other
/// occupants: on two boards with the same piece on the source square and
/// the same squares occupied, the attack relation agrees.
proof fn lemma_attacks_blind_to_occupant_kinds(
    m1: BoardModel,
    m2: BoardModel,
    ff: int,
    fr: int,
    tf: int,
    tr: int,
)
    requires
        m1.at(ff, fr) == m2.at(ff, fr),
        forall|f: int, r: int| ((#[trigger] m1.at(f, r)) is None) == (m2.at(f, r) is None),
    ensures
        attacks(m1, ff, fr, tf, tr) == attacks(m2, ff, fr, tf, tr),
{
    assert forall|r: int, f1: int, f2: int|
        (#[trigger] open_rank_between(m1, r, f1, f2)) == open_rank_between(m2, r, f1, f2) by {
        lemma_lines_blind(m1, m2, r, f1, f2);
    }
    assert forall|f: int, r1: int, r2: int|
        (#[trigger] open_file_between(m1, f, r1, r2)) == open_file_between(m2, f, r1, r2) by {
        lemma_lines_blind(m1, m2, f, r1, r2);
    }
    assert forall|a: int, b: int, t: int|
        (#[trigger] open_rising_diag_between(m1, a, b, t)) == open_rising_diag_between(
        m2,
        a,
        b,
        t,
    ) by {
        lemma_lines_blind(m1, m2, a, b, t);
    }
    assert forall|a: int, b: int, t: int|
        (#[trigger] open_falling_diag_between(m1, a, b, t)) == open_falling_diag_between(
        m2,
        a,
        b,
        t,
    ) by {
        lemma_lines_blind(m1, m2, a, b, t);
    }
}

/// All four kinds of open line agree on two boards with the same squares
/// occupied.
proof fn lemma_lines_blind(m1: BoardModel, m2: BoardModel, a: int, b: int, t: int)
    requires
        forall|f: int, r: int| ((#[trigger] m1.at(f, r)) is None) == (m2.at(f, r) is None),
    ensures
        open_rank_between(m1, a, b, t) == open_rank_between(m2, a, b, t),
        open_file_between(m1, a, b, t) == open_file_between(m2, a, b, t),
        open_rising_diag_between(m1, a, b, t) == open_rising_diag_between(m2, a, b, t),
        open_falling_diag_between(m1, a, b, t) == open_falling_diag_between(m2, a, b, t),
{
    if open_rank_between(m1, a, b, t) {
        assert forall|f: int| (b < f < t || t < f < b) implies (#[trigger] m2.at(f, a)) is None by {
            assert(m1.at(f, a) is None);
        }
    }
    if open_rank_between(m2, a, b, t) {
        assert forall|f: int| (b < f < t || t < f < b) implies (#[trigger] m1.at(f, a)) is None by {
            assert(m2.at(f, a) is None);
        }
    }
    if open_file_between(m1, a, b, t) {
        assert forall|r: int| (b < r < t || t < r < b) implies (#[trigger] m2.at(a, r)) is None by {
            assert(m1.at(a, r) is None);
        }
    }
    if open_file_between(m2, a, b, t) {
        assert forall|r: int| (b < r < t || t < r < b) implies (#[trigger] m1.at(a, r)) is None by {
            assert(m2.at(a, r) is None);
        }
    }
    if open_rising_diag_between(m1, a, b, t) {
        assert forall|f: int| (a < f < t || t < f < a) implies (#[trigger] m2.at(
            f,
            f - a + b,
        )) is None by {
            assert(m1.at(f, f - a + b) is None);
        }
    }
    if open_rising_diag_between(m2, a, b, t) {
        assert forall|f: int| (a < f < t || t < f < a) implies (#[trigger] m1.at(
            f,
            f - a + b,
        )) is None by {
            assert(m2.at(f, f - a + b) is None);
        }
    }
    if open_falling_diag_between(m1, a, b, t) {
        assert forall|f: int| (a < f < t || t < f < a) implies (#[trigger] m2.at(
            f,
            a + b - f,
        )) is None by {
            assert(m1.at(f, a + b - f) is None);
        }
    }
    if open_falling_diag_between(m2, a, b, t) {
        assert forall|f: int| (a < f < t || t < f < a) implies (#[trigger] m1.at(
            f,
            a + b - f,
        )) is None by {
            assert(m2.at(f, a + b - f) is None);
        }
    }
}

/// Which piece a pawn promotes to never decides legality: if a promotion
/// move is legal with one of the four choices, it is legal with each of
/// them. Together with `lemma_promotion_required` this makes a pawn
/// reaching the last rank yield exactly the four moves that differ only
/// in their promotion field.
pub proof fn lemma_promotion_choice_free(m: BoardModel, mv: Move, k: PieceKind)
    requires
        m.wf(),
        legal_move(m, mv),
        mv.promotion is Some,
        k == PieceKind::Queen || k == PieceKind::Rook || k == PieceKind::Bishop || k
            == PieceKind::Knight,
    ensures
        legal_move(m, Move { promotion: Some(k), ..mv }),
{
    let mv2 = Move { promotion: Some(k), ..mv };
    let ff = mv.from.file as int;
    let fr = mv.from.rank as int;
    let tf = mv.to.file as int;
    let tr = mv.to.rank as int;
    let p = m.at(ff, fr).unwrap();
    let c = p.color;
    assert(p.kind is Pawn);
    assert(p == (Piece { kind: PieceKind::Pawn, color: c }));
    lemma_promotion_required(m, mv, c);
    let k1 = mv.promotion.unwrap();
    assert(pseudo_legal(m, mv2));
    assert(!mv.is_en_passant && !mv.is_castle) by {
        if ep_shape(m, mv.from, mv.to) && mv.is_en_passant {
            assert(mv.promotion is None);
            assert(false);
        }
    }
    let m1 = apply_move_model(m, mv);
    let m2 = apply_move_model(m, mv2);
    let fidx = fr * 8 + ff;
    let tidx = tr * 8 + tf;
    assert(m1.grid == m.grid.update(fidx, None).update(tidx, Some(Piece { kind: k1, color: c })));
    assert(m2.grid == m.grid.update(fidx, None).update(tidx, Some(Piece { kind: k, color: c })));
    assert forall|f: int, r: int| !(f == tf && r == tr) implies m1.at(f, r) == m2.at(f, r) by {
        if on_board(f, r) {
            let i = r * 8 + f;
            assert(i != tidx);
            assert(m1.grid[i] == m2.grid[i]);
        }
    }
    assert(on_board(tf, tr));
    assert(m1.at(tf, tr) == Some(Piece { kind: k1, color: c }));
    assert(m2.at(tf, tr) == Some(Piece { kind: k, color: c }));
    lemma_check_blind_to_own_kind(m1, m2, tf, tr, c);
}

/// The board of the barred-castling scenario: both kings on their home
/// squares, White's king-side rook unmoved with the right still held, the
/// path between them empty, and a Black rook on f8 commanding the open
/// f-file.
pub open spec fn barred_castling_piece(f: int, r: int) -> Option<Piece> {
    if f == 4 && r == 0 {
        Some(Piece { kind: PieceKind::King, color: Color::White })
    } else if f == 7 && r == 0 {
        Some(Piece { kind: PieceKind::Rook, color: Color::White })
    } else if f == 4 && r == 7 {
        Some(Piece { kind: PieceKind::King, color: Color::Black })
    } else if f == 5 && r == 7 {
        Some(Piece { kind: PieceKind::Rook, color: Color::Black })
    } else {
        None
    }
}

/// The barred-castling scenario board, White to move.
pub open spec fn barred_castling_board() -> BoardModel {
    BoardModel {
        grid: Seq::new(64, |i: int| barred_castling_piece(i % 8, i / 8)),
        active: Color::White,
        castle_wk: true,
        castle_wq: false,
        castle_bk: false,
        castle_bq: false,
        en_passant: None,
        halfmove_clock: 0,
        fullmove_number: 1,
    }
}

/// Castling is illegal when the king's path crosses an attacked square,
/// even though king and rook have not moved and the path is empty: on the
/// scenario board the Black rook on f8 attacks f1, the square White's
/// king would cross, so the castling request from e1 to g1 is rejected as
/// an illegal move and the game is left exactly as it was.
pub proof fn lemma_castling_barred_through_attacked_square()
    ensures
        ({
            let g = GameModel {
                board: barred_castling_board(),
                state: GameState::InProgress,
                promotion_choice: PieceKind::Queen,
            };
            let e1 = Square { file: 4u8, rank: 0u8 };
            let g1 = Square { file: 6u8, rank: 0u8 };
            step_squares(g, e1, g1, None) == (
                g,
                Err::<GameState, MoveError>(MoveError::IllegalMove),
            )
        }),
{
    let m = barred_castling_board();
    let e1 = Square { file: 4u8, rank: 0u8 };
    let g1 = Square { file: 6u8, rank: 0u8 };
    assert(m.at(4, 0) == Some(Piece { kind: PieceKind::King, color: Color::White }));
    assert(m.at(5, 7) == Some(Piece { kind: PieceKind::Rook, color: Color::Black }));
    assert forall|r: int| 0 < r < 7 implies (#[trigger] m.at(5, r)) is None by {
        assert((r * 8 + 5) % 8 == 5 && (r * 8 + 5) / 8 == r);
    }
    assert(open_file_between(m, 5, 7, 0));
    assert(rook_line(m, 5, 7, 5, 0));
    assert(attacks(m, 5, 7, 5, 0));
    assert(square_attacked_by(m, Color::Black, 5, 0));
    assert(!castle_side_ok(m, Color::White, true));
    let cand = candidate_move(m, e1, g1, None);
    assert(!king_step(4, 0, 6, 0));
    assert(!pseudo_legal(m, cand));
    assert(!legal_move(m, cand));
}

/// The board of the stalemate scenario, after Black's queen has arrived
/// on b3: White's king alone on a1, the Black king on c2 and the Black
/// queen on b3, White to move.
pub open spec fn cornered_king_piece(f: int, r: int) -> Option<Piece> {
    if f == 0 && r == 0 {
        Some(Piece { kind: PieceKind::King, color: Color::White })
    } else if f == 2 && r == 1 {
        Some(Piece { kind: PieceKind::King, color: Color::Black })
    } else if f == 1 && r == 2 {
        Some(Piece { kind: PieceKind::Queen, color: Color::Black })
    } else {
        None
    }
}

/// The stalemate scenario board, White to move.
pub open spec fn cornered_king_board() -> BoardModel {
    BoardModel {
        grid: Seq::new(64, |i: int| cornered_king_piece(i % 8, i / 8)),
        active: Color::White,
        castle_wk: false,
        castle_wq: false,
        castle_bk: false,
        castle_bq: false,
        en_passant: None,
        halfmove_clock: 0,
        fullmove_number: 1,
    }
}

/// On the stalemate scenario board White's king is not in check, yet
/// every one of its steps lands on a square the Black queen or king
/// commands, so White has no legal move at all and the position
/// classifies as stalemate.
pub proof fn lemma_cornered_king_is_stalemate()
    ensures
        !in_check_model(cornered_king_board(), Color::White),
        !exists_legal_move_for(cornered_king_board(), Color::White),
        classify_model(cornered_king_board()) == GameState::Stalemate,
{
    let m = cornered_king_board();
    assert forall|f: int, r: int|
        #[trigger] m.at(f, r) == (if on_board(f, r) {
            cornered_king_piece(f, r)
        } else {
            None::<Piece>
        }) by {
        if on_board(f, r) {
            assert((r * 8 + f) % 8 == f && (r * 8 + f) / 8 == r);
        }
    }
    if in_check_model(m, Color::White) {
        let (f, r) = choose|f: int, r: int|
            #[trigger] king_at(m, Color::White, f, r) && square_attacked_by(
                m,
                Color::Black,
                f,
                r,
            );
        assert(f == 0 && r == 0);
        let (ff, fr) = choose|ff: int, fr: int|
            m.color_at(ff, fr) == Some(Color::Black) && #[trigger] attacks(m, ff, fr, 0, 0);
        assert((ff == 2 && fr == 1) || (ff == 1 && fr == 2));
        assert(!attacks(m, 2, 1, 0, 0));
        assert(!rook_line(m, 1, 2, 0, 0));
        assert(!bishop_line(m, 1, 2, 0, 0));
        assert(false);
    }
    if exists_legal_move_for(m, Color::White) {
        let mv = choose|mv: Move|
            #[trigger] legal_move(m, mv) && mover_color(m, mv) == Some(Color::White);
        assert(mv.from.file == 0 && mv.from.rank == 0);
        let tf = mv.to.file as int;
        let tr = mv.to.rank as int;
        assert(king_step(0, 0, tf, tr));
        assert((tf == 1 && tr == 0) || (tf == 0 && tr == 1) || (tf == 1 && tr == 1));
        assert(mv.promotion is None && !mv.is_en_passant && !mv.is_castle);
        let m2 = apply_move_model(m, mv);
        assert(m2.grid == m.grid.update(0, None).update(
            tr * 8 + tf,
            Some(Piece { kind: PieceKind::King, color: Color::White }),
        ));
        assert(m2.at(1, 2) == Some(Piece { kind: PieceKind::Queen, color: Color::Black }));
        assert(king_at(m2, Color::White, tf, tr));
        if tf == 1 && tr == 0 {
            assert(m2.at(1, 1) is None);
            assert(open_file_between(m2, 1, 2, 0));
            assert(attacks(m2, 1, 2, 1, 0));
        } else if tf == 0 && tr == 1 {
            assert(open_rising_diag_between(m2, 1, 2, 0));
            assert(bishop_line(m2, 1, 2, 0, 1));
            assert(attacks(m2, 1, 2, 0, 1));
        } else {
            assert(open_file_between(m2, 1, 2, 1));
            assert(attacks(m2, 1, 2, 1, 1));
        }
        assert(square_attacked_by(m2, Color::Black, tf, tr));
        assert(in_check_model(m2, Color::White));
        assert(false);
    }
}

/// The board of the fool's-mate scenario: the position after White has
/// pushed the f-pawn one step and the g-pawn two, Black has pushed the
/// e-pawn two, and the Black queen has swung out to h4. White to move.
pub open spec fn fools_mate_piece(f: int, r: int) -> Option<Piece> {
    if r == 0 {
        Some(Piece { kind: back_rank_kind(f), color: Color::White })
    } else if r == 1 {
        if f == 5 || f == 6 {
            None
        } else {
            Some(Piece { kind: PieceKind::Pawn, color: Color::White })
        }
    } else if f == 5 && r == 2 {
        Some(Piece { kind: PieceKind::Pawn, color: Color::White })
    } else if f == 6 && r == 3 {
        Some(Piece { kind: PieceKind::Pawn, color: Color::White })
    } else if f == 7 && r == 3 {
        Some(Piece { kind: PieceKind::Queen, color: Color::Black })
    } else if f == 4 && r == 4 {
        Some(Piece { kind: PieceKind::Pawn, color: Color::Black })
    } else if r == 6 {
        if f == 4 {
            None
        } else {
            Some(Piece { kind: PieceKind::Pawn, color: Color::Black })
        }
    } else if r == 7 {
        if f == 3 {
            None
        } else {
            Some(Piece { kind: back_rank_kind(f), color: Color::Black })
        }
    } else {
        None
    }
}

/// The fool's-mate scenario board, White to move.
pub open spec fn fools_mate_board() -> BoardModel {
    BoardModel {
        grid: Seq::new(64, |i: int| fools_mate_piece(i % 8, i / 8)),
        active: Color::White,
        castle_wk: true,
        castle_wq: true,
        castle_bk: true,
        castle_bq: true,
        en_passant: None,
        halfmove_clock: 1,
        fullmove_number: 3,
    }
}

/// On the fool's-mate board the Black queen on h4 checks White's king
/// along the open h4-e1 diagonal, no White move can block, capture her or
/// flee the check, and so the position classifies as checkmate: White's
/// set of legal moves over the whole board is empty.
#[verifier::rlimit(80)]
pub proof fn lemma_fools_mate_is_checkmate()
    ensures
        in_check_model(fools_mate_board(), Color::White),
        !exists_legal_move_for(fools_mate_board(), Color::White),
        classify_model(fools_mate_board()) == GameState::Checkmate,
{
    let m = fools_mate_board();
    assert forall|f: int, r: int|
        #[trigger] m.at(f, r) == (if on_board(f, r) {
            fools_mate_piece(f, r)
        } else {
            None::<Piece>
        }) by {
        if on_board(f, r) {
            assert((r * 8 + f) % 8 == f && (r * 8 + f) / 8 == r);
        }
    }
    assert(m.at(5, 1) is None && m.at(6, 2) is None);
    assert(open_rising_diag_between(m, 7, 3, 4));
    assert(bishop_line(m, 7, 3, 4, 0));
    assert(attacks(m, 7, 3, 4, 0));
    assert(king_at(m, Color::White, 4, 0));
    assert(square_attacked_by(m, Color::Black, 4, 0));
    assert(in_check_model(m, Color::White));
    if exists_legal_move_for(m, Color::White) {
        let mv = choose|mv: Move|
            #[trigger] legal_move(m, mv) && mover_color(m, mv) == Some(Color::White);
        let ff = mv.from.file as int;
        let fr = mv.from.rank as int;
        let tf = mv.to.file as int;
        let tr = mv.to.rank as int;
        let p = m.at(ff, fr).unwrap();
        assert(p.color == Color::White);
        assert(!mv.is_castle) by {
            if mv.is_castle {
                assert(m.at(5, 0) is Some);
                assert(m.at(1, 0) is Some);
                assert(false);
            }
        }
        assert(!mv.is_en_passant);
        if ff == 4 && fr == 0 {
            assert(tf == 5 && tr == 1) by {
                assert(king_step(4, 0, tf, tr));
                assert(m.color_at(3, 0) == Some(Color::White));
                assert(m.color_at(5, 0) == Some(Color::White));
                assert(m.color_at(3, 1) == Some(Color::White));
                assert(m.color_at(4, 1) == Some(Color::White));
            }
            let m2 = apply_move_model(m, mv);
            assert(m2.grid == m.grid.update(4, None).update(13, Some(p)));
            assert(m2.at(7, 3) == Some(Piece { kind: PieceKind::Queen, color: Color::Black }));
            assert(m2.at(6, 2) is None);
            assert(king_at(m2, Color::White, 5, 1));
            assert(open_rising_diag_between(m2, 7, 3, 5));
            assert(bishop_line(m2, 7, 3, 5, 1));
            assert(attacks(m2, 7, 3, 5, 1));
            assert(square_attacked_by(m2, Color::Black, 5, 1));
            assert(in_check_model(m2, Color::White));
            assert(false);
        } else {
            assert(!(tf == 4 && tr == 0));
            assert(!(tf == 7 && tr == 3)) by {
                if tf == 7 && tr == 3 {
                    assert(m.at(7, 1) is Some);
                    assert(m.at(7, 3) is Some);
                    assert(false);
                }
            }
            assert(!(tf == 5 && tr == 1)) by {
                if tf == 5 && tr == 1 {
                    assert(m.at(5, 1) is None);
                    assert(false);
                }
            }
            assert(!(tf == 6 && tr == 2)) by {
                if tf == 6 && tr == 2 {
                    assert(m.at(6, 2) is None);
                    assert(false);
                }
            }
            let m2 = apply_move_model(m, mv);
            assert(m2.at(4, 0) == Some(Piece { kind: PieceKind::King, color: Color::White }));
            assert(m2.at(7, 3) == Some(Piece { kind: PieceKind::Queen, color: Color::Black }));
            assert(m2.at(5, 1) is None && m2.at(6, 2) is None);
            assert(king_at(m2, Color::White, 4, 0));
            assert(open_rising_diag_between(m2, 7, 3, 4));
            assert(bishop_line(m2, 7, 3, 4, 0));
            assert(attacks(m2, 7, 3, 4, 0));
            assert(square_attacked_by(m2, Color::Black, 4, 0));
            assert(in_check_model(m2, Color::White));
            assert(false);
        }
    }
}

} // verus!
