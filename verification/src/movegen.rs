//! The move generator and move application: what counts as a pseudo-legal
//! move for each piece kind, how an applied move transforms the board
//! model, and the legality filter that simulates each candidate and
//! discards any move leaving the mover's own king in check.

use vstd::prelude::*;

use crate::attack::{
    bishop_line, in_check, in_check_model, king_step, knight_jump, pawn_attack_step, pawn_dir,
    pawn_last_rank, pawn_start_rank, rook_line, square_attacked, square_attacked_by,
};
use crate::board::{Board, BoardModel};
use crate::types::{Color, Move, Piece, PieceKind, Square};

verus! {

/// The rank a color's king starts on.
pub open spec fn king_home_rank(c: Color) -> int {
    if c is White {
        0
    } else {
        7
    }
}

/// Whether color `c` still holds the castling right toward the given
/// side.
pub open spec fn castle_rights_spec(m: BoardModel, c: Color, kingside: bool) -> bool {
    match c {
        Color::White => if kingside {
            m.castle_wk
        } else {
            m.castle_wq
        },
        Color::Black => if kingside {
            m.castle_bk
        } else {
            m.castle_bq
        },
    }
}

/// The saturating successor used for the move counters: they stop rather
/// than wrap at the top of their range.
pub open spec fn sat_inc(x: int) -> int {
    if x < 0xffff_ffff_ffff_ffff {
        x + 1
    } else {
        x
    }
}

/// The move from `from` to `to` has the shape of an en-passant capture: a
/// pawn of the side to move steps diagonally forward onto the current
/// en-passant target, which is empty, while the enemy pawn that just
/// double-stepped stands beside the mover on the destination file.
pub open spec fn ep_shape(m: BoardModel, from: Square, to: Square) -> bool {
    match m.at(from.file as int, from.rank as int) {
        Some(p) => {
            &&& p.kind is Pawn
            &&& pawn_attack_step(
                p.color,
                from.file as int,
                from.rank as int,
                to.file as int,
                to.rank as int,
            )
            &&& m.en_passant == Some(to)
            &&& m.at(to.file as int, to.rank as int) is None
            &&& m.at(to.file as int, from.rank as int) == Some(
                Piece { kind: PieceKind::Pawn, color: p.color.spec_opposite() },
            )
            &&& p.color == m.active
        },
        None => false,
    }
}

/// The move from `from` to `to` has the shape of castling: a king moving
/// two files sideways out of its home square.
pub open spec fn castle_shape(m: BoardModel, from: Square, to: Square) -> bool {
    match m.at(from.file as int, from.rank as int) {
        Some(p) => {
            &&& p.kind is King
            &&& from.file == 4
            &&& from.rank as int == king_home_rank(p.color)
            &&& to.rank == from.rank
            &&& (to.file == 6 || to.file == 2)
        },
        None => false,
    }
}

/// The move a caller's (from, to, promotion) choice names on this board:
/// the three flags are derived from the position, never supplied by the
/// caller. Every pseudo-legal move equals the candidate built from its own
/// squares and promotion choice.
pub open spec fn candidate_move(
    m: BoardModel,
    from: Square,
    to: Square,
    promo: Option<PieceKind>,
) -> Move {
    Move {
        from,
        to,
        promotion: promo,
        is_capture: m.at(to.file as int, to.rank as int) is Some || ep_shape(m, from, to),
        is_castle: castle_shape(m, from, to),
        is_en_passant: ep_shape(m, from, to),
    }
}

/// The flags of an ordinary (non-castle, non-en-passant) move: it
/// captures exactly when the destination is occupied.
pub open spec fn normal_flags(m: BoardModel, mv: Move) -> bool {
    &&& !mv.is_castle
    &&& !mv.is_en_passant
    &&& mv.is_capture == (m.at(mv.to.file as int, mv.to.rank as int) is Some)
}

/// All side conditions of castling toward one side for color `c`: the
/// right is still held, king and rook stand on their home squares, the
/// squares between them are empty, and neither the king's square nor the
/// two squares it crosses (destination included) is attacked by the
/// opponent.
pub open spec fn castle_side_ok(m: BoardModel, c: Color, kingside: bool) -> bool {
    let home = king_home_rank(c);
    let opp = c.spec_opposite();
    &&& castle_rights_spec(m, c, kingside)
    &&& m.at(4, home) == Some(Piece { kind: PieceKind::King, color: c })
    &&& if kingside {
        &&& m.at(7, home) == Some(Piece { kind: PieceKind::Rook, color: c })
        &&& m.at(5, home) is None
        &&& m.at(6, home) is None
        &&& !square_attacked_by(m, opp, 4, home)
        &&& !square_attacked_by(m, opp, 5, home)
        &&& !square_attacked_by(m, opp, 6, home)
    } else {
        &&& m.at(0, home) == Some(Piece { kind: PieceKind::Rook, color: c })
        &&& m.at(1, home) is None
        &&& m.at(2, home) is None
        &&& m.at(3, home) is None
        &&& !square_attacked_by(m, opp, 4, home)
        &&& !square_attacked_by(m, opp, 3, home)
        &&& !square_attacked_by(m, opp, 2, home)
    }
}

/// A pseudo-legal castling move of color `c`.
pub open spec fn castle_move_ok(m: BoardModel, mv: Move, c: Color) -> bool {
    let home = king_home_rank(c);
    &&& mv.from.file == 4
    &&& mv.from.rank as int == home
    &&& mv.to.rank as int == home
    &&& ((mv.to.file == 6 && castle_side_ok(m, c, true)) || (mv.to.file == 2 && castle_side_ok(
        m,
        c,
        false,
    )))
    &&& mv.is_castle
    &&& !mv.is_capture
    &&& !mv.is_en_passant
    &&& mv.promotion is None
}

/// The promotion field is exactly right for a pawn move of color `c`:
/// filled with one of queen, rook, bishop or knight when the move reaches
/// the last rank, empty otherwise.
pub open spec fn pawn_promo_ok(mv: Move, c: Color) -> bool {
    if mv.to.rank as int == pawn_last_rank(c) {
        match mv.promotion {
            Some(k) => k != PieceKind::King && k != PieceKind::Pawn,
            None => false,
        }
    } else {
        mv.promotion is None
    }
}

/// A pseudo-legal pawn move of color `c`: a single step forward onto an
/// empty square, a double step from the start rank across an empty square,
/// a diagonal capture of an enemy piece, or an en-passant capture; each
/// with the promotion rule applied.
pub open spec fn pawn_move_ok(m: BoardModel, mv: Move, c: Color) -> bool {
    let ff = mv.from.file as int;
    let fr = mv.from.rank as int;
    let tf = mv.to.file as int;
    let tr = mv.to.rank as int;
    let d = pawn_dir(c);
    &&& pawn_promo_ok(mv, c)
    &&& {
        ||| (tf == ff && tr == fr + d && m.at(tf, tr) is None && normal_flags(m, mv))
        ||| (tf == ff && fr == pawn_start_rank(c) && tr == fr + d + d && m.at(ff, fr + d) is None
            && m.at(tf, tr) is None && normal_flags(m, mv))
        ||| (pawn_attack_step(c, ff, fr, tf, tr) && (m.at(tf, tr) matches Some(q) && q.color
            == c.spec_opposite()) && normal_flags(m, mv))
        ||| (ep_shape(m, mv.from, mv.to) && mv.is_en_passant && mv.is_capture && !mv.is_castle
            && mv.promotion is None)
    }
}

/// A pseudo-legal move: consistent with the moving piece's movement
/// pattern and the board occupancy, with correctly derived flags and
/// promotion field, but with no regard to whether it exposes the mover's
/// own king to check.
pub open spec fn pseudo_legal(m: BoardModel, mv: Move) -> bool {
    &&& mv.from.wf()
    &&& mv.to.wf()
    &&& match m.at(mv.from.file as int, mv.from.rank as int) {
        None => false,
        Some(p) => {
            let c = p.color;
            let ff = mv.from.file as int;
            let fr = mv.from.rank as int;
            let tf = mv.to.file as int;
            let tr = mv.to.rank as int;
            &&& m.color_at(tf, tr) != Some(c)
            &&& match p.kind {
                PieceKind::King => king_step(ff, fr, tf, tr) && normal_flags(m, mv)
                    && mv.promotion is None || castle_move_ok(m, mv, c),
                PieceKind::Queen => (rook_line(m, ff, fr, tf, tr) || bishop_line(
                    m,
                    ff,
                    fr,
                    tf,
                    tr,
                )) && normal_flags(m, mv) && mv.promotion is None,
                PieceKind::Rook => rook_line(m, ff, fr, tf, tr) && normal_flags(m, mv)
                    && mv.promotion is None,
                PieceKind::Bishop => bishop_line(m, ff, fr, tf, tr) && normal_flags(m, mv)
                    && mv.promotion is None,
                PieceKind::Knight => knight_jump(ff, fr, tf, tr) && normal_flags(m, mv)
                    && mv.promotion is None,
                PieceKind::Pawn => pawn_move_ok(m, mv, c),
            }
        },
    }
}

/// The color of the piece a move picks up, if any.
pub open spec fn mover_color(m: BoardModel, mv: Move) -> Option<Color> {
    m.color_at(mv.from.file as int, mv.from.rank as int)
}

/// The board a move leaves behind: the piece is relocated (promoted if the
/// move says so), the captured piece disappears (the en-passant victim
/// from its own square), the rook crosses the king on castling, castling
/// rights lapse when king or rook moves or a rook's home square is
/// touched, the en-passant target is set only by a double pawn step, the
/// half-move clock resets on pawn moves and captures, and the full-move
/// number grows after Black's move. The side to move flips.
pub open spec fn apply_move_model(m: BoardModel, mv: Move) -> BoardModel {
    match m.at(mv.from.file as int, mv.from.rank as int) {
        None => m,
        Some(p) => {
            let c = p.color;
            let ff = mv.from.file as int;
            let fr = mv.from.rank as int;
            let tf = mv.to.file as int;
            let tr = mv.to.rank as int;
            let placed = match mv.promotion {
                Some(k) => Piece { kind: k, color: c },
                None => p,
            };
            let g1 = m.grid.update(fr * 8 + ff, None).update(tr * 8 + tf, Some(placed));
            let g2 = if mv.is_en_passant {
                g1.update(fr * 8 + tf, None)
            } else {
                g1
            };
            let g3 = if mv.is_castle && tf == 6 {
                g2.update(fr * 8 + 7, None).update(
                    fr * 8 + 5,
                    Some(Piece { kind: PieceKind::Rook, color: c }),
                )
            } else if mv.is_castle && tf == 2 {
                g2.update(fr * 8 + 0, None).update(
                    fr * 8 + 3,
                    Some(Piece { kind: PieceKind::Rook, color: c }),
                )
            } else {
                g2
            };
            BoardModel {
                grid: g3,
                active: c.spec_opposite(),
                castle_wk: m.castle_wk && !(c is White && p.kind is King) && !(ff == 7 && fr == 0)
                    && !(tf == 7 && tr == 0),
                castle_wq: m.castle_wq && !(c is White && p.kind is King) && !(ff == 0 && fr == 0)
                    && !(tf == 0 && tr == 0),
                castle_bk: m.castle_bk && !(c is Black && p.kind is King) && !(ff == 7 && fr == 7)
                    && !(tf == 7 && tr == 7),
                castle_bq: m.castle_bq && !(c is Black && p.kind is King) && !(ff == 0 && fr == 7)
                    && !(tf == 0 && tr == 7),
                en_passant: if p.kind is Pawn && (tr == fr + 2 || tr == fr - 2) {
                    Some(Square { file: mv.from.file, rank: ((fr + tr) / 2) as u8 })
                } else {
                    None
                },
                halfmove_clock: if p.kind is Pawn || mv.is_capture {
                    0
                } else {
                    sat_inc(m.halfmove_clock)
                },
                fullmove_number: if c is Black {
                    sat_inc(m.fullmove_number)
                } else {
                    m.fullmove_number
                },
            }
        },
    }
}

/// A legal move: pseudo-legal, and the board it leaves behind does not
/// have the mover's own king in check. This single rule subsumes "cannot
/// move into check", "cannot move a pinned piece" and "cannot castle
/// through or into check".
pub open spec fn legal_move(m: BoardModel, mv: Move) -> bool {
    &&& pseudo_legal(m, mv)
    &&& match m.at(mv.from.file as int, mv.from.rank as int) {
        Some(p) => !in_check_model(apply_move_model(m, mv), p.color),
        None => false,
    }
}

/// Any pseudo-legal move is exactly the candidate built from its own
/// squares and promotion choice: the flags of a move are a function of
/// the board and the squares, so a caller naming (from, to, promotion)
/// names at most one pseudo-legal move.
pub proof fn lemma_pseudo_move_flags(m: BoardModel, mv: Move)
    requires
        pseudo_legal(m, mv),
    ensures
        mv == candidate_move(m, mv.from, mv.to, mv.promotion),
{
}

/// A pseudo-legal move's promotion field is empty or holds one of the
/// four pieces a pawn may become.
pub proof fn lemma_pseudo_promotion_kinds(m: BoardModel, mv: Move)
    requires
        pseudo_legal(m, mv),
    ensures
        mv.promotion is None || mv.promotion == Some(PieceKind::Queen) || mv.promotion == Some(
            PieceKind::Rook,
        ) || mv.promotion == Some(PieceKind::Bishop) || mv.promotion == Some(PieceKind::Knight),
{
}

/// Decides `ep_shape`.
fn ep_shape_here(b: &Board, from: Square, to: Square) -> (res: bool)
    requires
        b.wf(),
        from.wf(),
        to.wf(),
    ensures
        res == ep_shape(b@, from, to),
{
    let p = match b.piece_at(from) {
        None => {
            return false;
        },
        Some(p) => p,
    };
    let is_pawn = match p.kind {
        PieceKind::Pawn => true,
        _ => false,
    };
    if !is_pawn {
        return false;
    }
    let dfi = to.file as i16 - from.file as i16;
    let dri = to.rank as i16 - from.rank as i16;
    let d: i16 = match p.color {
        Color::White => 1,
        Color::Black => -1,
    };
    if !((dfi == 1 || dfi == -1) && dri == d) {
        return false;
    }
    let ep_match = match b.en_passant {
        Some(sq) => sq == to,
        None => false,
    };
    if !ep_match {
        return false;
    }
    if b.piece_at(to).is_some() {
        return false;
    }
    let victim_ok = match b.piece_at_fr(to.file, from.rank) {
        Some(q) => q == (Piece { kind: PieceKind::Pawn, color: p.color.opposite() }),
        None => false,
    };
    if !victim_ok {
        return false;
    }
    p.color == b.active
}

/// Decides `castle_shape`.
fn castle_shape_here(b: &Board, from: Square, to: Square) -> (res: bool)
    requires
        b.wf(),
        from.wf(),
        to.wf(),
    ensures
        res == castle_shape(b@, from, to),
{
    let p = match b.piece_at(from) {
        None => {
            return false;
        },
        Some(p) => p,
    };
    let is_king = match p.kind {
        PieceKind::King => true,
        _ => false,
    };
    let home: u8 = match p.color {
        Color::White => 0,
        Color::Black => 7,
    };
    is_king && from.file == 4 && from.rank == home && to.rank == from.rank && (to.file == 6
        || to.file == 2)
}

/// Builds the move that a (from, to, promotion) choice names on this
/// board, deriving the capture, castle and en-passant flags from the
/// position.
pub fn build_candidate(b: &Board, from: Square, to: Square, promo: Option<PieceKind>) -> (mv: Move)
    requires
        b.wf(),
        from.wf(),
        to.wf(),
    ensures
        mv == candidate_move(b@, from, to, promo),
{
    let ep = ep_shape_here(b, from, to);
    let cas = castle_shape_here(b, from, to);
    let cap = b.piece_at(to).is_some() || ep;
    Move { from, to, promotion: promo, is_capture: cap, is_castle: cas, is_en_passant: ep }
}

/// Decides `castle_side_ok`.
fn castle_side_allowed(b: &Board, c: Color, kingside: bool) -> (res: bool)
    requires
        b.wf(),
    ensures
        res == castle_side_ok(b@, c, kingside),
{
    let home: u8 = match c {
        Color::White => 0,
        Color::Black => 7,
    };
    let right = match c {
        Color::White => if kingside {
            b.castle_wk
        } else {
            b.castle_wq
        },
        Color::Black => if kingside {
            b.castle_bk
        } else {
            b.castle_bq
        },
    };
    if !right {
        return false;
    }
    let king_home = match b.piece_at_fr(4, home) {
        Some(p) => p == (Piece { kind: PieceKind::King, color: c }),
        None => false,
    };
    if !king_home {
        return false;
    }
    let opp = c.opposite();
    if kingside {
        let rook_home = match b.piece_at_fr(7, home) {
            Some(p) => p == (Piece { kind: PieceKind::Rook, color: c }),
            None => false,
        };
        rook_home && b.piece_at_fr(5, home).is_none() && b.piece_at_fr(6, home).is_none()
            && !square_attacked(b, opp, 4, home) && !square_attacked(b, opp, 5, home)
            && !square_attacked(b, opp, 6, home)
    } else {
        let rook_home = match b.piece_at_fr(0, home) {
            Some(p) => p == (Piece { kind: PieceKind::Rook, color: c }),
            None => false,
        };
        rook_home && b.piece_at_fr(1, home).is_none() && b.piece_at_fr(2, home).is_none()
            && b.piece_at_fr(3, home).is_none() && !square_attacked(b, opp, 4, home)
            && !square_attacked(b, opp, 3, home) && !square_attacked(b, opp, 2, home)
    }
}

/// Decides whether a move is pseudo-legal on this board, mirroring the
/// `pseudo_legal` predicate exactly.
pub fn is_pseudo_legal(b: &Board, mv: Move) -> (res: bool)
    requires
        b.wf(),
    ensures
        res == pseudo_legal(b@, mv),
{
    if !(mv.from.file < 8 && mv.from.rank < 8 && mv.to.file < 8 && mv.to.rank < 8) {
        return false;
    }
    let p = match b.piece_at(mv.from) {
        None => {
            return false;
        },
        Some(p) => p,
    };
    let c = p.color;
    let own_dest = match b.piece_at(mv.to) {
        Some(q) => q.color == c,
        None => false,
    };
    if own_dest {
        return false;
    }
    let dfi = mv.to.file as i16 - mv.from.file as i16;
    let dri = mv.to.rank as i16 - mv.from.rank as i16;
    let dest_occupied = b.piece_at(mv.to).is_some();
    let normal = !mv.is_castle && !mv.is_en_passant && mv.is_capture == dest_occupied;
    match p.kind {
        PieceKind::King => {
            let step_ok = (-1 <= dfi && dfi <= 1) && (-1 <= dri && dri <= 1) && !(dfi == 0 && dri
                == 0);
            if step_ok && normal && mv.promotion.is_none() {
                return true;
            }
            let home: u8 = match c {
                Color::White => 0,
                Color::Black => 7,
            };
            let castle_fields = mv.from.file == 4 && mv.from.rank == home && mv.to.rank == home
                && mv.is_castle && !mv.is_capture && !mv.is_en_passant && mv.promotion.is_none();
            if !castle_fields {
                return false;
            }
            if mv.to.file == 6 {
                castle_side_allowed(b, c, true)
            } else if mv.to.file == 2 {
                castle_side_allowed(b, c, false)
            } else {
                false
            }
        },
        PieceKind::Queen => (crate::attack::rook_reaches(
            b,
            mv.from.file,
            mv.from.rank,
            mv.to.file,
            mv.to.rank,
        ) || crate::attack::bishop_reaches(b, mv.from.file, mv.from.rank, mv.to.file, mv.to.rank))
            && normal && mv.promotion.is_none(),
        PieceKind::Rook => crate::attack::rook_reaches(
            b,
            mv.from.file,
            mv.from.rank,
            mv.to.file,
            mv.to.rank,
        ) && normal && mv.promotion.is_none(),
        PieceKind::Bishop => crate::attack::bishop_reaches(
            b,
            mv.from.file,
            mv.from.rank,
            mv.to.file,
            mv.to.rank,
        ) && normal && mv.promotion.is_none(),
        PieceKind::Knight => {
            let jump_ok = ((dfi == 1 || dfi == -1) && (dri == 2 || dri == -2)) || ((dfi == 2 || dfi
                == -2) && (dri == 1 || dri == -1));
            jump_ok && normal && mv.promotion.is_none()
        },
        PieceKind::Pawn => {
            let d: i16 = match c {
                Color::White => 1,
                Color::Black => -1,
            };
            let last: u8 = match c {
                Color::White => 7,
                Color::Black => 0,
            };
            let promo_ok = if mv.to.rank == last {
                match mv.promotion {
                    Some(k) => {
                        let bad = match k {
                            PieceKind::King => true,
                            PieceKind::Pawn => true,
                            _ => false,
                        };
                        !bad
                    },
                    None => false,
                }
            } else {
                mv.promotion.is_none()
            };
            if !promo_ok {
                return false;
            }
            let start: u8 = match c {
                Color::White => 1,
                Color::Black => 6,
            };
            let single = dfi == 0 && dri == d && !dest_occupied && normal;
            if single {
                return true;
            }
            let mid_clear = if mv.from.rank == start {
                let midr: u8 = if start == 1 {
                    2
                } else {
                    5
                };
                b.piece_at_fr(mv.from.file, midr).is_none()
            } else {
                false
            };
            let double = dfi == 0 && mv.from.rank == start && dri == d + d && mid_clear
                && !dest_occupied && normal;
            if double {
                proof {
                    assert(b@.at(
                        mv.from.file as int,
                        mv.from.rank as int + pawn_dir(c),
                    ) is None);
                }
                return true;
            }
            let diag = (dfi == 1 || dfi == -1) && dri == d;
            let enemy_dest = match b.piece_at(mv.to) {
                Some(q) => q.color == c.opposite(),
                None => false,
            };
            if diag && enemy_dest && normal {
                return true;
            }
            ep_shape_here(b, mv.from, mv.to) && mv.is_en_passant && mv.is_capture && !mv.is_castle
                && mv.promotion.is_none()
        },
    }
}

/// Applies a pseudo-legal move to a copy of the board and returns the
/// resulting position, exactly as `apply_move_model` describes it.
pub fn board_after(b: &Board, mv: Move) -> (r: Board)
    requires
        b.wf(),
        pseudo_legal(b@, mv),
    ensures
        r.wf(),
        r@ == apply_move_model(b@, mv),
{
    let mut nb = b.duplicate();
    let p = b.piece_at(mv.from).unwrap();
    let c = p.color;
    let placed = match mv.promotion {
        Some(k) => Piece { kind: k, color: c },
        None => p,
    };
    nb.remove(mv.from);
    nb.place(mv.to, placed);
    if mv.is_en_passant {
        nb.remove(Square { file: mv.to.file, rank: mv.from.rank });
    }
    if mv.is_castle {
        if mv.to.file == 6 {
            nb.move_piece(
                Square { file: 7, rank: mv.from.rank },
                Square { file: 5, rank: mv.from.rank },
            );
        } else {
            nb.move_piece(
                Square { file: 0, rank: mv.from.rank },
                Square { file: 3, rank: mv.from.rank },
            );
        }
    }
    let white_king = match (c, p.kind) {
        (Color::White, PieceKind::King) => true,
        _ => false,
    };
    let black_king = match (c, p.kind) {
        (Color::Black, PieceKind::King) => true,
        _ => false,
    };
    nb.castle_wk = b.castle_wk && !white_king && !(mv.from.file == 7 && mv.from.rank == 0) && !(
    mv.to.file == 7 && mv.to.rank == 0);
    nb.castle_wq = b.castle_wq && !white_king && !(mv.from.file == 0 && mv.from.rank == 0) && !(
    mv.to.file == 0 && mv.to.rank == 0);
    nb.castle_bk = b.castle_bk && !black_king && !(mv.from.file == 7 && mv.from.rank == 7) && !(
    mv.to.file == 7 && mv.to.rank == 7);
    nb.castle_bq = b.castle_bq && !black_king && !(mv.from.file == 0 && mv.from.rank == 7) && !(
    mv.to.file == 0 && mv.to.rank == 7);
    nb.active = c.opposite();
    let is_pawn = match p.kind {
        PieceKind::Pawn => true,
        _ => false,
    };
    let double_step = mv.to.rank == mv.from.rank + 2 || mv.from.rank == mv.to.rank + 2;
    nb.en_passant = if is_pawn && double_step {
        Some(Square { file: mv.from.file, rank: (mv.from.rank + mv.to.rank) / 2 })
    } else {
        None
    };
    nb.halfmove_clock = if is_pawn || mv.is_capture {
        0
    } else if b.halfmove_clock < u64::MAX {
        b.halfmove_clock + 1
    } else {
        b.halfmove_clock
    };
    nb.fullmove_number = if c == Color::Black {
        if b.fullmove_number < u64::MAX {
            b.fullmove_number + 1
        } else {
            b.fullmove_number
        }
    } else {
        b.fullmove_number
    };
    proof {
        assert(nb@.grid =~= apply_move_model(b@, mv).grid);
        assert(nb@ =~= apply_move_model(b@, mv));
    }
    nb
}

/// Decides whether a pseudo-legal move is legal by simulating it on a
/// scratch copy of the board and checking the mover's king afterward.
pub fn is_legal(b: &Board, mv: Move) -> (res: bool)
    requires
        b.wf(),
        pseudo_legal(b@, mv),
    ensures
        res == legal_move(b@, mv),
{
    let p = b.piece_at(mv.from).unwrap();
    let nb = board_after(b, mv);
    !in_check(&nb, p.color)
}

/// The place of a promotion choice in the generation order: no promotion
/// first, then queen, rook, bishop, knight.
pub open spec fn promo_rank(p: Option<PieceKind>) -> int {
    match p {
        None => 0,
        Some(PieceKind::Queen) => 1,
        Some(PieceKind::Rook) => 2,
        Some(PieceKind::Bishop) => 3,
        Some(PieceKind::Knight) => 4,
        Some(_) => 0,
    }
}

/// The place of a move in the generation order: destinations square by
/// square up the board, and the promotion choices of one destination in
/// their fixed order. Distinct generated moves have distinct keys.
pub open spec fn move_key(mv: Move) -> int {
    (mv.to.rank as int * 8 + mv.to.file as int) * 5 + promo_rank(mv.promotion)
}

/// Tests the move that (from, to, promo) names and pushes it when it is
/// pseudo-legal; afterward `out` holds exactly the pseudo-legal moves it
/// held before plus every pseudo-legal move with these squares and this
/// promotion choice.
fn push_if_pseudo(b: &Board, from: Square, to: Square, promo: Option<PieceKind>, out: &mut Vec<Move>)
    requires
        b.wf(),
        from.wf(),
        to.wf(),
    ensures
        old(out)@.len() <= final(out)@.len() <= old(out)@.len() + 1,
        forall|i: int| 0 <= i < old(out)@.len() ==> final(out)@[i] == old(out)@[i],
        forall|i: int|
            old(out)@.len() <= i < final(out)@.len() ==> pseudo_legal(b@, #[trigger] final(out)@[i])
                && final(out)@[i].from == from && final(out)@[i].to == to
                && final(out)@[i].promotion == promo,
        forall|mv: Move|
            pseudo_legal(b@, mv) && mv.from == from && mv.to == to && mv.promotion == promo
                ==> final(out)@.contains(mv),
{
    let ghost out0 = out@;
    let cand = build_candidate(b, from, to, promo);
    if is_pseudo_legal(b, cand) {
        out.push(cand);
        proof {
            assert(out@[out@.len() - 1] == cand);
            assert forall|mv: Move|
                pseudo_legal(b@, mv) && mv.from == from && mv.to == to && mv.promotion
                    == promo implies out@.contains(mv) by {
                lemma_pseudo_move_flags(b@, mv);
                assert(mv == cand);
            }
        }
    } else {
        proof {
            assert forall|mv: Move|
                pseudo_legal(b@, mv) && mv.from == from && mv.to == to && mv.promotion
                    == promo implies out@.contains(mv) by {
                lemma_pseudo_move_flags(b@, mv);
                assert(mv == cand);
                assert(false);
            }
        }
    }
}

/// All pseudo-legal moves of the piece on `from`, one `Move` per legal
/// (destination, promotion) choice; a pawn reaching the last rank yields
/// one move per promotion piece. The result is exactly the set of
/// pseudo-legal moves out of `from`, without duplicates.
pub fn pseudo_legal_moves(b: &Board, from: Square) -> (res: Vec<Move>)
    requires
        b.wf(),
        from.wf(),
    ensures
        forall|i: int|
            0 <= i < res@.len() ==> pseudo_legal(b@, #[trigger] res@[i]) && res@[i].from == from,
        forall|mv: Move| pseudo_legal(b@, mv) && mv.from == from ==> res@.contains(mv),
        forall|i: int, j: int|
            0 <= i < j < res@.len() ==> move_key(res@[i]) < move_key(res@[j]),
        forall|i: int, j: int| 0 <= i < j < res@.len() ==> res@[i] != res@[j],
{
    let mut res: Vec<Move> = Vec::new();
    let mut idx: u8 = 0;
    while idx < 64
        invariant
            b.wf(),
            from.wf(),
            idx <= 64,
            forall|i: int|
                0 <= i < res@.len() ==> pseudo_legal(b@, #[trigger] res@[i]) && res@[i].from
                    == from,
            forall|mv: Move|
                pseudo_legal(b@, mv) && mv.from == from && mv.to.rank as int * 8
                    + (mv.to.file as int) < (idx as int) ==> res@.contains(mv),
            forall|i: int, j: int|
                0 <= i < j < res@.len() ==> move_key(res@[i]) < move_key(res@[j]),
            forall|i: int| 0 <= i < res@.len() ==> move_key(#[trigger] res@[i]) < (idx as int) * 5,
        decreases 64 - idx,
    {
        let to = Square { file: idx % 8, rank: idx / 8 };
        let ghost s0 = res@;
        push_if_pseudo(b, from, to, None, &mut res);
        let ghost s1 = res@;
        push_if_pseudo(b, from, to, Some(PieceKind::Queen), &mut res);
        let ghost s2 = res@;
        push_if_pseudo(b, from, to, Some(PieceKind::Rook), &mut res);
        let ghost s3 = res@;
        push_if_pseudo(b, from, to, Some(PieceKind::Bishop), &mut res);
        let ghost s4 = res@;
        push_if_pseudo(b, from, to, Some(PieceKind::Knight), &mut res);
        proof {
            let n0 = s0.len() as int;
            let n1 = s1.len() as int;
            let n2 = s2.len() as int;
            let n3 = s3.len() as int;
            let n4 = s4.len() as int;
            let n5 = res@.len() as int;
            assert forall|k: int| n0 <= k < n5 implies #[trigger] move_key(res@[k]) == (
            idx as int) * 5 + promo_rank(res@[k].promotion) && 0 <= promo_rank(res@[k].promotion)
                < 5 && (k < n1 ==> res@[k].promotion is None) && (n1 <= k < n2 ==> res@[k].promotion
                == Some(PieceKind::Queen)) && (n2 <= k < n3 ==> res@[k].promotion == Some(
                PieceKind::Rook,
            )) && (n3 <= k < n4 ==> res@[k].promotion == Some(PieceKind::Bishop)) && (n4 <= k
                ==> res@[k].promotion == Some(PieceKind::Knight)) by {
                if k < n1 {
                    assert(res@[k] == s4[k] && s4[k] == s3[k] && s3[k] == s2[k] && s2[k] == s1[k]);
                } else if k < n2 {
                    assert(res@[k] == s4[k] && s4[k] == s3[k] && s3[k] == s2[k]);
                } else if k < n3 {
                    assert(res@[k] == s4[k] && s4[k] == s3[k]);
                } else if k < n4 {
                    assert(res@[k] == s4[k]);
                }
                assert(res@[k].to == to);
            }
            assert forall|i: int, j: int| 0 <= i < j < n5 implies move_key(res@[i]) < move_key(
                res@[j],
            ) by {
                if i < n0 && j >= n0 {
                    assert(move_key(res@[i]) < (idx as int) * 5);
                } else if i >= n0 {
                    assert(promo_rank(res@[i].promotion) < promo_rank(res@[j].promotion));
                }
            }
            assert forall|mv: Move|
                pseudo_legal(b@, mv) && mv.from == from && mv.to.rank as int * 8
                    + (mv.to.file as int) < (idx as int) + 1 implies res@.contains(mv) by {
                if mv.to.rank as int * 8 + mv.to.file as int == idx as int {
                    assert(mv.to.file as int == (idx % 8) as int && mv.to.rank as int == (idx
                        / 8) as int);
                    assert(mv.to == to);
                    lemma_pseudo_promotion_kinds(b@, mv);
                }
            }
        }
        idx += 1;
    }
    proof {
        assert forall|i: int, j: int| 0 <= i < j < res@.len() implies res@[i] != res@[j] by {
            assert(move_key(res@[i]) < move_key(res@[j]));
        }
    }
    res
}

/// All legal moves of the piece on `from`: the pseudo-legal moves that do
/// not leave the mover's own king in check.
pub fn legal_moves(b: &Board, from: Square) -> (res: Vec<Move>)
    requires
        b.wf(),
        from.wf(),
    ensures
        forall|i: int|
            0 <= i < res@.len() ==> legal_move(b@, #[trigger] res@[i]) && res@[i].from == from,
        forall|mv: Move| legal_move(b@, mv) && mv.from == from ==> res@.contains(mv),
        forall|i: int, j: int| 0 <= i < j < res@.len() ==> res@[i] != res@[j],
{
    let cands = pseudo_legal_moves(b, from);
    let mut res: Vec<Move> = Vec::new();
    let mut i: usize = 0;
    while i < cands.len()
        invariant
            b.wf(),
            from.wf(),
            i <= cands@.len(),
            forall|j: int|
                0 <= j < cands@.len() ==> pseudo_legal(b@, #[trigger] cands@[j]) && cands@[j].from
                    == from,
            forall|j: int, k: int|
                0 <= j < k < cands@.len() ==> move_key(cands@[j]) < move_key(cands@[k]),
            forall|j: int|
                0 <= j < res@.len() ==> legal_move(b@, #[trigger] res@[j]) && res@[j].from == from,
            forall|j: int|
                0 <= j < i as int && legal_move(b@, #[trigger] cands@[j]) ==> res@.contains(
                    cands@[j],
                ),
            forall|j: int, k: int|
                0 <= j < k < res@.len() ==> move_key(res@[j]) < move_key(res@[k]),
            res@.len() > 0 ==> exists|t: int|
                0 <= t < i as int && #[trigger] cands@[t] == res@[res@.len() - 1],
        decreases cands@.len() - i,
    {
        let ghost res0 = res@;
        let mv = cands[i];
        if is_legal(b, mv) {
            res.push(mv);
            proof {
                assert(res@[res@.len() - 1] == mv);
                assert(cands@[i as int] == res@[res@.len() - 1]);
                if res0.len() > 0 {
                    let t = choose|t: int|
                        0 <= t < i as int && #[trigger] cands@[t] == res0[res0.len() - 1];
                    assert(move_key(res0[res0.len() - 1]) < move_key(mv));
                }
                assert forall|x: Move| res0.contains(x) implies res@.contains(x) by {
                    let k = choose|k: int| 0 <= k < res0.len() && res0[k] == x;
                    assert(res@[k] == x);
                }
            }
        }
        i += 1;
    }
    proof {
        assert forall|mv: Move| legal_move(b@, mv) && mv.from == from implies res@.contains(mv) by {
            assert(cands@.contains(mv));
            let j = choose|j: int| 0 <= j < cands@.len() && cands@[j] == mv;
            assert(legal_move(b@, cands@[j]));
        }
        assert forall|i2: int, j2: int| 0 <= i2 < j2 < res@.len() implies res@[i2] != res@[j2] by {
            assert(move_key(res@[i2]) < move_key(res@[j2]));
        }
    }
    res
}

/// All legal moves of a color: the union of `legal_moves` over every
/// square holding one of its pieces. An empty result on that color's turn
/// means checkmate or stalemate.
pub fn all_legal_moves(b: &Board, c: Color) -> (res: Vec<Move>)
    requires
        b.wf(),
    ensures
        forall|i: int|
            0 <= i < res@.len() ==> legal_move(b@, #[trigger] res@[i]) && mover_color(b@, res@[i])
                == Some(c),
        forall|mv: Move| legal_move(b@, mv) && mover_color(b@, mv) == Some(c) ==> res@.contains(mv),
        forall|i: int, j: int| 0 <= i < j < res@.len() ==> res@[i] != res@[j],
{
    let mut res: Vec<Move> = Vec::new();
    let mut idx: u8 = 0;
    while idx < 64
        invariant
            b.wf(),
            idx <= 64,
            forall|i: int|
                0 <= i < res@.len() ==> legal_move(b@, #[trigger] res@[i]) && mover_color(
                    b@,
                    res@[i],
                ) == Some(c),
            forall|mv: Move|
                legal_move(b@, mv) && mover_color(b@, mv) == Some(c) && mv.from.rank as int * 8
                    + (mv.from.file as int) < (idx as int) ==> res@.contains(mv),
            forall|i: int|
                0 <= i < res@.len() ==> (#[trigger] res@[i]).from.rank as int * 8
                    + (res@[i].from.file as int) < (idx as int),
            forall|i: int, j: int| 0 <= i < j < res@.len() ==> res@[i] != res@[j],
        decreases 64 - idx,
    {
        let from = Square { file: idx % 8, rank: idx / 8 };
        let here_color = match b.piece_at(from) {
            Some(p) => Some(p.color),
            None => None,
        };
        let matches_color = match here_color {
            Some(cc) => cc == c,
            None => false,
        };
        if matches_color {
            let ms = legal_moves(b, from);
            let ghost seg0 = res@;
            let mut j: usize = 0;
            while j < ms.len()
                invariant
                    b.wf(),
                    from.wf(),
                    j <= ms@.len(),
                    b@.color_at(from.file as int, from.rank as int) == Some(c),
                    forall|k: int|
                        0 <= k < ms@.len() ==> legal_move(b@, #[trigger] ms@[k]) && ms@[k].from
                            == from,
                    forall|mv: Move| legal_move(b@, mv) && mv.from == from ==> ms@.contains(mv),
                    forall|k: int, l: int| 0 <= k < l < ms@.len() ==> ms@[k] != ms@[l],
                    res@ == seg0 + ms@.subrange(0, j as int),
                    forall|i: int|
                        0 <= i < seg0.len() ==> (#[trigger] seg0[i]).from.rank as int * 8
                            + (seg0[i].from.file as int) < (idx as int),
                    forall|i: int, j2: int| 0 <= i < j2 < seg0.len() ==> seg0[i] != seg0[j2],
                    forall|i: int|
                        0 <= i < res@.len() ==> legal_move(b@, #[trigger] res@[i]) && mover_color(
                            b@,
                            res@[i],
                        ) == Some(c),
                    forall|mv: Move|
                        legal_move(b@, mv) && mover_color(b@, mv) == Some(c) && mv.from.rank as int
                            * 8 + (mv.from.file as int) < (idx as int) ==> res@.contains(mv),
                    forall|k: int| 0 <= k < j as int ==> res@.contains(#[trigger] ms@[k]),
                decreases ms@.len() - j,
            {
                let ghost res0 = res@;
                let mv = ms[j];
                res.push(mv);
                proof {
                    assert(res@[res@.len() - 1] == mv);
                    assert(res@ =~= seg0 + ms@.subrange(0, j as int + 1));
                    assert forall|x: Move| res0.contains(x) implies res@.contains(x) by {
                        let k = choose|k: int| 0 <= k < res0.len() && res0[k] == x;
                        assert(res@[k] == x);
                    }
                }
                j += 1;
            }
            proof {
                assert(res@ =~= seg0 + ms@);
                assert forall|mv: Move|
                    legal_move(b@, mv) && mover_color(b@, mv) == Some(c) && mv.from.rank as int * 8
                        + (mv.from.file as int) < (idx as int) + 1 implies res@.contains(mv) by {
                    if mv.from.rank as int * 8 + mv.from.file as int == idx as int {
                        assert(mv.from == from);
                        assert(ms@.contains(mv));
                        let k = choose|k: int| 0 <= k < ms@.len() && ms@[k] == mv;
                        assert(res@.contains(ms@[k]));
                    }
                }
                assert forall|i: int, j2: int| 0 <= i < j2 < res@.len() implies res@[i]
                    != res@[j2] by {
                    if i < seg0.len() && j2 >= seg0.len() {
                        assert(res@[i] == seg0[i]);
                        assert(res@[j2] == ms@[j2 - seg0.len()]);
                        assert(res@[j2].from == from);
                        assert(seg0[i].from.rank as int * 8 + (seg0[i].from.file as int) < (
                        idx as int));
                    } else if i >= seg0.len() {
                        assert(res@[i] == ms@[i - seg0.len()]);
                        assert(res@[j2] == ms@[j2 - seg0.len()]);
                    } else {
                        assert(res@[i] == seg0[i] && res@[j2] == seg0[j2]);
                    }
                }
            }
        } else {
            proof {
                assert forall|mv: Move|
                    legal_move(b@, mv) && mover_color(b@, mv) == Some(c) && mv.from.rank as int * 8
                        + (mv.from.file as int) < (idx as int) + 1 implies res@.contains(mv) by {
                    if mv.from.rank as int * 8 + mv.from.file as int == idx as int {
                        assert(mv.from == from);
                        assert(false);
                    }
                }
            }
        }
        idx += 1;
    }
    res
}

} // verus!
