//! The attack and geometry engine: which squares a color attacks, whether
//! a king is in check, and where the king stands. Attack sets are pseudo
//! legal by design: they ignore whether moving the attacker would expose
//! its own king, which is what check detection requires.

use vstd::prelude::*;

use crate::board::{on_board, Board, BoardModel};
use crate::types::{Color, MoveError, Piece, PieceKind, Square};

verus! {

/// Every square strictly between two files of one rank is empty.
pub open spec fn open_rank_between(m: BoardModel, r: int, f1: int, f2: int) -> bool {
    forall|f: int| (f1 < f < f2 || f2 < f < f1) ==> (#[trigger] m.at(f, r)) is None
}

/// Every square strictly between two ranks of one file is empty.
pub open spec fn open_file_between(m: BoardModel, f: int, r1: int, r2: int) -> bool {
    forall|r: int| (r1 < r < r2 || r2 < r < r1) ==> (#[trigger] m.at(f, r)) is None
}

/// Every square strictly between file `ff` and file `tf` on the rising
/// diagonal through (ff, fr) is empty; on that diagonal the rank grows
/// with the file, so the square at file `f` has rank `f - ff + fr`.
pub open spec fn open_rising_diag_between(m: BoardModel, ff: int, fr: int, tf: int) -> bool {
    forall|f: int| (ff < f < tf || tf < f < ff) ==> (#[trigger] m.at(f, f - ff + fr)) is None
}

/// Every square strictly between file `ff` and file `tf` on the falling
/// diagonal through (ff, fr) is empty; on that diagonal the rank shrinks
/// as the file grows, so the square at file `f` has rank `ff + fr - f`.
pub open spec fn open_falling_diag_between(m: BoardModel, ff: int, fr: int, tf: int) -> bool {
    forall|f: int| (ff < f < tf || tf < f < ff) ==> (#[trigger] m.at(f, ff + fr - f)) is None
}

/// A rook placed on (ff, fr) reaches (tf, tr): the two squares differ and
/// share a rank or a file, and every square strictly between them is
/// empty. The destination itself may be occupied by either color; for
/// attack purposes the first occupied square on a ray is still attacked.
pub open spec fn rook_line(m: BoardModel, ff: int, fr: int, tf: int, tr: int) -> bool {
    ||| (fr == tr && ff != tf && open_rank_between(m, fr, ff, tf))
    ||| (ff == tf && fr != tr && open_file_between(m, ff, fr, tr))
}

/// A bishop placed on (ff, fr) reaches (tf, tr): the two squares differ
/// and share a rising or falling diagonal, and every square strictly
/// between them is empty.
pub open spec fn bishop_line(m: BoardModel, ff: int, fr: int, tf: int, tr: int) -> bool {
    ||| (tf - ff == tr - fr && tf != ff && open_rising_diag_between(m, ff, fr, tf))
    ||| (tf - ff == fr - tr && tf != ff && open_falling_diag_between(m, ff, fr, tf))
}

/// The fixed offsets of a knight: one step on one axis and two on the
/// other.
pub open spec fn knight_jump(ff: int, fr: int, tf: int, tr: int) -> bool {
    let df = tf - ff;
    let dr = tr - fr;
    ||| ((df == 1 || df == -1) && (dr == 2 || dr == -2))
    ||| ((df == 2 || df == -2) && (dr == 1 || dr == -1))
}

/// The fixed offsets of a king: at most one step on each axis, and not
/// standing still.
pub open spec fn king_step(ff: int, fr: int, tf: int, tr: int) -> bool {
    let df = tf - ff;
    let dr = tr - fr;
    -1 <= df <= 1 && -1 <= dr <= 1 && !(df == 0 && dr == 0)
}

/// The direction a color's pawns advance in: White up the ranks, Black
/// down.
pub open spec fn pawn_dir(c: Color) -> int {
    if c is White {
        1
    } else {
        -1
    }
}

/// The rank a color's pawns start on.
pub open spec fn pawn_start_rank(c: Color) -> int {
    if c is White {
        1
    } else {
        6
    }
}

/// The farthest rank for a color's pawns, on which they must promote.
pub open spec fn pawn_last_rank(c: Color) -> int {
    if c is White {
        7
    } else {
        0
    }
}

/// A pawn of color `c` on (ff, fr) attacks (tf, tr): one square
/// diagonally forward. Pawns attack only diagonally, never straight
/// ahead, and independently of what stands on the attacked square.
pub open spec fn pawn_attack_step(c: Color, ff: int, fr: int, tf: int, tr: int) -> bool {
    (tf == ff - 1 || tf == ff + 1) && tr == fr + pawn_dir(c)
}

/// The piece on (ff, fr), if any, attacks (tf, tr) on this board,
/// ignoring whose turn it is and whether the attack would expose the
/// attacker's own king.
pub open spec fn attacks(m: BoardModel, ff: int, fr: int, tf: int, tr: int) -> bool {
    &&& on_board(ff, fr)
    &&& on_board(tf, tr)
    &&& match m.at(ff, fr) {
        None => false,
        Some(p) => match p.kind {
            PieceKind::King => king_step(ff, fr, tf, tr),
            PieceKind::Queen => rook_line(m, ff, fr, tf, tr) || bishop_line(m, ff, fr, tf, tr),
            PieceKind::Rook => rook_line(m, ff, fr, tf, tr),
            PieceKind::Bishop => bishop_line(m, ff, fr, tf, tr),
            PieceKind::Knight => knight_jump(ff, fr, tf, tr),
            PieceKind::Pawn => pawn_attack_step(p.color, ff, fr, tf, tr),
        },
    }
}

/// Some piece of color `by` attacks the square (tf, tr).
pub open spec fn square_attacked_by(m: BoardModel, by: Color, tf: int, tr: int) -> bool {
    exists|ff: int, fr: int|
        m.color_at(ff, fr) == Some(by) && #[trigger] attacks(m, ff, fr, tf, tr)
}

/// A king of color `c` stands on (f, r).
pub open spec fn king_at(m: BoardModel, c: Color, f: int, r: int) -> bool {
    m.at(f, r) == Some(Piece { kind: PieceKind::King, color: c })
}

/// Color `c` is in check: a square holding a king of `c` is attacked by
/// the opposite color.
pub open spec fn in_check_model(m: BoardModel, c: Color) -> bool {
    exists|f: int, r: int|
        #[trigger] king_at(m, c, f, r) && square_attacked_by(m, c.spec_opposite(), f, r)
}

/// Walks the squares strictly between two files of one rank and reports
/// whether all of them are empty.
fn open_rank(b: &Board, r: u8, f1: u8, f2: u8) -> (res: bool)
    requires
        b.wf(),
        r < 8,
        f1 < 8,
        f2 < 8,
    ensures
        res == open_rank_between(b@, r as int, f1 as int, f2 as int),
{
    let lo = if f1 < f2 { f1 } else { f2 };
    let hi = if f1 < f2 { f2 } else { f1 };
    let mut f = lo + 1;
    while f < hi
        invariant
            b.wf(),
            r < 8,
            lo == (if f1 < f2 { f1 } else { f2 }),
            hi == (if f1 < f2 { f2 } else { f1 }),
            lo < 8,
            hi < 8,
            lo + 1 <= f <= 8,
            hi <= lo || f <= hi,
            forall|x: int| (lo as int) < x < (f as int) ==> (#[trigger] b@.at(x, r as int)) is None,
        decreases 8 - f,
    {
        if b.piece_at_fr(f, r).is_some() {
            proof {
                assert((f1 as int) < (f as int) < (f2 as int) || (f2 as int) < (f as int) < (
                f1 as int));
                assert(b@.at(f as int, r as int) is Some);
                assert(!open_rank_between(b@, r as int, f1 as int, f2 as int));
            }
            return false;
        }
        f += 1;
    }
    true
}

/// Walks the squares strictly between two ranks of one file and reports
/// whether all of them are empty.
fn open_file(b: &Board, f: u8, r1: u8, r2: u8) -> (res: bool)
    requires
        b.wf(),
        f < 8,
        r1 < 8,
        r2 < 8,
    ensures
        res == open_file_between(b@, f as int, r1 as int, r2 as int),
{
    let lo = if r1 < r2 { r1 } else { r2 };
    let hi = if r1 < r2 { r2 } else { r1 };
    let mut r = lo + 1;
    while r < hi
        invariant
            b.wf(),
            f < 8,
            lo == (if r1 < r2 { r1 } else { r2 }),
            hi == (if r1 < r2 { r2 } else { r1 }),
            lo < 8,
            hi < 8,
            lo + 1 <= r <= 8,
            hi <= lo || r <= hi,
            forall|x: int| (lo as int) < x < (r as int) ==> (#[trigger] b@.at(f as int, x)) is None,
        decreases 8 - r,
    {
        if b.piece_at_fr(f, r).is_some() {
            proof {
                assert((r1 as int) < (r as int) < (r2 as int) || (r2 as int) < (r as int) < (
                r1 as int));
                assert(b@.at(f as int, r as int) is Some);
                assert(!open_file_between(b@, f as int, r1 as int, r2 as int));
            }
            return false;
        }
        r += 1;
    }
    true
}

/// Walks the squares strictly between the files `ff` and `tf` on the
/// rising diagonal through (ff, fr) and reports whether all are empty.
/// The endpoints must really lie on one rising diagonal of the board.
fn open_rising_diag(b: &Board, ff: u8, fr: u8, tf: u8, tr: u8) -> (res: bool)
    requires
        b.wf(),
        ff < 8,
        fr < 8,
        tf < 8,
        tr < 8,
        tf as int - ff as int == tr as int - fr as int,
    ensures
        res == open_rising_diag_between(b@, ff as int, fr as int, tf as int),
{
    let (lof, lor) = if ff < tf { (ff, fr) } else { (tf, tr) };
    let hif = if ff < tf { tf } else { ff };
    let mut f = lof + 1;
    let mut r = lor + 1;
    while f < hif
        invariant
            b.wf(),
            lof == (if ff < tf { ff } else { tf }),
            lor == (if ff < tf { fr } else { tr }),
            hif == (if ff < tf { tf } else { ff }),
            lof < 8,
            lor < 8,
            hif < 8,
            lof + 1 <= f <= 8,
            hif <= lof || f <= hif,
            r as int - f as int == lor as int - lof as int,
            r as int == f as int - ff as int + fr as int,
            hif as int - lof as int + lor as int <= 7,
            forall|x: int|
                (lof as int) < x < (f as int) ==> (#[trigger] b@.at(
                    x,
                    x - ff as int + fr as int,
                )) is None,
        decreases 8 - f,
    {
        if b.piece_at_fr(f, r).is_some() {
            proof {
                assert((ff as int) < (f as int) < (tf as int) || (tf as int) < (f as int) < (
                ff as int));
                assert(r as int == f as int - ff as int + fr as int);
                assert(b@.at(f as int, f as int - ff as int + fr as int) is Some);
                assert(!open_rising_diag_between(b@, ff as int, fr as int, tf as int));
            }
            return false;
        }
        f += 1;
        r += 1;
    }
    true
}

/// Walks the squares strictly between the files `ff` and `tf` on the
/// falling diagonal through (ff, fr) and reports whether all are empty.
/// The endpoints must really lie on one falling diagonal of the board.
fn open_falling_diag(b: &Board, ff: u8, fr: u8, tf: u8, tr: u8) -> (res: bool)
    requires
        b.wf(),
        ff < 8,
        fr < 8,
        tf < 8,
        tr < 8,
        tf as int - ff as int == fr as int - tr as int,
    ensures
        res == open_falling_diag_between(b@, ff as int, fr as int, tf as int),
{
    let (lof, lor) = if ff < tf { (ff, fr) } else { (tf, tr) };
    let hif = if ff < tf { tf } else { ff };
    let mut f = lof + 1;
    while f < hif
        invariant
            b.wf(),
            lof == (if ff < tf { ff } else { tf }),
            lor == (if ff < tf { fr } else { tr }),
            hif == (if ff < tf { tf } else { ff }),
            lof < 8,
            lor < 8,
            hif < 8,
            lof + 1 <= f <= 8,
            hif <= lof || f <= hif,
            lof as int + lor as int == ff as int + fr as int,
            0 <= ff as int + fr as int - hif as int,
            forall|x: int|
                (lof as int) < x < (f as int) ==> (#[trigger] b@.at(
                    x,
                    ff as int + fr as int - x,
                )) is None,
        decreases 8 - f,
    {
        let r = lof + lor - f;
        if b.piece_at_fr(f, r).is_some() {
            proof {
                assert((ff as int) < (f as int) < (tf as int) || (tf as int) < (f as int) < (
                ff as int));
                assert(r as int == ff as int + fr as int - f as int);
                assert(b@.at(f as int, ff as int + fr as int - f as int) is Some);
                assert(!open_falling_diag_between(b@, ff as int, fr as int, tf as int));
            }
            return false;
        }
        f += 1;
    }
    true
}

/// Decides whether the piece on (ff, fr), if any, attacks (tf, tr),
/// mirroring the `attacks` predicate exactly.
pub fn piece_attacks(b: &Board, ff: u8, fr: u8, tf: u8, tr: u8) -> (res: bool)
    requires
        b.wf(),
        ff < 8,
        fr < 8,
        tf < 8,
        tr < 8,
    ensures
        res == attacks(b@, ff as int, fr as int, tf as int, tr as int),
{
    let p = match b.piece_at_fr(ff, fr) {
        None => {
            return false;
        },
        Some(p) => p,
    };
    let dfi = tf as i16 - ff as i16;
    let dri = tr as i16 - fr as i16;
    match p.kind {
        PieceKind::King => (-1 <= dfi && dfi <= 1) && (-1 <= dri && dri <= 1) && !(dfi == 0
            && dri == 0),
        PieceKind::Knight => ((dfi == 1 || dfi == -1) && (dri == 2 || dri == -2)) || ((dfi == 2
            || dfi == -2) && (dri == 1 || dri == -1)),
        PieceKind::Pawn => {
            let d: i16 = match p.color {
                Color::White => 1,
                Color::Black => -1,
            };
            (dfi == 1 || dfi == -1) && dri == d
        },
        PieceKind::Rook => rook_reaches(b, ff, fr, tf, tr),
        PieceKind::Bishop => bishop_reaches(b, ff, fr, tf, tr),
        PieceKind::Queen => rook_reaches(b, ff, fr, tf, tr) || bishop_reaches(b, ff, fr, tf, tr),
    }
}

/// Decides `rook_line`.
pub(crate) fn rook_reaches(b: &Board, ff: u8, fr: u8, tf: u8, tr: u8) -> (res: bool)
    requires
        b.wf(),
        ff < 8,
        fr < 8,
        tf < 8,
        tr < 8,
    ensures
        res == rook_line(b@, ff as int, fr as int, tf as int, tr as int),
{
    if fr == tr && ff != tf {
        open_rank(b, fr, ff, tf)
    } else if ff == tf && fr != tr {
        open_file(b, ff, fr, tr)
    } else {
        false
    }
}

/// Decides `bishop_line`.
pub(crate) fn bishop_reaches(b: &Board, ff: u8, fr: u8, tf: u8, tr: u8) -> (res: bool)
    requires
        b.wf(),
        ff < 8,
        fr < 8,
        tf < 8,
        tr < 8,
    ensures
        res == bishop_line(b@, ff as int, fr as int, tf as int, tr as int),
{
    let dfi = tf as i16 - ff as i16;
    let dri = tr as i16 - fr as i16;
    if dfi == dri && dfi != 0 {
        open_rising_diag(b, ff, fr, tf, tr)
    } else if dfi == -dri && dfi != 0 {
        open_falling_diag(b, ff, fr, tf, tr)
    } else {
        false
    }
}

/// Reports whether any piece of color `by` attacks the square (tf, tr).
pub fn square_attacked(b: &Board, by: Color, tf: u8, tr: u8) -> (res: bool)
    requires
        b.wf(),
        tf < 8,
        tr < 8,
    ensures
        res == square_attacked_by(b@, by, tf as int, tr as int),
{
    let mut r: u8 = 0;
    while r < 8
        invariant
            b.wf(),
            tf < 8,
            tr < 8,
            r <= 8,
            forall|pf: int, pr: int|
                0 <= pr < r as int && 0 <= pf < 8 ==> !(b@.color_at(pf, pr) == Some(by)
                    && #[trigger] attacks(b@, pf, pr, tf as int, tr as int)),
        decreases 8 - r,
    {
        let mut f: u8 = 0;
        while f < 8
            invariant
                b.wf(),
                tf < 8,
                tr < 8,
                r < 8,
                f <= 8,
                forall|pf: int, pr: int|
                    0 <= pr < r as int && 0 <= pf < 8 ==> !(b@.color_at(pf, pr) == Some(by)
                        && #[trigger] attacks(b@, pf, pr, tf as int, tr as int)),
                forall|pf: int|
                    0 <= pf < f as int ==> !(b@.color_at(pf, r as int) == Some(by)
                        && #[trigger] attacks(b@, pf, r as int, tf as int, tr as int)),
            decreases 8 - f,
        {
            let here = b.piece_at_fr(f, r);
            if let Some(p) = here {
                if p.color == by {
                    if piece_attacks(b, f, r, tf, tr) {
                        return true;
                    }
                }
            }
            f += 1;
        }
        r += 1;
    }
    false
}

/// Reports whether color `c` is in check on this board.
pub fn in_check(b: &Board, c: Color) -> (res: bool)
    requires
        b.wf(),
    ensures
        res == in_check_model(b@, c),
{
    let mut r: u8 = 0;
    while r < 8
        invariant
            b.wf(),
            r <= 8,
            forall|pf: int, pr: int|
                0 <= pr < r as int && 0 <= pf < 8 ==> !(#[trigger] king_at(b@, c, pf, pr)
                    && square_attacked_by(b@, c.spec_opposite(), pf, pr)),
        decreases 8 - r,
    {
        let mut f: u8 = 0;
        while f < 8
            invariant
                b.wf(),
                r < 8,
                f <= 8,
                forall|pf: int, pr: int|
                    0 <= pr < r as int && 0 <= pf < 8 ==> !(#[trigger] king_at(b@, c, pf, pr)
                        && square_attacked_by(b@, c.spec_opposite(), pf, pr)),
                forall|pf: int|
                    0 <= pf < f as int ==> !(#[trigger] king_at(b@, c, pf, r as int)
                        && square_attacked_by(b@, c.spec_opposite(), pf, r as int)),
            decreases 8 - f,
        {
            let here = b.piece_at_fr(f, r);
            if let Some(p) = here {
                if p.color == c {
                    let is_king = match p.kind {
                        PieceKind::King => true,
                        _ => false,
                    };
                    if is_king {
                        if square_attacked(b, c.opposite(), f, r) {
                            proof {
                                assert(p == (Piece { kind: PieceKind::King, color: c }));
                                assert(king_at(b@, c, f as int, r as int));
                            }
                            return true;
                        }
                    }
                }
            }
            f += 1;
        }
        r += 1;
    }
    false
}

/// Locates the unique king of a color. Returns `InvariantViolation` when
/// the board holds no king of that color or more than one; on a validly
/// maintained board that never happens.
pub fn king_square(b: &Board, c: Color) -> (res: Result<Square, MoveError>)
    requires
        b.wf(),
    ensures
        match res {
            Ok(sq) => sq.wf() && king_at(b@, c, sq.file as int, sq.rank as int) && forall|
                f: int,
                r: int,
            |
                #[trigger] king_at(b@, c, f, r) ==> f == sq.file as int && r == sq.rank as int,
            Err(e) => e == MoveError::InvariantViolation && !(exists|f: int, r: int|
                #[trigger] king_at(b@, c, f, r) && forall|f2: int, r2: int|
                    #[trigger] king_at(b@, c, f2, r2) ==> f2 == f && r2 == r),
        },
{
    let mut found: Option<Square> = None;
    let mut r: u8 = 0;
    while r < 8
        invariant
            b.wf(),
            r <= 8,
            match found {
                Some(sq) => sq.wf() && (sq.rank as int) < (r as int) && king_at(
                    b@,
                    c,
                    sq.file as int,
                    sq.rank as int,
                ) && forall|pf: int, pr: int|
                    0 <= pr < r as int && 0 <= pf < 8 && #[trigger] king_at(b@, c, pf, pr) ==> pf
                        == sq.file as int && pr == sq.rank as int,
                None => forall|pf: int, pr: int|
                    0 <= pr < r as int && 0 <= pf < 8 ==> !#[trigger] king_at(b@, c, pf, pr),
            },
        decreases 8 - r,
    {
        let mut f: u8 = 0;
        while f < 8
            invariant
                b.wf(),
                r < 8,
                f <= 8,
                match found {
                    Some(sq) => sq.wf() && ((sq.rank as int) < (r as int) || sq.rank as int
                        == r as int && (sq.file as int) < (f as int)) && king_at(
                        b@,
                        c,
                        sq.file as int,
                        sq.rank as int,
                    ) && forall|pf: int, pr: int|
                        (0 <= pr < r as int && 0 <= pf < 8 || pr == r as int && 0 <= pf < f as int)
                            && #[trigger] king_at(b@, c, pf, pr) ==> pf == sq.file as int && pr
                            == sq.rank as int,
                    None => forall|pf: int, pr: int|
                        (0 <= pr < r as int && 0 <= pf < 8 || pr == r as int && 0 <= pf
                            < f as int) ==> !#[trigger] king_at(b@, c, pf, pr),
                },
            decreases 8 - f,
        {
            let here = b.piece_at_fr(f, r);
            if let Some(p) = here {
                let is_king = match p.kind {
                    PieceKind::King => true,
                    _ => false,
                };
                if is_king && p.color == c {
                    if let Some(prev) = found {
                        proof {
                            assert(king_at(b@, c, prev.file as int, prev.rank as int));
                            assert(p == (Piece { kind: PieceKind::King, color: c }));
                            assert(king_at(b@, c, f as int, r as int));
                            if exists|f0: int, r0: int|
                                #[trigger] king_at(b@, c, f0, r0) && forall|f2: int, r2: int|
                                    #[trigger] king_at(b@, c, f2, r2) ==> f2 == f0 && r2 == r0 {
                                let (f0, r0) = choose|f0: int, r0: int|
                                    #[trigger] king_at(b@, c, f0, r0) && forall|f2: int, r2: int|
                                        #[trigger] king_at(b@, c, f2, r2) ==> f2 == f0 && r2
                                            == r0;
                                assert(prev.file as int == f0 && prev.rank as int == r0);
                                assert(f as int == f0 && r as int == r0);
                                assert(false);
                            }
                        }
                        return Err(MoveError::InvariantViolation);
                    }
                    found = Some(Square { file: f, rank: r });
                }
            }
            f += 1;
        }
        r += 1;
    }
    match found {
        Some(sq) => {
            proof {
                assert forall|pf: int, pr: int| #[trigger] king_at(b@, c, pf, pr) implies pf
                    == sq.file as int && pr == sq.rank as int by {
                    assert(on_board(pf, pr));
                }
            }
            Ok(sq)
        },
        None => {
            proof {
                if exists|f0: int, r0: int|
                    #[trigger] king_at(b@, c, f0, r0) && forall|f2: int, r2: int|
                        #[trigger] king_at(b@, c, f2, r2) ==> f2 == f0 && r2 == r0 {
                    let (f0, r0) = choose|f0: int, r0: int|
                        #[trigger] king_at(b@, c, f0, r0) && forall|f2: int, r2: int|
                            #[trigger] king_at(b@, c, f2, r2) ==> f2 == f0 && r2 == r0;
                    assert(on_board(f0, r0));
                    assert(false);
                }
            }
            Err(MoveError::InvariantViolation)
        },
    }
}

/// All squares attacked by a color, each exactly once: the union over the
/// color's pieces of the squares they attack.
pub fn attacked_squares(b: &Board, by: Color) -> (res: Vec<Square>)
    requires
        b.wf(),
    ensures
        forall|i: int|
            0 <= i < res@.len() ==> (#[trigger] res@[i]).wf() && square_attacked_by(
                b@,
                by,
                res@[i].file as int,
                res@[i].rank as int,
            ),
        forall|sq: Square|
            sq.wf() && square_attacked_by(b@, by, sq.file as int, sq.rank as int)
                ==> res@.contains(sq),
        forall|i: int, j: int| 0 <= i < j < res@.len() ==> res@[i] != res@[j],
{
    let mut res: Vec<Square> = Vec::new();
    let mut idx: u8 = 0;
    while idx < 64
        invariant
            b.wf(),
            idx <= 64,
            forall|i: int|
                0 <= i < res@.len() ==> (#[trigger] res@[i]).wf() && square_attacked_by(
                    b@,
                    by,
                    res@[i].file as int,
                    res@[i].rank as int,
                ),
            forall|i: int|
                0 <= i < res@.len() ==> (#[trigger] res@[i]).rank as int * 8
                    + (res@[i].file as int) < (idx as int),
            forall|sq: Square|
                sq.wf() && sq.rank as int * 8 + (sq.file as int) < (idx as int) && square_attacked_by(
                    b@,
                    by,
                    sq.file as int,
                    sq.rank as int,
                ) ==> res@.contains(sq),
            forall|i: int, j: int| 0 <= i < j < res@.len() ==> res@[i] != res@[j],
        decreases 64 - idx,
    {
        let f = idx % 8;
        let r = idx / 8;
        let ghost res0 = res@;
        let attacked_here = square_attacked(b, by, f, r);
        if attacked_here {
            let sq = Square { file: f, rank: r };
            res.push(sq);
            proof {
                assert(res@[res@.len() - 1] == sq);
                assert forall|x: Square| res0.contains(x) implies res@.contains(x) by {
                    let i = choose|i: int| 0 <= i < res0.len() && res0[i] == x;
                    assert(res@[i] == x);
                }
            }
        }
        proof {
            assert forall|sq: Square|
                sq.wf() && sq.rank as int * 8 + (sq.file as int) < (idx as int) + 1
                    && square_attacked_by(b@, by, sq.file as int, sq.rank as int)
                implies res@.contains(sq) by {
                if sq.rank as int * 8 + sq.file as int == idx as int {
                    assert(sq.file as int == f as int && sq.rank as int == r as int);
                    assert(sq == (Square { file: f, rank: r }));
                } else {
                    assert(res0.contains(sq));
                    let i = choose|i: int| 0 <= i < res0.len() && res0[i] == sq;
                    assert(res@[i] == sq);
                }
            }
        }
        idx += 1;
    }
    res
}

} // verus!
