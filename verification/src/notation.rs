//! The coordinate and notation layer: conversion between algebraic square
//! names such as "e4" and `Square` values. Parsing accepts a
//! case-insensitive file letter a-h followed by a rank digit 1-8 and
//! rejects everything else; formatting is its inverse on valid squares.

use vstd::prelude::*;

use crate::types::{MoveError, Square};

verus! {

/// The file index named by a letter, if any: 'a' or 'A' is file 0 and so
/// on up to 'h' or 'H' for file 7.
pub open spec fn file_index_of_char(c: char) -> Option<u8> {
    if c == 'a' || c == 'A' {
        Some(0u8)
    } else if c == 'b' || c == 'B' {
        Some(1u8)
    } else if c == 'c' || c == 'C' {
        Some(2u8)
    } else if c == 'd' || c == 'D' {
        Some(3u8)
    } else if c == 'e' || c == 'E' {
        Some(4u8)
    } else if c == 'f' || c == 'F' {
        Some(5u8)
    } else if c == 'g' || c == 'G' {
        Some(6u8)
    } else if c == 'h' || c == 'H' {
        Some(7u8)
    } else {
        None
    }
}

/// The rank index named by a digit, if any: '1' is rank 0 up to '8' for
/// rank 7.
pub open spec fn rank_index_of_char(c: char) -> Option<u8> {
    if c == '1' {
        Some(0u8)
    } else if c == '2' {
        Some(1u8)
    } else if c == '3' {
        Some(2u8)
    } else if c == '4' {
        Some(3u8)
    } else if c == '5' {
        Some(4u8)
    } else if c == '6' {
        Some(5u8)
    } else if c == '7' {
        Some(6u8)
    } else if c == '8' {
        Some(7u8)
    } else {
        None
    }
}

/// What square a piece of text names: exactly two characters, a file
/// letter then a rank digit, anything else is no square at all.
pub open spec fn parsed_square(s: Seq<char>) -> Option<Square> {
    if s.len() != 2 {
        None
    } else {
        match (file_index_of_char(s[0]), rank_index_of_char(s[1])) {
            (Some(f), Some(r)) => Some(Square { file: f, rank: r }),
            _ => None,
        }
    }
}

/// The lowercase letter of a file index.
pub open spec fn file_char(f: int) -> char {
    if f == 0 {
        'a'
    } else if f == 1 {
        'b'
    } else if f == 2 {
        'c'
    } else if f == 3 {
        'd'
    } else if f == 4 {
        'e'
    } else if f == 5 {
        'f'
    } else if f == 6 {
        'g'
    } else {
        'h'
    }
}

/// The digit of a rank index.
pub open spec fn rank_char(r: int) -> char {
    if r == 0 {
        '1'
    } else if r == 1 {
        '2'
    } else if r == 2 {
        '3'
    } else if r == 3 {
        '4'
    } else if r == 4 {
        '5'
    } else if r == 5 {
        '6'
    } else if r == 6 {
        '7'
    } else {
        '8'
    }
}

/// The algebraic name of a square: its file letter followed by its rank
/// digit.
pub open spec fn square_name(sq: Square) -> Seq<char> {
    seq![file_char(sq.file as int), rank_char(sq.rank as int)]
}

/// Parses an algebraic square name. Returns the named square for a
/// two-character file-letter-then-rank-digit name (the letter may be
/// either case) and `InvalidNotation` for any other text.
pub fn pos_from_string(s: &str) -> (r: Result<Square, MoveError>)
    ensures
        match r {
            Ok(sq) => parsed_square(s@) == Some(sq) && sq.wf(),
            Err(e) => parsed_square(s@) is None && e == MoveError::InvalidNotation,
        },
{
    if s.unicode_len() != 2 {
        return Err(MoveError::InvalidNotation);
    }
    let c0 = s.get_char(0);
    let c1 = s.get_char(1);
    let fo = file_index(c0);
    let ro = rank_index(c1);
    match (fo, ro) {
        (Some(f), Some(r)) => Ok(Square { file: f, rank: r }),
        _ => Err(MoveError::InvalidNotation),
    }
}

/// The file index of a letter, mirroring `file_index_of_char`.
fn file_index(c: char) -> (r: Option<u8>)
    ensures
        r == file_index_of_char(c),
{
    if c == 'a' || c == 'A' {
        Some(0u8)
    } else if c == 'b' || c == 'B' {
        Some(1u8)
    } else if c == 'c' || c == 'C' {
        Some(2u8)
    } else if c == 'd' || c == 'D' {
        Some(3u8)
    } else if c == 'e' || c == 'E' {
        Some(4u8)
    } else if c == 'f' || c == 'F' {
        Some(5u8)
    } else if c == 'g' || c == 'G' {
        Some(6u8)
    } else if c == 'h' || c == 'H' {
        Some(7u8)
    } else {
        None
    }
}

/// The rank index of a digit, mirroring `rank_index_of_char`.
fn rank_index(c: char) -> (r: Option<u8>)
    ensures
        r == rank_index_of_char(c),
{
    if c == '1' {
        Some(0u8)
    } else if c == '2' {
        Some(1u8)
    } else if c == '3' {
        Some(2u8)
    } else if c == '4' {
        Some(3u8)
    } else if c == '5' {
        Some(4u8)
    } else if c == '6' {
        Some(5u8)
    } else if c == '7' {
        Some(6u8)
    } else if c == '8' {
        Some(7u8)
    } else {
        None
    }
}

/// The lowercase file letter as text.
fn file_text(f: u8) -> (r: &'static str)
    requires
        f < 8,
    ensures
        r@ =~= seq![file_char(f as int)],
{
    proof {
        reveal_strlit("a");
        reveal_strlit("b");
        reveal_strlit("c");
        reveal_strlit("d");
        reveal_strlit("e");
        reveal_strlit("f");
        reveal_strlit("g");
        reveal_strlit("h");
    }
    if f == 0 {
        "a"
    } else if f == 1 {
        "b"
    } else if f == 2 {
        "c"
    } else if f == 3 {
        "d"
    } else if f == 4 {
        "e"
    } else if f == 5 {
        "f"
    } else if f == 6 {
        "g"
    } else {
        "h"
    }
}

/// The rank digit as text.
pub(crate) fn rank_text(r: u8) -> (t: &'static str)
    requires
        r < 8,
    ensures
        t@ =~= seq![rank_char(r as int)],
{
    proof {
        reveal_strlit("1");
        reveal_strlit("2");
        reveal_strlit("3");
        reveal_strlit("4");
        reveal_strlit("5");
        reveal_strlit("6");
        reveal_strlit("7");
        reveal_strlit("8");
    }
    if r == 0 {
        "1"
    } else if r == 1 {
        "2"
    } else if r == 2 {
        "3"
    } else if r == 3 {
        "4"
    } else if r == 4 {
        "5"
    } else if r == 5 {
        "6"
    } else if r == 6 {
        "7"
    } else {
        "8"
    }
}

/// Formats a square as its algebraic name, the inverse of
/// `pos_from_string` on every valid square.
pub fn pos_to_string(sq: Square) -> (r: String)
    requires
        sq.wf(),
    ensures
        r@ == square_name(sq),
{
    let mut r = String::from_str(file_text(sq.file));
    r.append(rank_text(sq.rank));
    proof {
        assert(r@ =~= square_name(sq));
    }
    r
}

/// Square names are distinct: two valid squares with the same name are the
/// same square.
pub proof fn lemma_square_name_injective(a: Square, b: Square)
    requires
        a.wf(),
        b.wf(),
        square_name(a) == square_name(b),
    ensures
        a == b,
{
    assert(square_name(a)[0] == square_name(b)[0]);
    assert(square_name(a)[1] == square_name(b)[1]);
}

/// Round trip: parsing the printed name of any of the 64 squares yields
/// that square back.
pub proof fn lemma_square_name_roundtrip(sq: Square)
    requires
        sq.wf(),
    ensures
        parsed_square(square_name(sq)) == Some(sq),
{
    assert(parsed_square(square_name(sq)) == Some(sq));
}

} // verus!
