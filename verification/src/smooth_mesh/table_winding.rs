//! How the triangles of the case table are wound.
//!
//! On each face of a cell the border of its triangles runs along segments that cut
//! off the outside corners of the face, and every triangle is seen counter-clockwise
//! from the outside.

use vstd::prelude::*;

use crate::smooth_mesh::closed::{lemma_turns_concat, step, turns};
use crate::smooth_mesh::crossing::{corner_off, edge_ends};
use crate::smooth_mesh::marching_tables::{row_edges, tri_edges, tri_row};
use crate::smooth_mesh::table_soundness::{
    digit_crosses, lemma_digit_crosses, lemma_row_sound, lemma_rows, pattern_bit, row_sound,
    triangle_sound,
};

verus! {

/// Corner `i` of face `k` of a cell, counter-clockwise as seen from outside the cell.
/// The faces are the low and the high one along each axis in turn.
pub open spec fn face_corner(k: int, i: int) -> int {
    if k == 0 {
        if i == 0 {
            0
        } else if i == 1 {
            4
        } else if i == 2 {
            7
        } else {
            3
        }
    } else if k == 1 {
        if i == 0 {
            1
        } else if i == 1 {
            2
        } else if i == 2 {
            6
        } else {
            5
        }
    } else if k == 2 {
        if i == 0 {
            0
        } else if i == 1 {
            1
        } else if i == 2 {
            5
        } else {
            4
        }
    } else if k == 3 {
        if i == 0 {
            3
        } else if i == 1 {
            7
        } else if i == 2 {
            6
        } else {
            2
        }
    } else if k == 4 {
        if i == 0 {
            0
        } else if i == 1 {
            3
        } else if i == 2 {
            2
        } else {
            1
        }
    } else {
        if i == 0 {
            4
        } else if i == 1 {
            5
        } else if i == 2 {
            6
        } else {
            7
        }
    }
}

/// Edge of the cell along side `i` of face `k`: from its corner `i` to the next.
pub open spec fn face_edge(k: int, i: int) -> int {
    if k == 0 {
        if i == 0 {
            8
        } else if i == 1 {
            7
        } else if i == 2 {
            11
        } else {
            3
        }
    } else if k == 1 {
        if i == 0 {
            1
        } else if i == 1 {
            10
        } else if i == 2 {
            5
        } else {
            9
        }
    } else if k == 2 {
        if i == 0 {
            0
        } else if i == 1 {
            9
        } else if i == 2 {
            4
        } else {
            8
        }
    } else if k == 3 {
        if i == 0 {
            11
        } else if i == 1 {
            6
        } else if i == 2 {
            10
        } else {
            2
        }
    } else if k == 4 {
        if i == 0 {
            3
        } else if i == 1 {
            2
        } else if i == 2 {
            1
        } else {
            0
        }
    } else {
        if i == 0 {
            4
        } else if i == 1 {
            5
        } else if i == 2 {
            6
        } else {
            7
        }
    }
}

/// One where the segment that starts on side `s0` is the one from `e` to `f`. The
/// side runs from an outside to an inside corner, and the segment goes back round
/// the outside corners before it, to the side where they begin: `s3` where the
/// corner before is inside, else `s2`, else `s1`. The other arguments tell which of
/// the four corners, from the first of side `s0` on, are outside.
pub open spec fn segment(
    o0: bool,
    o1: bool,
    o2: bool,
    o3: bool,
    s0: int,
    s1: int,
    s2: int,
    s3: int,
    e: int,
    f: int,
) -> int {
    if o0 && !o1 && s0 == e && (if !o3 {
        s3
    } else if !o2 {
        s2
    } else {
        s1
    }) == f {
        1
    } else {
        0
    }
}

/// Segments from `e` to `f` on a face with the given outside corners and sides.
pub open spec fn ring_segments(
    o0: bool,
    o1: bool,
    o2: bool,
    o3: bool,
    s0: int,
    s1: int,
    s2: int,
    s3: int,
    e: int,
    f: int,
) -> int {
    segment(o0, o1, o2, o3, s0, s1, s2, s3, e, f) + segment(o1, o2, o3, o0, s1, s2, s3, s0, e, f)
        + segment(o2, o3, o0, o1, s2, s3, s0, s1, e, f) + segment(
        o3,
        o0,
        o1,
        o2,
        s3,
        s0,
        s1,
        s2,
        e,
        f,
    )
}

/// Segments from edge `e` to edge `f` on face `k` of a cell of a corner pattern.
pub open spec fn face_segments(pattern: int, k: int, e: int, f: int) -> int {
    ring_segments(
        pattern_bit(pattern, face_corner(k, 0)) == 1,
        pattern_bit(pattern, face_corner(k, 1)) == 1,
        pattern_bit(pattern, face_corner(k, 2)) == 1,
        pattern_bit(pattern, face_corner(k, 3)) == 1,
        face_edge(k, 0),
        face_edge(k, 1),
        face_edge(k, 2),
        face_edge(k, 3),
        e,
        f,
    )
}

/// Segments from edge `e` to edge `f` on the faces of a cell of a corner pattern.
pub open spec fn border_segments(pattern: int, e: int, f: int) -> int {
    face_segments(pattern, 0, e, f) + face_segments(pattern, 1, e, f) + face_segments(
        pattern,
        2,
        e,
        f,
    ) + face_segments(pattern, 3, e, f) + face_segments(pattern, 4, e, f) + face_segments(
        pattern,
        5,
        e,
        f,
    )
}

spec fn outside_bit(p: u64, c: u64) -> bool {
    (p >> c) & 1 == 1
}

/// Segments between the edges of two digits, on all faces.
spec fn digit_segments(p: u64, e: u64, f: u64) -> int {
    ring_segments(
        outside_bit(p, 0),
        outside_bit(p, 4),
        outside_bit(p, 7),
        outside_bit(p, 3),
        9,
        8,
        12,
        4,
        e as int,
        f as int,
    ) + ring_segments(
        outside_bit(p, 1),
        outside_bit(p, 2),
        outside_bit(p, 6),
        outside_bit(p, 5),
        2,
        11,
        6,
        10,
        e as int,
        f as int,
    ) + ring_segments(
        outside_bit(p, 0),
        outside_bit(p, 1),
        outside_bit(p, 5),
        outside_bit(p, 4),
        1,
        10,
        5,
        9,
        e as int,
        f as int,
    ) + ring_segments(
        outside_bit(p, 3),
        outside_bit(p, 7),
        outside_bit(p, 6),
        outside_bit(p, 2),
        12,
        7,
        11,
        3,
        e as int,
        f as int,
    ) + ring_segments(
        outside_bit(p, 0),
        outside_bit(p, 3),
        outside_bit(p, 2),
        outside_bit(p, 1),
        4,
        3,
        2,
        1,
        e as int,
        f as int,
    ) + ring_segments(
        outside_bit(p, 4),
        outside_bit(p, 5),
        outside_bit(p, 6),
        outside_bit(p, 7),
        5,
        6,
        7,
        8,
        e as int,
        f as int,
    )
}

/// Steps from digit `e` to digit `f` round the triangle in the lowest three digits.
spec fn triangle_steps(row: u64, e: u64, f: u64) -> int {
    let n0 = row & 15;
    let n1 = (row >> 4) & 15;
    let n2 = (row >> 8) & 15;
    step(n0 as int, n1 as int, e as int, f as int) + step(n1 as int, n2 as int, e as int, f as int)
        + step(n2 as int, n0 as int, e as int, f as int)
}

/// Steps from digit `e` to digit `f` round the five triangles of a row.
spec fn row_steps(row: u64, e: u64, f: u64) -> int {
    triangle_steps(row, e, f) + triangle_steps(row >> 12, e, f) + triangle_steps(row >> 24, e, f)
        + triangle_steps(row >> 36, e, f) + triangle_steps(row >> 48, e, f)
}

/// The border of the triangles of a row is made of the segments on the faces.
spec fn row_winds(row: u64, p: u64, e: u64, f: u64) -> bool {
    row_steps(row, e, f) + digit_segments(p, f, e) == row_steps(row, f, e) + digit_segments(p, e, f)
}

/// Product of the cross product of `u` and `v` with `d`.
#[verifier::opaque]
pub open spec fn triple(u: (int, int, int), v: (int, int, int), d: (int, int, int)) -> int {
    (u.1 * v.2 - u.2 * v.1) * d.0 + (u.2 * v.0 - u.0 * v.2) * d.1 + (u.0 * v.1 - u.1 * v.0) * d.2
}

/// Product of the normal of the triangle `a`, `b`, `c`, wound in that order, with
/// the direction `d`.
pub open spec fn normal_product(
    a: (int, int, int),
    b: (int, int, int),
    c: (int, int, int),
    d: (int, int, int),
) -> int {
    triple((b.0 - a.0, b.1 - a.1, b.2 - a.2), (c.0 - a.0, c.1 - a.1, c.2 - a.2), d)
}

/// Sum of three directions.
pub open spec fn sum_of(
    a: (int, int, int),
    b: (int, int, int),
    c: (int, int, int),
) -> (int, int, int) {
    (a.0 + b.0 + c.0, a.1 + b.1 + c.1, a.2 + b.2 + c.2)
}

/// One where the low end of the edge of a digit is inside, minus one where it is outside.
spec fn digit_heading(p: u64, n: u64) -> int {
    if (n == 1 && outside_bit(p, 0)) || (n == 2 && outside_bit(p, 1))
        || (n == 3 && outside_bit(p, 3)) || (n == 4 && outside_bit(p, 0))
        || (n == 5 && outside_bit(p, 4)) || (n == 6 && outside_bit(p, 5))
        || (n == 7 && outside_bit(p, 7)) || (n == 8 && outside_bit(p, 4))
        || (n == 9 && outside_bit(p, 0)) || (n == 10 && outside_bit(p, 1))
        || (n == 11 && outside_bit(p, 2)) || (n == 12 && outside_bit(p, 3)) {
        -1
    } else {
        1
    }
}

/// Coordinate `x` of the middle of the edge of a digit, in halves.
spec fn digit_x(n: u64) -> int {
    if n == 1 || n == 3 || n == 5 || n == 7 {
        1
    } else if n == 2 || n == 6 || n == 10 || n == 11 {
        2
    } else {
        0
    }
}

/// Component `x` of the direction from filled to empty on the edge of a digit.
spec fn digit_dx(p: u64, n: u64) -> int {
    if n == 1 || n == 3 || n == 5 || n == 7 {
        digit_heading(p, n)
    } else {
        0
    }
}

/// Coordinate `y` of the middle of the edge of a digit, in halves.
spec fn digit_y(n: u64) -> int {
    if n == 2 || n == 4 || n == 6 || n == 8 {
        1
    } else if n == 3 || n == 7 || n == 11 || n == 12 {
        2
    } else {
        0
    }
}

/// Component `y` of the direction from filled to empty on the edge of a digit.
spec fn digit_dy(p: u64, n: u64) -> int {
    if n == 2 || n == 4 || n == 6 || n == 8 {
        digit_heading(p, n)
    } else {
        0
    }
}

/// Coordinate `z` of the middle of the edge of a digit, in halves.
spec fn digit_z(n: u64) -> int {
    if n == 9 || n == 10 || n == 11 || n == 12 {
        1
    } else if n == 5 || n == 6 || n == 7 || n == 8 {
        2
    } else {
        0
    }
}

/// Component `z` of the direction from filled to empty on the edge of a digit.
spec fn digit_dz(p: u64, n: u64) -> int {
    if n == 9 || n == 10 || n == 11 || n == 12 {
        digit_heading(p, n)
    } else {
        0
    }
}

/// Product of the normal of the triangle through the middles of three digits' edges
/// with the sum of the directions from filled to empty on them.
spec fn digits_product(p: u64, n0: u64, n1: u64, n2: u64) -> int {
    let (ax, ay, az) = (digit_x(n0), digit_y(n0), digit_z(n0));
    let (bx, by, bz) = (digit_x(n1) - ax, digit_y(n1) - ay, digit_z(n1) - az);
    let (cx, cy, cz) = (digit_x(n2) - ax, digit_y(n2) - ay, digit_z(n2) - az);
    (by * cz - bz * cy) * (digit_dx(p, n0) + digit_dx(p, n1) + digit_dx(p, n2)) + (bz * cx - bx
        * cz) * (digit_dy(p, n0) + digit_dy(p, n1) + digit_dy(p, n2)) + (bx * cy - by * cx) * (
    digit_dz(p, n0) + digit_dz(p, n1) + digit_dz(p, n2))
}

/// The triangle in the lowest three digits, if there is one, is seen counter-clockwise
/// from the side that its edges leave to.
spec fn triangle_faces(row: u64, p: u64) -> bool {
    row & 15 == 0 || digits_product(p, row & 15, (row >> 4) & 15, (row >> 8) & 15) > 0
}

/// Every triangle of a row is seen counter-clockwise from outside.
spec fn row_faces(row: u64, p: u64) -> bool {
    triangle_faces(row, p) && triangle_faces(row >> 12, p) && triangle_faces(row >> 24, p)
        && triangle_faces(row >> 36, p) && triangle_faces(row >> 48, p)
}

/// How a row is wound: the border of its triangles, and the side they face.
spec fn row_wound(row: u64, p: u64, e: u64, f: u64) -> bool {
    row_winds(row, p, e, f) && row_faces(row, p)
}

proof fn lemma_winds_0(p: u64, e: u64, f: u64)
    requires
        0 <= p < 16,
        0 < e <= 12,
        0 < f <= 12,
    ensures
        row_wound(tri_row(p as int), p, e, f),
{
    reveal(tri_row);
    assert(row_wound(0x0, 0, e, f)
        && row_wound(0x491, 1, e, f)
        && row_wound(0xa21, 2, e, f)
        && row_wound(0x29a492, 3, e, f)
        && row_wound(0xb32, 4, e, f)
        && row_wound(0xb32491, 5, e, f)
        && row_wound(0xa31b3a, 6, e, f)
        && row_wound(0x9ab9b3493, 7, e, f)
        && row_wound(0x3c4, 8, e, f)
        && row_wound(0x1c93c1, 9, e, f)
        && row_wound(0xc431a2, 10, e, f)
        && row_wound(0xc9aca23c2, 11, e, f)
        && row_wound(0x4bc2b4, 12, e, f)
        && row_wound(0xbc9b912b1, 13, e, f)
        && row_wound(0xabcac41a4, 14, e, f)
        && row_wound(0xc9bb9a, 15, e, f)) by (bit_vector)
        requires
            0 < e <= 12,
            0 < f <= 12,
    ;
}

proof fn lemma_winds_1(p: u64, e: u64, f: u64)
    requires
        16 <= p < 32,
        0 < e <= 12,
        0 < f <= 12,
    ensures
        row_wound(tri_row(p as int), p, e, f),
{
    reveal(tri_row);
    assert(row_wound(0x985, 16, e, f)
        && row_wound(0x548145, 17, e, f)
        && row_wound(0x859a21, 18, e, f)
        && row_wound(0x248285a25, 19, e, f)
        && row_wound(0x859b32, 20, e, f)
        && row_wound(0xb32514854, 21, e, f)
        && row_wound(0x85931ab3a, 22, e, f)
        && row_wound(0x5a84838a3ab3, 23, e, f)
        && row_wound(0x3c4859, 24, e, f)
        && row_wound(0x51353c85c, 25, e, f)
        && row_wound(0xc4385921a, 26, e, f)
        && row_wound(0x23a3cac5ac85, 27, e, f)
        && row_wound(0x598bc42b4, 28, e, f)
        && row_wound(0x5c8512c52bc2, 29, e, f)
        && row_wound(0x41cbcac1a985, 30, e, f)
        && row_wound(0xbcaac5c85, 31, e, f)) by (bit_vector)
        requires
            0 < e <= 12,
            0 < f <= 12,
    ;
}

proof fn lemma_winds_2(p: u64, e: u64, f: u64)
    requires
        32 <= p < 48,
        0 < e <= 12,
        0 < f <= 12,
    ensures
        row_wound(tri_row(p as int), p, e, f),
{
    reveal(tri_row);
    assert(row_wound(0x56a, 32, e, f)
        && row_wound(0x49156a, 33, e, f)
        && row_wound(0x162561, 34, e, f)
        && row_wound(0x624649569, 35, e, f)
        && row_wound(0x56ab32, 36, e, f)
        && row_wound(0x6a5b32914, 37, e, f)
        && row_wound(0x315356b36, 38, e, f)
        && row_wound(0x9545646346b3, 39, e, f)
        && row_wound(0xc4356a, 40, e, f)
        && row_wound(0x6a5c913c1, 41, e, f)
        && row_wound(0xc43621561, 42, e, f)
        && row_wound(0x695c93963623, 43, e, f)
        && row_wound(0x56a42bc4b, 44, e, f)
        && row_wound(0xbc92b92916a5, 45, e, f)
        && row_wound(0x41cbc6c16156, 46, e, f)
        && row_wound(0xc9bb96956, 47, e, f)) by (bit_vector)
        requires
            0 < e <= 12,
            0 < f <= 12,
    ;
}

proof fn lemma_winds_3(p: u64, e: u64, f: u64)
    requires
        48 <= p < 64,
        0 < e <= 12,
        0 < f <= 12,
    ensures
        row_wound(tri_row(p as int), p, e, f),
{
    reveal(tri_row);
    assert(row_wound(0xa8698a, 48, e, f)
        && row_wound(0x48646a14a, 49, e, f)
        && row_wound(0x862821981, 50, e, f)
        && row_wound(0x864462, 51, e, f)
        && row_wound(0x32b86a98a, 52, e, f)
        && row_wound(0x48614616a32b, 53, e, f)
        && row_wound(0x36b869639319, 54, e, f)
        && row_wound(0x8644636b3, 55, e, f)
        && row_wound(0x3c4a986a8, 56, e, f)
        && row_wound(0xc8313a38a86a, 57, e, f)
        && row_wound(0x862982921c43, 58, e, f)
        && row_wound(0x62882c23c, 59, e, f)
        && row_wound(0xc4b42b86996a, 60, e, f)
        && row_wound(0x1bcb121c8a16186, 61, e, f)
        && row_wound(0x18681916b41c1bc, 62, e, f)
        && row_wound(0x6c86bc, 63, e, f)) by (bit_vector)
        requires
            0 < e <= 12,
            0 < f <= 12,
    ;
}

proof fn lemma_winds_4(p: u64, e: u64, f: u64)
    requires
        64 <= p < 80,
        0 < e <= 12,
        0 < f <= 12,
    ensures
        row_wound(tri_row(p as int), p, e, f),
{
    reveal(tri_row);
    assert(row_wound(0x67b, 64, e, f)
        && row_wound(0x7b6491, 65, e, f)
        && row_wound(0x7b621a, 66, e, f)
        && row_wound(0x7b69a2492, 67, e, f)
        && row_wound(0x273672, 68, e, f)
        && row_wound(0x914732672, 69, e, f)
        && row_wound(0x73171a67a, 70, e, f)
        && row_wound(0x9347363969a6, 71, e, f)
        && row_wound(0x67bc43, 72, e, f)
        && row_wound(0x67b13c91c, 73, e, f)
        && row_wound(0x7b6c43a21, 74, e, f)
        && row_wound(0xc9a3ca3a27b6, 75, e, f)
        && row_wound(0x426467c47, 76, e, f)
        && row_wound(0x7c62616c1c91, 77, e, f)
        && row_wound(0xa616717417c4, 78, e, f)
        && row_wound(0x9acca7a67, 79, e, f)) by (bit_vector)
        requires
            0 < e <= 12,
            0 < f <= 12,
    ;
}

proof fn lemma_winds_5(p: u64, e: u64, f: u64)
    requires
        80 <= p < 96,
        0 < e <= 12,
        0 < f <= 12,
    ensures
        row_wound(tri_row(p as int), p, e, f),
{
    reveal(tri_row);
    assert(row_wound(0x9857b6, 80, e, f)
        && row_wound(0xb67485145, 81, e, f)
        && row_wound(0x8597b61a2, 82, e, f)
        && row_wound(0x5a84828a267b, 83, e, f)
        && row_wound(0x985267327, 84, e, f)
        && row_wound(0x854514736632, 85, e, f)
        && row_wound(0x73167161a859, 86, e, f)
        && row_wound(0xa737a6a345a8a48, 87, e, f)
        && row_wound(0x67b5983c4, 88, e, f)
        && row_wound(0xc831353857b6, 89, e, f)
        && row_wound(0x7b6c43985a21, 90, e, f)
        && row_wound(0x7b65c8c5a3ca23a, 91, e, f)
        && row_wound(0x7c62646c4859, 92, e, f)
        && row_wound(0xc515c8c127c6c26, 93, e, f)
        && row_wound(0x85947c741671a61, 94, e, f)
        && row_wound(0xac8a85ca7a67, 95, e, f)) by (bit_vector)
        requires
            0 < e <= 12,
            0 < f <= 12,
    ;
}

proof fn lemma_winds_6(p: u64, e: u64, f: u64)
    requires
        96 <= p < 112,
        0 < e <= 12,
        0 < f <= 12,
    ensures
        row_wound(tri_row(p as int), p, e, f),
{
    reveal(tri_row);
    assert(row_wound(0xb57a5b, 96, e, f)
        && row_wound(0x491ba57b5, 97, e, f)
        && row_wound(0x15717b21b, 98, e, f)
        && row_wound(0xb27579729249, 99, e, f)
        && row_wound(0x573532a52, 100, e, f)
        && row_wound(0x573a53a32914, 101, e, f)
        && row_wound(0x735531, 102, e, f)
        && row_wound(0x735539349, 103, e, f)
        && row_wound(0x43c57ba5b, 104, e, f)
        && row_wound(0x7b5ba5c93391, 105, e, f)
        && row_wound(0xb275717213c4, 106, e, f)
        && row_wound(0x2c9c23295b27257, 107, e, f)
        && row_wound(0x47c42a74a57a, 108, e, f)
        && row_wound(0x25752a27c1292c9, 109, e, f)
        && row_wound(0x5711747c4, 110, e, f)
        && row_wound(0x97c957, 111, e, f)) by (bit_vector)
        requires
            0 < e <= 12,
            0 < f <= 12,
    ;
}

proof fn lemma_winds_7(p: u64, e: u64, f: u64)
    requires
        112 <= p < 128,
        0 < e <= 12,
        0 < f <= 12,
    ensures
        row_wound(tri_row(p as int), p, e, f),
{
    reveal(tri_row);
    assert(row_wound(0xba9b987b8, 112, e, f)
        && row_wound(0xb87ba18b1481, 113, e, f)
        && row_wound(0x1929828b287b, 114, e, f)
        && row_wound(0x48228b87b, 115, e, f)
        && row_wound(0x879a92972732, 116, e, f)
        && row_wound(0xa484a1a872a3a73, 117, e, f)
        && row_wound(0x317718198, 118, e, f)
        && row_wound(0x387348, 119, e, f)
        && row_wound(0x879a9b97bc43, 120, e, f)
        && row_wound(0x8bab878a1c83813, 121, e, f)
        && row_wound(0xc43b878b2982192, 122, e, f)
        && row_wound(0x28727b82c23c, 123, e, f)
        && row_wound(0x74247c72a8797a9, 124, e, f)
        && row_wound(0x87c2a1, 125, e, f)
        && row_wound(0x17c1c4718198, 126, e, f)
        && row_wound(0x7c8, 127, e, f)) by (bit_vector)
        requires
            0 < e <= 12,
            0 < f <= 12,
    ;
}

proof fn lemma_winds_8(p: u64, e: u64, f: u64)
    requires
        128 <= p < 144,
        0 < e <= 12,
        0 < f <= 12,
    ensures
        row_wound(tri_row(p as int), p, e, f),
{
    reveal(tri_row);
    assert(row_wound(0xc78, 128, e, f)
        && row_wound(0x78c914, 129, e, f)
        && row_wound(0x78ca21, 130, e, f)
        && row_wound(0x78c249a29, 131, e, f)
        && row_wound(0x8c732b, 132, e, f)
        && row_wound(0x8c7914b32, 133, e, f)
        && row_wound(0x8c7ab31a3, 134, e, f)
        && row_wound(0x9ab49b4b38c7, 135, e, f)
        && row_wound(0x837438, 136, e, f)
        && row_wound(0x137178918, 137, e, f)
        && row_wound(0xa21843783, 138, e, f)
        && row_wound(0x7899a2792372, 139, e, f)
        && row_wound(0x84282b78b, 140, e, f)
        && row_wound(0x912892b8278b, 141, e, f)
        && row_wound(0x8b7ab1b81841, 142, e, f)
        && row_wound(0xab99b8b78, 143, e, f)) by (bit_vector)
        requires
            0 < e <= 12,
            0 < f <= 12,
    ;
}

proof fn lemma_winds_9(p: u64, e: u64, f: u64)
    requires
        144 <= p < 160,
        0 < e <= 12,
        0 < f <= 12,
    ensures
        row_wound(tri_row(p as int), p, e, f),
{
    reveal(tri_row);
    assert(row_wound(0x79c597, 144, e, f)
        && row_wound(0x751714c74, 145, e, f)
        && row_wound(0x21a759c79, 146, e, f)
        && row_wound(0x74c24a47a75a, 147, e, f)
        && row_wound(0x2b39c7597, 148, e, f)
        && row_wound(0x751c71c14b32, 149, e, f)
        && row_wound(0xab3a31c759c5, 150, e, f)
        && row_wound(0x47574c45a34b4ab, 151, e, f)
        && row_wound(0x375359439, 152, e, f)
        && row_wound(0x375351, 153, e, f)
        && row_wound(0x9457535431a2, 154, e, f)
        && row_wound(0x7533525a2, 155, e, f)
        && row_wound(0x2b7759279429, 156, e, f)
        && row_wound(0x51771b12b, 157, e, f)
        && row_wound(0x4aba414b7945475, 158, e, f)
        && row_wound(0x5b75ab, 159, e, f)) by (bit_vector)
        requires
            0 < e <= 12,
            0 < f <= 12,
    ;
}

proof fn lemma_winds_10(p: u64, e: u64, f: u64)
    requires
        160 <= p < 176,
        0 < e <= 12,
        0 < f <= 12,
    ensures
        row_wound(tri_row(p as int), p, e, f),
{
    reveal(tri_row);
    assert(row_wound(0xc786a5, 160, e, f)
        && row_wound(0x78c6a5491, 161, e, f)
        && row_wound(0xc78156216, 162, e, f)
        && row_wound(0x62456454978c, 163, e, f)
        && row_wound(0xc7832b56a, 164, e, f)
        && row_wound(0x6a5491b328c7, 165, e, f)
        && row_wound(0x315b35b56c78, 166, e, f)
        && row_wound(0x78c36b634564954, 167, e, f)
        && row_wound(0xa56378438, 168, e, f)
        && row_wound(0x89737179156a, 169, e, f)
        && row_wound(0x156162784374, 170, e, f)
        && row_wound(0x962695923897937, 171, e, f)
        && row_wound(0x84278272b56a, 172, e, f)
        && row_wound(0x56a189812782b72, 173, e, f)
        && row_wound(0xb848b7b416b5b15, 174, e, f)
        && row_wound(0xb95b569b8b78, 175, e, f)) by (bit_vector)
        requires
            0 < e <= 12,
            0 < f <= 12,
    ;
}

proof fn lemma_winds_11(p: u64, e: u64, f: u64)
    requires
        176 <= p < 192,
        0 < e <= 12,
        0 < f <= 12,
    ensures
        row_wound(tri_row(p as int), p, e, f),
{
    reveal(tri_row);
    assert(row_wound(0xa9cac76a7, 176, e, f)
        && row_wound(0x6a1761471c74, 177, e, f)
        && row_wound(0xc76621c619c1, 178, e, f)
        && row_wound(0x2466474c7, 179, e, f)
        && row_wound(0x76c9cac6ab32, 180, e, f)
        && row_wound(0xb32a767a1c714c1, 181, e, f)
        && row_wound(0x63136b61976c69c, 182, e, f)
        && row_wound(0x46b4b36474c7, 183, e, f)
        && row_wound(0x394376936a96, 184, e, f)
        && row_wound(0x37117a76a, 185, e, f)
        && row_wound(0x937394976192962, 186, e, f)
        && row_wound(0x723762, 187, e, f)
        && row_wound(0x7a9a76794b72742, 188, e, f)
        && row_wound(0x17616a71b12b, 189, e, f)
        && row_wound(0xb76941, 190, e, f)
        && row_wound(0x76b, 191, e, f)) by (bit_vector)
        requires
            0 < e <= 12,
            0 < f <= 12,
    ;
}

proof fn lemma_winds_12(p: u64, e: u64, f: u64)
    requires
        192 <= p < 208,
        0 < e <= 12,
        0 < f <= 12,
    ensures
        row_wound(tri_row(p as int), p, e, f),
{
    reveal(tri_row);
    assert(row_wound(0xc68b6c, 192, e, f)
        && row_wound(0x14968cb6c, 193, e, f)
        && row_wound(0x1a2cb68c6, 194, e, f)
        && row_wound(0x24929a8cb68b, 195, e, f)
        && row_wound(0x26828c32c, 196, e, f)
        && row_wound(0xc38682832491, 197, e, f)
        && row_wound(0x8c331a83a68a, 198, e, f)
        && row_wound(0x39a9343a6c38368, 199, e, f)
        && row_wound(0x684643b63, 200, e, f)
        && row_wound(0x63b689369139, 201, e, f)
        && row_wound(0x3b48464b621a, 202, e, f)
        && row_wound(0x36863b38923a39a, 203, e, f)
        && row_wound(0x684642, 204, e, f)
        && row_wound(0x682281891, 205, e, f)
        && row_wound(0x84664a41a, 206, e, f)
        && row_wound(0x8a689a, 207, e, f)) by (bit_vector)
        requires
            0 < e <= 12,
            0 < f <= 12,
    ;
}

proof fn lemma_winds_13(p: u64, e: u64, f: u64)
    requires
        208 <= p < 224,
        0 < e <= 12,
        0 < f <= 12,
    ensures
        row_wound(tri_row(p as int), p, e, f),
{
    reveal(tri_row);
    assert(row_wound(0x9cb9b6596, 208, e, f)
        && row_wound(0x14ccb61c6516, 209, e, f)
        && row_wound(0x65bcb9b59a21, 210, e, f)
        && row_wound(0x52425a54c65b5cb, 211, e, f)
        && row_wound(0x9659c3693263, 212, e, f)
        && row_wound(0xc262c3c654c1c51, 213, e, f)
        && row_wound(0x69c9656c3a61631, 214, e, f)
        && row_wound(0x4c365a, 215, e, f)
        && row_wound(0x594654364b63, 216, e, f)
        && row_wound(0x1355363b6, 217, e, f)
        && row_wound(0xa21965694b643b4, 218, e, f)
        && row_wound(0x35a3a25363b6, 219, e, f)
        && row_wound(0x264469659, 220, e, f)
        && row_wound(0x612651, 221, e, f)
        && row_wound(0x64161a469659, 222, e, f)
        && row_wound(0x65a, 223, e, f)) by (bit_vector)
        requires
            0 < e <= 12,
            0 < f <= 12,
    ;
}

proof fn lemma_winds_14(p: u64, e: u64, f: u64)
    requires
        224 <= p < 240,
        0 < e <= 12,
        0 < f <= 12,
    ensures
        row_wound(tri_row(p as int), p, e, f),
{
    reveal(tri_row);
    assert(row_wound(0xcbaca58c5, 224, e, f)
        && row_wound(0xcba8ca8a5491, 225, e, f)
        && row_wound(0xc581525c2cb2, 226, e, f)
        && row_wound(0x5cbc585b2954524, 227, e, f)
        && row_wound(0x32ac3a5ca8c5, 228, e, f)
        && row_wound(0x4912c3c2a8ca58a, 229, e, f)
        && row_wound(0x15335c58c, 230, e, f)
        && row_wound(0x53454935c58c, 231, e, f)
        && row_wound(0xa58843a83ba3, 232, e, f)
        && row_wound(0x81318983b58a8ba, 233, e, f)
        && row_wound(0xb151b2b583b4b84, 234, e, f)
        && row_wound(0x5893b2, 235, e, f)
        && row_wound(0x4288252a5, 236, e, f)
        && row_wound(0x2892918252a5, 237, e, f)
        && row_wound(0x458415, 238, e, f)
        && row_wound(0x895, 239, e, f)) by (bit_vector)
        requires
            0 < e <= 12,
            0 < f <= 12,
    ;
}

proof fn lemma_winds_15(p: u64, e: u64, f: u64)
    requires
        240 <= p < 256,
        0 < e <= 12,
        0 < f <= 12,
    ensures
        row_wound(tri_row(p as int), p, e, f),
{
    reveal(tri_row);
    assert(row_wound(0x9cb9ba, 240, e, f)
        && row_wound(0xbacca4a14, 241, e, f)
        && row_wound(0xcb99b1b21, 242, e, f)
        && row_wound(0xb4cb24, 243, e, f)
        && row_wound(0x9caac2c32, 244, e, f)
        && row_wound(0xac3a32ca4a14, 245, e, f)
        && row_wound(0xc19c31, 246, e, f)
        && row_wound(0xc34, 247, e, f)
        && row_wound(0xa9bb93943, 248, e, f)
        && row_wound(0x3a13ba, 249, e, f)
        && row_wound(0x9b2921b93943, 250, e, f)
        && row_wound(0x3b2, 251, e, f)
        && row_wound(0x92a942, 252, e, f)
        && row_wound(0x2a1, 253, e, f)
        && row_wound(0x941, 254, e, f)
        && row_wound(0x0, 255, e, f)) by (bit_vector)
        requires
            0 < e <= 12,
            0 < f <= 12,
    ;
}

proof fn lemma_winds(p: u64, e: u64, f: u64)
    requires
        p < 256,
        0 < e <= 12,
        0 < f <= 12,
    ensures
        row_wound(tri_row(p as int), p, e, f),
{
    if p < 16 {
        lemma_winds_0(p, e, f);
    } else if p < 32 {
        lemma_winds_1(p, e, f);
    } else if p < 48 {
        lemma_winds_2(p, e, f);
    } else if p < 64 {
        lemma_winds_3(p, e, f);
    } else if p < 80 {
        lemma_winds_4(p, e, f);
    } else if p < 96 {
        lemma_winds_5(p, e, f);
    } else if p < 112 {
        lemma_winds_6(p, e, f);
    } else if p < 128 {
        lemma_winds_7(p, e, f);
    } else if p < 144 {
        lemma_winds_8(p, e, f);
    } else if p < 160 {
        lemma_winds_9(p, e, f);
    } else if p < 176 {
        lemma_winds_10(p, e, f);
    } else if p < 192 {
        lemma_winds_11(p, e, f);
    } else if p < 208 {
        lemma_winds_12(p, e, f);
    } else if p < 224 {
        lemma_winds_13(p, e, f);
    } else if p < 240 {
        lemma_winds_14(p, e, f);
    } else {
        lemma_winds_15(p, e, f);
    }
}

/// The steps round the triangles that a row lists are those of its digits.
proof fn lemma_row_steps(row: u64, p: u64, e: u64, f: u64)
    requires
        row_sound(row, p),
        0 < e <= 12,
        0 < f <= 12,
    ensures
        turns(row_edges(row as nat), e - 1, f - 1) == row_steps(row, e, f),
    decreases row,
{
    assert(row & 15 == row % 16 && (row >> 4) & 15 == row / 16 % 16 && (row >> 8) & 15 == row / 256
        % 16 && row >> 12 == row / 4096) by (bit_vector);
    assert((row == 0 ==> row_steps(row, e, f) == 0) && (row < 0x1000000000000000 ==> row_steps(
        row,
        e,
        f,
    ) == triangle_steps(row, e, f) + row_steps(row >> 12, e, f)) && (row_sound(row, p)
        ==> row_sound(row >> 12, p))) by (bit_vector)
        requires
            0 < e <= 12,
            0 < f <= 12,
    ;
    if row != 0 {
        let next = row >> 12;
        lemma_row_steps(next, p, e, f);
        lemma_row_sound(next, p);
        let r = row as nat;
        let rest = row_edges(next as nat);
        reveal_with_fuel(row_edges, 4);
        assert(r / 16 / 16 == r / 256);
        assert(r / 16 / 16 / 16 == r / 4096);
        let head = seq![r % 16 - 1, r / 16 % 16 - 1, r / 256 % 16 - 1];
        assert(row_edges(r) =~= head + rest);
        lemma_turns_concat(head, rest, e - 1, f - 1);
        assert(head.take(0) =~= Seq::<int>::empty());
        assert(turns(head.take(0), e - 1, f - 1) == 0);
    }
}

/// Counting edges from one in place of zero changes no segments.
proof fn lemma_shift(p: u64, k: int, e: u64, f: u64)
    requires
        p < 256,
        0 <= k < 6,
    ensures
        face_segments(p as int, k, e - 1, f - 1) == ring_segments(
            pattern_bit(p as int, face_corner(k, 0)) == 1,
            pattern_bit(p as int, face_corner(k, 1)) == 1,
            pattern_bit(p as int, face_corner(k, 2)) == 1,
            pattern_bit(p as int, face_corner(k, 3)) == 1,
            face_edge(k, 0) + 1,
            face_edge(k, 1) + 1,
            face_edge(k, 2) + 1,
            face_edge(k, 3) + 1,
            e as int,
            f as int,
        ),
{
}

proof fn lemma_digit_segments(p: u64, e: u64, f: u64)
    requires
        p < 256,
    ensures
        digit_segments(p, e, f) == border_segments(p as int, e - 1, f - 1),
{
    lemma_bits(p);
    lemma_shift(p, 0, e, f);
    lemma_shift(p, 1, e, f);
    lemma_shift(p, 2, e, f);
    lemma_shift(p, 3, e, f);
    lemma_shift(p, 4, e, f);
    lemma_shift(p, 5, e, f);
}

proof fn lemma_bits(p: u64)
    requires
        p < 256,
    ensures
        outside_bit(p, 0) == (pattern_bit(p as int, 0) == 1),
        outside_bit(p, 1) == (pattern_bit(p as int, 1) == 1),
        outside_bit(p, 2) == (pattern_bit(p as int, 2) == 1),
        outside_bit(p, 3) == (pattern_bit(p as int, 3) == 1),
        outside_bit(p, 4) == (pattern_bit(p as int, 4) == 1),
        outside_bit(p, 5) == (pattern_bit(p as int, 5) == 1),
        outside_bit(p, 6) == (pattern_bit(p as int, 6) == 1),
        outside_bit(p, 7) == (pattern_bit(p as int, 7) == 1),
{
    assert(((p >> 0) & 1) == p % 2 && ((p >> 1) & 1) == p / 2 % 2 && ((p >> 2) & 1) == p / 4 % 2
        && ((p >> 3) & 1) == p / 8 % 2 && ((p >> 4) & 1) == p / 16 % 2 && ((p >> 5) & 1) == p / 32
        % 2 && ((p >> 6) & 1) == p / 64 % 2 && ((p >> 7) & 1) == p / 128 % 2) by (bit_vector);
}

/// The border of the triangles of every corner pattern is made of the segments on
/// the faces of its cell: lines between two edges that do not lie on a face are
/// passed as often one way as the other, and on a face the border runs along the
/// segments that cut off the outside corners, with the outside to the right as seen
/// from outside the cell.
pub proof fn law_border_cuts_off_the_outside(pattern: int, e: int, f: int)
    requires
        0 <= pattern < 256,
        0 <= e < 12,
        0 <= f < 12,
    ensures
        turns(tri_edges(pattern), e, f) - turns(tri_edges(pattern), f, e) == border_segments(
            pattern,
            e,
            f,
        ) - border_segments(pattern, f, e),
{
    let p = pattern as u64;
    let (i, j) = ((e + 1) as u64, (f + 1) as u64);
    let row = tri_row(pattern);
    lemma_rows(p);
    lemma_winds(p, i, j);
    lemma_row_steps(row, p, i, j);
    lemma_row_steps(row, p, j, i);
    lemma_digit_segments(p, i, j);
    lemma_digit_segments(p, j, i);
}

/// Middle of edge `e` of a cell, in halves of its side.
#[verifier::opaque]
pub open spec fn edge_middle(e: int) -> (int, int, int) {
    let (a, b) = (corner_off(edge_ends(e).0), corner_off(edge_ends(e).1));
    (a.0 + b.0, a.1 + b.1, a.2 + b.2)
}

/// Direction from the inside to the outside end of edge `e`.
#[verifier::opaque]
pub open spec fn edge_outward(pattern: int, e: int) -> (int, int, int) {
    let (a, b) = (corner_off(edge_ends(e).0), corner_off(edge_ends(e).1));
    if pattern_bit(pattern, edge_ends(e).0) == 1 {
        (a.0 - b.0, a.1 - b.1, a.2 - b.2)
    } else {
        (b.0 - a.0, b.1 - a.1, b.2 - a.2)
    }
}

/// The coordinates and directions of a digit are those of its edge.
proof fn lemma_digit(p: u64, n: u64)
    requires
        p < 256,
        0 < n <= 12,
        digit_crosses(p, n),
    ensures
        edge_middle(n - 1) == (digit_x(n), digit_y(n), digit_z(n)),
        edge_outward(p as int, n - 1) == (digit_dx(p, n), digit_dy(p, n), digit_dz(p, n)),
{
    reveal(edge_middle);
    reveal(edge_outward);
    lemma_bits(p);
    lemma_digit_crosses(p, n);
    assert(0 <= pattern_bit(p as int, edge_ends(n - 1).0) <= 1);
    assert(0 <= pattern_bit(p as int, edge_ends(n - 1).1) <= 1);
    assert(n == 1 || n == 2 || n == 3 || n == 4 || n == 5 || n == 6 || n == 7 || n == 8 || n == 9
        || n == 10 || n == 11 || n == 12);
}

/// The triangles that a row lists face outward as those of its digits do.
proof fn lemma_row_faces(row: u64, p: u64, t: int)
    requires
        row_sound(row, p),
        row_faces(row, p),
        0 <= t,
        3 * t + 2 < row_edges(row as nat).len(),
    ensures
        ({
            let edges = row_edges(row as nat);
            let (a, b, c) = (edges[3 * t], edges[3 * t + 1], edges[3 * t + 2]);
            normal_product(
                edge_middle(a),
                edge_middle(b),
                edge_middle(c),
                sum_of(
                    edge_outward(p as int, a),
                    edge_outward(p as int, b),
                    edge_outward(p as int, c),
                ),
            ) > 0
        }),
    decreases row,
{
    assert(row & 15 == row % 16 && (row >> 4) & 15 == row / 16 % 16 && (row >> 8) & 15 == row / 256
        % 16 && row >> 12 == row / 4096) by (bit_vector);
    assert((row < 0x1000000000000000 && row_faces(row, p) ==> row_faces(row >> 12, p)) && (
    row_sound(row, p) ==> row_sound(row >> 12, p))) by (bit_vector);
    if row != 0 {
        let next = row >> 12;
        lemma_row_sound(next, p);
        let r = row as nat;
        let rest = row_edges(next as nat);
        reveal_with_fuel(row_edges, 4);
        assert(r / 16 / 16 == r / 256);
        assert(r / 16 / 16 / 16 == r / 4096);
        let head = seq![r % 16 - 1, r / 16 % 16 - 1, r / 256 % 16 - 1];
        let edges = row_edges(r);
        assert(edges =~= head + rest);
        if t == 0 {
            let (n0, n1, n2) = (row & 15, (row >> 4) & 15, (row >> 8) & 15);
            assert(triangle_sound(row, p));
            lemma_digit(p, n0);
            lemma_digit(p, n1);
            lemma_digit(p, n2);
            assert(digits_product(p, n0, n1, n2) > 0);
            reveal(triple);
        } else {
            let u = t - 1;
            lemma_row_faces(next, p, u);
            assert(edges[3 * t] == rest[3 * u]);
            assert(edges[3 * t + 1] == rest[3 * u + 1]);
            assert(edges[3 * t + 2] == rest[3 * u + 2]);
        }
    }
}

/// Every triangle of every corner pattern faces outward: through the middles of the
/// edges that its corners lie on, in their order, it has a normal whose product with
/// the sum of the directions from the inside to the outside ends of the three edges
/// is positive.
pub proof fn law_pattern_triangles_face_outward(pattern: int, t: int)
    requires
        0 <= pattern < 256,
        0 <= t,
        3 * t + 2 < tri_edges(pattern).len(),
    ensures
        ({
            let edges = tri_edges(pattern);
            let (a, b, c) = (edges[3 * t], edges[3 * t + 1], edges[3 * t + 2]);
            normal_product(
                edge_middle(a),
                edge_middle(b),
                edge_middle(c),
                sum_of(
                    edge_outward(pattern, a),
                    edge_outward(pattern, b),
                    edge_outward(pattern, c),
                ),
            ) > 0
        }),
{
    let p = pattern as u64;
    lemma_rows(p);
    lemma_winds(p, 1, 1);
    lemma_row_faces(tri_row(pattern), p, t);
}

} // verus!
