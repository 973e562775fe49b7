//! The case table of the marching cubes pass only uses edges that the surface crosses.

use vstd::prelude::*;

use crate::smooth_mesh::crossing::edge_ends;
use crate::smooth_mesh::marching_tables::{row_edges, tri_edges, tri_row};

verus! {

/// Bit `c` of a corner pattern: one where corner `c` is outside.
pub open spec fn pattern_bit(pattern: int, c: int) -> int {
    if c == 0 {
        pattern % 2
    } else if c == 1 {
        pattern / 2 % 2
    } else if c == 2 {
        pattern / 4 % 2
    } else if c == 3 {
        pattern / 8 % 2
    } else if c == 4 {
        pattern / 16 % 2
    } else if c == 5 {
        pattern / 32 % 2
    } else if c == 6 {
        pattern / 64 % 2
    } else {
        pattern / 128 % 2
    }
}

/// The ends of edge `e` are on different sides of the surface.
pub open spec fn crosses(pattern: int, e: int) -> bool {
    pattern_bit(pattern, edge_ends(e).0) != pattern_bit(pattern, edge_ends(e).1)
}

/// The edges are listed in threes of different edges that cross the surface.
pub open spec fn edges_sound(edges: Seq<int>, pattern: int) -> bool {
    &&& edges.len() % 3 == 0
    &&& forall|i: int|
        0 <= i < edges.len() ==> 0 <= #[trigger] edges[i] < 12 && crosses(pattern, edges[i])
    &&& forall|t: int|
        #![trigger edges[3 * t]]
        0 <= t && 3 * t + 2 < edges.len() ==> edges[3 * t] != edges[3 * t + 1] && edges[3 * t + 1]
            != edges[3 * t + 2] && edges[3 * t] != edges[3 * t + 2]
}

/// The corner bits that digit `n` of a row compares differ.
pub(crate) open spec fn digit_crosses(pattern: u64, n: u64) -> bool {
    if n == 1 {
        ((pattern >> 0) & 1) != ((pattern >> 1) & 1)
    } else if n == 2 {
        ((pattern >> 1) & 1) != ((pattern >> 2) & 1)
    } else if n == 3 {
        ((pattern >> 2) & 1) != ((pattern >> 3) & 1)
    } else if n == 4 {
        ((pattern >> 3) & 1) != ((pattern >> 0) & 1)
    } else if n == 5 {
        ((pattern >> 4) & 1) != ((pattern >> 5) & 1)
    } else if n == 6 {
        ((pattern >> 5) & 1) != ((pattern >> 6) & 1)
    } else if n == 7 {
        ((pattern >> 6) & 1) != ((pattern >> 7) & 1)
    } else if n == 8 {
        ((pattern >> 7) & 1) != ((pattern >> 4) & 1)
    } else if n == 9 {
        ((pattern >> 0) & 1) != ((pattern >> 4) & 1)
    } else if n == 10 {
        ((pattern >> 1) & 1) != ((pattern >> 5) & 1)
    } else if n == 11 {
        ((pattern >> 2) & 1) != ((pattern >> 6) & 1)
    } else {
        ((pattern >> 3) & 1) != ((pattern >> 7) & 1)
    }
}

/// The lowest three digits of a row are a triangle on crossing edges, or the row is over.
pub(crate) open spec fn triangle_sound(row: u64, pattern: u64) -> bool {
    let n0 = row & 15;
    let n1 = (row >> 4) & 15;
    let n2 = (row >> 8) & 15;
    (n0 == 0 && row == 0) || (0 < n0 <= 12 && 0 < n1 <= 12 && 0 < n2 <= 12 && n0 != n1 && n1 != n2
        && n0 != n2 && digit_crosses(pattern, n0) && digit_crosses(pattern, n1) && digit_crosses(
        pattern,
        n2,
    ))
}

/// A row of at most five triangles, each on crossing edges.
pub(crate) open spec fn row_sound(row: u64, pattern: u64) -> bool {
    pattern < 256 && row < 0x1000000000000000 && triangle_sound(row, pattern) && triangle_sound(
        row >> 12,
        pattern,
    ) && triangle_sound(row >> 24, pattern) && triangle_sound(row >> 36, pattern)
        && triangle_sound(row >> 48, pattern)
}

pub(crate) proof fn lemma_digit_crosses(pattern: u64, n: u64)
    requires
        digit_crosses(pattern, n),
        0 < n <= 12,
        pattern < 256,
    ensures
        crosses(pattern as int, n - 1),
{
    assert(((pattern >> 0) & 1) == pattern % 2 && ((pattern >> 1) & 1) == pattern / 2 % 2 && ((
    pattern >> 2) & 1) == pattern / 4 % 2 && ((pattern >> 3) & 1) == pattern / 8 % 2 && ((pattern
        >> 4) & 1) == pattern / 16 % 2 && ((pattern >> 5) & 1) == pattern / 32 % 2 && ((pattern
        >> 6) & 1) == pattern / 64 % 2 && ((pattern >> 7) & 1) == pattern / 128 % 2)
        by (bit_vector);
}

pub(crate) proof fn lemma_row_sound(row: u64, pattern: u64)
    requires
        row_sound(row, pattern),
    ensures
        edges_sound(row_edges(row as nat), pattern as int),
    decreases row,
{
    assert(row & 15 == row % 16 && (row >> 4) & 15 == row / 16 % 16 && (row >> 8) & 15 == row / 256
        % 16 && row >> 12 == row / 4096) by (bit_vector);
    if row != 0 {
        let n0 = row & 15;
        let n1 = (row >> 4) & 15;
        let n2 = (row >> 8) & 15;
        let next = row >> 12;
        assert(row_sound(row, pattern) ==> row_sound(row >> 12, pattern)) by (bit_vector);
        assert(triangle_sound(row, pattern));
        lemma_digit_crosses(pattern, n0);
        lemma_digit_crosses(pattern, n1);
        lemma_digit_crosses(pattern, n2);
        assert(next < row);
        lemma_row_sound(next, pattern);
        let r = row as nat;
        let p = pattern as int;
        let rest = row_edges(next as nat);
        reveal_with_fuel(row_edges, 4);
        assert(r / 16 / 16 == r / 256);
        assert(r / 16 / 16 / 16 == r / 4096);
        let head = seq![r % 16 - 1, r / 16 % 16 - 1, r / 256 % 16 - 1];
        let edges = row_edges(r);
        assert(edges =~= head + rest);
        assert forall|i: int| 0 <= i < edges.len() implies 0 <= #[trigger] edges[i] < 12
            && crosses(p, edges[i]) by {
            if i >= 3 {
                assert(edges[i] == rest[i - 3]);
            }
        }
        assert forall|t: int|
            #![trigger edges[3 * t]]
            0 <= t && 3 * t + 2 < edges.len() implies edges[3 * t] != edges[3 * t + 1] && edges[3
            * t + 1] != edges[3 * t + 2] && edges[3 * t] != edges[3 * t + 2] by {
            if t >= 1 {
                let u = t - 1;
                assert(edges[3 * t] == rest[3 * u]);
                assert(edges[3 * t + 1] == rest[3 * u + 1]);
                assert(edges[3 * t + 2] == rest[3 * u + 2]);
            }
        }
    }
}

/// The triangles of every corner pattern have their corners on three different
/// edges, each of which joins a corner outside the surface to one inside.
pub proof fn law_triangles_on_crossing_edges(pattern: int)
    requires
        0 <= pattern < 256,
    ensures
        edges_sound(tri_edges(pattern), pattern),
{
    lemma_rows(pattern as u64);
    lemma_row_sound(tri_row(pattern), pattern as u64);
}

/// A pattern with corners on both sides of the surface has triangles.
pub proof fn law_mixed_patterns_have_triangles(pattern: int)
    requires
        0 < pattern < 255,
    ensures
        tri_edges(pattern).len() >= 3,
{
    lemma_rows(pattern as u64);
    lemma_row_sound(tri_row(pattern), pattern as u64);
    let row = tri_row(pattern);
    assert(row & 15 == row % 16) by (bit_vector);
    assert(triangle_sound(row, pattern as u64));
    assert(row_edges(row as nat).len() > 0);
}

pub(crate) proof fn lemma_rows(p: u64)
    requires
        p < 256,
    ensures
        row_sound(tri_row(p as int), p),
        tri_row(p as int) != 0 || p == 0 || p == 255,
{
    if p < 16 {
        lemma_rows_0(p);
    } else if p < 32 {
        lemma_rows_1(p);
    } else if p < 48 {
        lemma_rows_2(p);
    } else if p < 64 {
        lemma_rows_3(p);
    } else if p < 80 {
        lemma_rows_4(p);
    } else if p < 96 {
        lemma_rows_5(p);
    } else if p < 112 {
        lemma_rows_6(p);
    } else if p < 128 {
        lemma_rows_7(p);
    } else if p < 144 {
        lemma_rows_8(p);
    } else if p < 160 {
        lemma_rows_9(p);
    } else if p < 176 {
        lemma_rows_10(p);
    } else if p < 192 {
        lemma_rows_11(p);
    } else if p < 208 {
        lemma_rows_12(p);
    } else if p < 224 {
        lemma_rows_13(p);
    } else if p < 240 {
        lemma_rows_14(p);
    } else {
        lemma_rows_15(p);
    }
}

proof fn lemma_rows_0(p: u64)
    requires
        0 <= p < 16,
    ensures
        row_sound(tri_row(p as int), p),
        tri_row(p as int) != 0 || p == 0 || p == 255,
{
    reveal(tri_row);
    assert(row_sound(0x0, 0)
        && row_sound(0x491, 1)
        && row_sound(0xa21, 2)
        && row_sound(0x29a492, 3)
        && row_sound(0xb32, 4)
        && row_sound(0xb32491, 5)
        && row_sound(0xa31b3a, 6)
        && row_sound(0x9ab9b3493, 7)
        && row_sound(0x3c4, 8)
        && row_sound(0x1c93c1, 9)
        && row_sound(0xc431a2, 10)
        && row_sound(0xc9aca23c2, 11)
        && row_sound(0x4bc2b4, 12)
        && row_sound(0xbc9b912b1, 13)
        && row_sound(0xabcac41a4, 14)
        && row_sound(0xc9bb9a, 15)) by (bit_vector);
}

proof fn lemma_rows_1(p: u64)
    requires
        16 <= p < 32,
    ensures
        row_sound(tri_row(p as int), p),
        tri_row(p as int) != 0 || p == 0 || p == 255,
{
    reveal(tri_row);
    assert(row_sound(0x985, 16)
        && row_sound(0x548145, 17)
        && row_sound(0x859a21, 18)
        && row_sound(0x248285a25, 19)
        && row_sound(0x859b32, 20)
        && row_sound(0xb32514854, 21)
        && row_sound(0x85931ab3a, 22)
        && row_sound(0x5a84838a3ab3, 23)
        && row_sound(0x3c4859, 24)
        && row_sound(0x51353c85c, 25)
        && row_sound(0xc4385921a, 26)
        && row_sound(0x23a3cac5ac85, 27)
        && row_sound(0x598bc42b4, 28)
        && row_sound(0x5c8512c52bc2, 29)
        && row_sound(0x41cbcac1a985, 30)
        && row_sound(0xbcaac5c85, 31)) by (bit_vector);
}

proof fn lemma_rows_2(p: u64)
    requires
        32 <= p < 48,
    ensures
        row_sound(tri_row(p as int), p),
        tri_row(p as int) != 0 || p == 0 || p == 255,
{
    reveal(tri_row);
    assert(row_sound(0x56a, 32)
        && row_sound(0x49156a, 33)
        && row_sound(0x162561, 34)
        && row_sound(0x624649569, 35)
        && row_sound(0x56ab32, 36)
        && row_sound(0x6a5b32914, 37)
        && row_sound(0x315356b36, 38)
        && row_sound(0x9545646346b3, 39)
        && row_sound(0xc4356a, 40)
        && row_sound(0x6a5c913c1, 41)
        && row_sound(0xc43621561, 42)
        && row_sound(0x695c93963623, 43)
        && row_sound(0x56a42bc4b, 44)
        && row_sound(0xbc92b92916a5, 45)
        && row_sound(0x41cbc6c16156, 46)
        && row_sound(0xc9bb96956, 47)) by (bit_vector);
}

proof fn lemma_rows_3(p: u64)
    requires
        48 <= p < 64,
    ensures
        row_sound(tri_row(p as int), p),
        tri_row(p as int) != 0 || p == 0 || p == 255,
{
    reveal(tri_row);
    assert(row_sound(0xa8698a, 48)
        && row_sound(0x48646a14a, 49)
        && row_sound(0x862821981, 50)
        && row_sound(0x864462, 51)
        && row_sound(0x32b86a98a, 52)
        && row_sound(0x48614616a32b, 53)
        && row_sound(0x36b869639319, 54)
        && row_sound(0x8644636b3, 55)
        && row_sound(0x3c4a986a8, 56)
        && row_sound(0xc8313a38a86a, 57)
        && row_sound(0x862982921c43, 58)
        && row_sound(0x62882c23c, 59)
        && row_sound(0xc4b42b86996a, 60)
        && row_sound(0x1bcb121c8a16186, 61)
        && row_sound(0x18681916b41c1bc, 62)
        && row_sound(0x6c86bc, 63)) by (bit_vector);
}

proof fn lemma_rows_4(p: u64)
    requires
        64 <= p < 80,
    ensures
        row_sound(tri_row(p as int), p),
        tri_row(p as int) != 0 || p == 0 || p == 255,
{
    reveal(tri_row);
    assert(row_sound(0x67b, 64)
        && row_sound(0x7b6491, 65)
        && row_sound(0x7b621a, 66)
        && row_sound(0x7b69a2492, 67)
        && row_sound(0x273672, 68)
        && row_sound(0x914732672, 69)
        && row_sound(0x73171a67a, 70)
        && row_sound(0x9347363969a6, 71)
        && row_sound(0x67bc43, 72)
        && row_sound(0x67b13c91c, 73)
        && row_sound(0x7b6c43a21, 74)
        && row_sound(0xc9a3ca3a27b6, 75)
        && row_sound(0x426467c47, 76)
        && row_sound(0x7c62616c1c91, 77)
        && row_sound(0xa616717417c4, 78)
        && row_sound(0x9acca7a67, 79)) by (bit_vector);
}

proof fn lemma_rows_5(p: u64)
    requires
        80 <= p < 96,
    ensures
        row_sound(tri_row(p as int), p),
        tri_row(p as int) != 0 || p == 0 || p == 255,
{
    reveal(tri_row);
    assert(row_sound(0x9857b6, 80)
        && row_sound(0xb67485145, 81)
        && row_sound(0x8597b61a2, 82)
        && row_sound(0x5a84828a267b, 83)
        && row_sound(0x985267327, 84)
        && row_sound(0x854514736632, 85)
        && row_sound(0x73167161a859, 86)
        && row_sound(0xa737a6a345a8a48, 87)
        && row_sound(0x67b5983c4, 88)
        && row_sound(0xc831353857b6, 89)
        && row_sound(0x7b6c43985a21, 90)
        && row_sound(0x7b65c8c5a3ca23a, 91)
        && row_sound(0x7c62646c4859, 92)
        && row_sound(0xc515c8c127c6c26, 93)
        && row_sound(0x85947c741671a61, 94)
        && row_sound(0xac8a85ca7a67, 95)) by (bit_vector);
}

proof fn lemma_rows_6(p: u64)
    requires
        96 <= p < 112,
    ensures
        row_sound(tri_row(p as int), p),
        tri_row(p as int) != 0 || p == 0 || p == 255,
{
    reveal(tri_row);
    assert(row_sound(0xb57a5b, 96)
        && row_sound(0x491ba57b5, 97)
        && row_sound(0x15717b21b, 98)
        && row_sound(0xb27579729249, 99)
        && row_sound(0x573532a52, 100)
        && row_sound(0x573a53a32914, 101)
        && row_sound(0x735531, 102)
        && row_sound(0x735539349, 103)
        && row_sound(0x43c57ba5b, 104)
        && row_sound(0x7b5ba5c93391, 105)
        && row_sound(0xb275717213c4, 106)
        && row_sound(0x2c9c23295b27257, 107)
        && row_sound(0x47c42a74a57a, 108)
        && row_sound(0x25752a27c1292c9, 109)
        && row_sound(0x5711747c4, 110)
        && row_sound(0x97c957, 111)) by (bit_vector);
}

proof fn lemma_rows_7(p: u64)
    requires
        112 <= p < 128,
    ensures
        row_sound(tri_row(p as int), p),
        tri_row(p as int) != 0 || p == 0 || p == 255,
{
    reveal(tri_row);
    assert(row_sound(0xba9b987b8, 112)
        && row_sound(0xb87ba18b1481, 113)
        && row_sound(0x1929828b287b, 114)
        && row_sound(0x48228b87b, 115)
        && row_sound(0x879a92972732, 116)
        && row_sound(0xa484a1a872a3a73, 117)
        && row_sound(0x317718198, 118)
        && row_sound(0x387348, 119)
        && row_sound(0x879a9b97bc43, 120)
        && row_sound(0x8bab878a1c83813, 121)
        && row_sound(0xc43b878b2982192, 122)
        && row_sound(0x28727b82c23c, 123)
        && row_sound(0x74247c72a8797a9, 124)
        && row_sound(0x87c2a1, 125)
        && row_sound(0x17c1c4718198, 126)
        && row_sound(0x7c8, 127)) by (bit_vector);
}

proof fn lemma_rows_8(p: u64)
    requires
        128 <= p < 144,
    ensures
        row_sound(tri_row(p as int), p),
        tri_row(p as int) != 0 || p == 0 || p == 255,
{
    reveal(tri_row);
    assert(row_sound(0xc78, 128)
        && row_sound(0x78c914, 129)
        && row_sound(0x78ca21, 130)
        && row_sound(0x78c249a29, 131)
        && row_sound(0x8c732b, 132)
        && row_sound(0x8c7914b32, 133)
        && row_sound(0x8c7ab31a3, 134)
        && row_sound(0x9ab49b4b38c7, 135)
        && row_sound(0x837438, 136)
        && row_sound(0x137178918, 137)
        && row_sound(0xa21843783, 138)
        && row_sound(0x7899a2792372, 139)
        && row_sound(0x84282b78b, 140)
        && row_sound(0x912892b8278b, 141)
        && row_sound(0x8b7ab1b81841, 142)
        && row_sound(0xab99b8b78, 143)) by (bit_vector);
}

proof fn lemma_rows_9(p: u64)
    requires
        144 <= p < 160,
    ensures
        row_sound(tri_row(p as int), p),
        tri_row(p as int) != 0 || p == 0 || p == 255,
{
    reveal(tri_row);
    assert(row_sound(0x79c597, 144)
        && row_sound(0x751714c74, 145)
        && row_sound(0x21a759c79, 146)
        && row_sound(0x74c24a47a75a, 147)
        && row_sound(0x2b39c7597, 148)
        && row_sound(0x751c71c14b32, 149)
        && row_sound(0xab3a31c759c5, 150)
        && row_sound(0x47574c45a34b4ab, 151)
        && row_sound(0x375359439, 152)
        && row_sound(0x375351, 153)
        && row_sound(0x9457535431a2, 154)
        && row_sound(0x7533525a2, 155)
        && row_sound(0x2b7759279429, 156)
        && row_sound(0x51771b12b, 157)
        && row_sound(0x4aba414b7945475, 158)
        && row_sound(0x5b75ab, 159)) by (bit_vector);
}

proof fn lemma_rows_10(p: u64)
    requires
        160 <= p < 176,
    ensures
        row_sound(tri_row(p as int), p),
        tri_row(p as int) != 0 || p == 0 || p == 255,
{
    reveal(tri_row);
    assert(row_sound(0xc786a5, 160)
        && row_sound(0x78c6a5491, 161)
        && row_sound(0xc78156216, 162)
        && row_sound(0x62456454978c, 163)
        && row_sound(0xc7832b56a, 164)
        && row_sound(0x6a5491b328c7, 165)
        && row_sound(0x315b35b56c78, 166)
        && row_sound(0x78c36b634564954, 167)
        && row_sound(0xa56378438, 168)
        && row_sound(0x89737179156a, 169)
        && row_sound(0x156162784374, 170)
        && row_sound(0x962695923897937, 171)
        && row_sound(0x84278272b56a, 172)
        && row_sound(0x56a189812782b72, 173)
        && row_sound(0xb848b7b416b5b15, 174)
        && row_sound(0xb95b569b8b78, 175)) by (bit_vector);
}

proof fn lemma_rows_11(p: u64)
    requires
        176 <= p < 192,
    ensures
        row_sound(tri_row(p as int), p),
        tri_row(p as int) != 0 || p == 0 || p == 255,
{
    reveal(tri_row);
    assert(row_sound(0xa9cac76a7, 176)
        && row_sound(0x6a1761471c74, 177)
        && row_sound(0xc76621c619c1, 178)
        && row_sound(0x2466474c7, 179)
        && row_sound(0x76c9cac6ab32, 180)
        && row_sound(0xb32a767a1c714c1, 181)
        && row_sound(0x63136b61976c69c, 182)
        && row_sound(0x46b4b36474c7, 183)
        && row_sound(0x394376936a96, 184)
        && row_sound(0x37117a76a, 185)
        && row_sound(0x937394976192962, 186)
        && row_sound(0x723762, 187)
        && row_sound(0x7a9a76794b72742, 188)
        && row_sound(0x17616a71b12b, 189)
        && row_sound(0xb76941, 190)
        && row_sound(0x76b, 191)) by (bit_vector);
}

proof fn lemma_rows_12(p: u64)
    requires
        192 <= p < 208,
    ensures
        row_sound(tri_row(p as int), p),
        tri_row(p as int) != 0 || p == 0 || p == 255,
{
    reveal(tri_row);
    assert(row_sound(0xc68b6c, 192)
        && row_sound(0x14968cb6c, 193)
        && row_sound(0x1a2cb68c6, 194)
        && row_sound(0x24929a8cb68b, 195)
        && row_sound(0x26828c32c, 196)
        && row_sound(0xc38682832491, 197)
        && row_sound(0x8c331a83a68a, 198)
        && row_sound(0x39a9343a6c38368, 199)
        && row_sound(0x684643b63, 200)
        && row_sound(0x63b689369139, 201)
        && row_sound(0x3b48464b621a, 202)
        && row_sound(0x36863b38923a39a, 203)
        && row_sound(0x684642, 204)
        && row_sound(0x682281891, 205)
        && row_sound(0x84664a41a, 206)
        && row_sound(0x8a689a, 207)) by (bit_vector);
}

proof fn lemma_rows_13(p: u64)
    requires
        208 <= p < 224,
    ensures
        row_sound(tri_row(p as int), p),
        tri_row(p as int) != 0 || p == 0 || p == 255,
{
    reveal(tri_row);
    assert(row_sound(0x9cb9b6596, 208)
        && row_sound(0x14ccb61c6516, 209)
        && row_sound(0x65bcb9b59a21, 210)
        && row_sound(0x52425a54c65b5cb, 211)
        && row_sound(0x9659c3693263, 212)
        && row_sound(0xc262c3c654c1c51, 213)
        && row_sound(0x69c9656c3a61631, 214)
        && row_sound(0x4c365a, 215)
        && row_sound(0x594654364b63, 216)
        && row_sound(0x1355363b6, 217)
        && row_sound(0xa21965694b643b4, 218)
        && row_sound(0x35a3a25363b6, 219)
        && row_sound(0x264469659, 220)
        && row_sound(0x612651, 221)
        && row_sound(0x64161a469659, 222)
        && row_sound(0x65a, 223)) by (bit_vector);
}

proof fn lemma_rows_14(p: u64)
    requires
        224 <= p < 240,
    ensures
        row_sound(tri_row(p as int), p),
        tri_row(p as int) != 0 || p == 0 || p == 255,
{
    reveal(tri_row);
    assert(row_sound(0xcbaca58c5, 224)
        && row_sound(0xcba8ca8a5491, 225)
        && row_sound(0xc581525c2cb2, 226)
        && row_sound(0x5cbc585b2954524, 227)
        && row_sound(0x32ac3a5ca8c5, 228)
        && row_sound(0x4912c3c2a8ca58a, 229)
        && row_sound(0x15335c58c, 230)
        && row_sound(0x53454935c58c, 231)
        && row_sound(0xa58843a83ba3, 232)
        && row_sound(0x81318983b58a8ba, 233)
        && row_sound(0xb151b2b583b4b84, 234)
        && row_sound(0x5893b2, 235)
        && row_sound(0x4288252a5, 236)
        && row_sound(0x2892918252a5, 237)
        && row_sound(0x458415, 238)
        && row_sound(0x895, 239)) by (bit_vector);
}

proof fn lemma_rows_15(p: u64)
    requires
        240 <= p < 256,
    ensures
        row_sound(tri_row(p as int), p),
        tri_row(p as int) != 0 || p == 0 || p == 255,
{
    reveal(tri_row);
    assert(row_sound(0x9cb9ba, 240)
        && row_sound(0xbacca4a14, 241)
        && row_sound(0xcb99b1b21, 242)
        && row_sound(0xb4cb24, 243)
        && row_sound(0x9caac2c32, 244)
        && row_sound(0xac3a32ca4a14, 245)
        && row_sound(0xc19c31, 246)
        && row_sound(0xc34, 247)
        && row_sound(0xa9bb93943, 248)
        && row_sound(0x3a13ba, 249)
        && row_sound(0x9b2921b93943, 250)
        && row_sound(0x3b2, 251)
        && row_sound(0x92a942, 252)
        && row_sound(0x2a1, 253)
        && row_sound(0x941, 254)
        && row_sound(0x0, 255)) by (bit_vector);
}

} // verus!
