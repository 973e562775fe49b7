//! Case tables of the marching cubes pass.

use vstd::prelude::*;

verus! {

/// Triangles of each of the 256 corner patterns. Bit `c` of the pattern is set
/// where corner `c` of the cell is outside. A row lists the cell edges that the
/// triangle corners lie on, three per triangle: its lowest hexadecimal digit is
/// the first edge plus one, the digit above it the second, and so on; digit zero
/// ends the row.
pub const TRI_ROWS: [u64; 256] = [
    0x0, 0x491, 0xa21, 0x29a492,
    0xb32, 0xb32491, 0xa31b3a, 0x9ab9b3493,
    0x3c4, 0x1c93c1, 0xc431a2, 0xc9aca23c2,
    0x4bc2b4, 0xbc9b912b1, 0xabcac41a4, 0xc9bb9a,
    0x985, 0x548145, 0x859a21, 0x248285a25,
    0x859b32, 0xb32514854, 0x85931ab3a, 0x5a84838a3ab3,
    0x3c4859, 0x51353c85c, 0xc4385921a, 0x23a3cac5ac85,
    0x598bc42b4, 0x5c8512c52bc2, 0x41cbcac1a985, 0xbcaac5c85,
    0x56a, 0x49156a, 0x162561, 0x624649569,
    0x56ab32, 0x6a5b32914, 0x315356b36, 0x9545646346b3,
    0xc4356a, 0x6a5c913c1, 0xc43621561, 0x695c93963623,
    0x56a42bc4b, 0xbc92b92916a5, 0x41cbc6c16156, 0xc9bb96956,
    0xa8698a, 0x48646a14a, 0x862821981, 0x864462,
    0x32b86a98a, 0x48614616a32b, 0x36b869639319, 0x8644636b3,
    0x3c4a986a8, 0xc8313a38a86a, 0x862982921c43, 0x62882c23c,
    0xc4b42b86996a, 0x1bcb121c8a16186, 0x18681916b41c1bc, 0x6c86bc,
    0x67b, 0x7b6491, 0x7b621a, 0x7b69a2492,
    0x273672, 0x914732672, 0x73171a67a, 0x9347363969a6,
    0x67bc43, 0x67b13c91c, 0x7b6c43a21, 0xc9a3ca3a27b6,
    0x426467c47, 0x7c62616c1c91, 0xa616717417c4, 0x9acca7a67,
    0x9857b6, 0xb67485145, 0x8597b61a2, 0x5a84828a267b,
    0x985267327, 0x854514736632, 0x73167161a859, 0xa737a6a345a8a48,
    0x67b5983c4, 0xc831353857b6, 0x7b6c43985a21, 0x7b65c8c5a3ca23a,
    0x7c62646c4859, 0xc515c8c127c6c26, 0x85947c741671a61, 0xac8a85ca7a67,
    0xb57a5b, 0x491ba57b5, 0x15717b21b, 0xb27579729249,
    0x573532a52, 0x573a53a32914, 0x735531, 0x735539349,
    0x43c57ba5b, 0x7b5ba5c93391, 0xb275717213c4, 0x2c9c23295b27257,
    0x47c42a74a57a, 0x25752a27c1292c9, 0x5711747c4, 0x97c957,
    0xba9b987b8, 0xb87ba18b1481, 0x1929828b287b, 0x48228b87b,
    0x879a92972732, 0xa484a1a872a3a73, 0x317718198, 0x387348,
    0x879a9b97bc43, 0x8bab878a1c83813, 0xc43b878b2982192, 0x28727b82c23c,
    0x74247c72a8797a9, 0x87c2a1, 0x17c1c4718198, 0x7c8,
    0xc78, 0x78c914, 0x78ca21, 0x78c249a29,
    0x8c732b, 0x8c7914b32, 0x8c7ab31a3, 0x9ab49b4b38c7,
    0x837438, 0x137178918, 0xa21843783, 0x7899a2792372,
    0x84282b78b, 0x912892b8278b, 0x8b7ab1b81841, 0xab99b8b78,
    0x79c597, 0x751714c74, 0x21a759c79, 0x74c24a47a75a,
    0x2b39c7597, 0x751c71c14b32, 0xab3a31c759c5, 0x47574c45a34b4ab,
    0x375359439, 0x375351, 0x9457535431a2, 0x7533525a2,
    0x2b7759279429, 0x51771b12b, 0x4aba414b7945475, 0x5b75ab,
    0xc786a5, 0x78c6a5491, 0xc78156216, 0x62456454978c,
    0xc7832b56a, 0x6a5491b328c7, 0x315b35b56c78, 0x78c36b634564954,
    0xa56378438, 0x89737179156a, 0x156162784374, 0x962695923897937,
    0x84278272b56a, 0x56a189812782b72, 0xb848b7b416b5b15, 0xb95b569b8b78,
    0xa9cac76a7, 0x6a1761471c74, 0xc76621c619c1, 0x2466474c7,
    0x76c9cac6ab32, 0xb32a767a1c714c1, 0x63136b61976c69c, 0x46b4b36474c7,
    0x394376936a96, 0x37117a76a, 0x937394976192962, 0x723762,
    0x7a9a76794b72742, 0x17616a71b12b, 0xb76941, 0x76b,
    0xc68b6c, 0x14968cb6c, 0x1a2cb68c6, 0x24929a8cb68b,
    0x26828c32c, 0xc38682832491, 0x8c331a83a68a, 0x39a9343a6c38368,
    0x684643b63, 0x63b689369139, 0x3b48464b621a, 0x36863b38923a39a,
    0x684642, 0x682281891, 0x84664a41a, 0x8a689a,
    0x9cb9b6596, 0x14ccb61c6516, 0x65bcb9b59a21, 0x52425a54c65b5cb,
    0x9659c3693263, 0xc262c3c654c1c51, 0x69c9656c3a61631, 0x4c365a,
    0x594654364b63, 0x1355363b6, 0xa21965694b643b4, 0x35a3a25363b6,
    0x264469659, 0x612651, 0x64161a469659, 0x65a,
    0xcbaca58c5, 0xcba8ca8a5491, 0xc581525c2cb2, 0x5cbc585b2954524,
    0x32ac3a5ca8c5, 0x4912c3c2a8ca58a, 0x15335c58c, 0x53454935c58c,
    0xa58843a83ba3, 0x81318983b58a8ba, 0xb151b2b583b4b84, 0x5893b2,
    0x4288252a5, 0x2892918252a5, 0x458415, 0x895,
    0x9cb9ba, 0xbacca4a14, 0xcb99b1b21, 0xb4cb24,
    0x9caac2c32, 0xac3a32ca4a14, 0xc19c31, 0xc34,
    0xa9bb93943, 0x3a13ba, 0x9b2921b93943, 0x3b2,
    0x92a942, 0x2a1, 0x941, 0x0,
];

/// Row of a corner pattern.
#[verifier::opaque]
pub open spec fn tri_row(pattern: int) -> u64 {
    TRI_ROWS@[pattern]
}

/// Edges that a row lists, in order.
pub open spec fn row_edges(row: nat) -> Seq<int>
    decreases row,
{
    if row % 16 == 0 || row % 16 > 12 {
        seq![]
    } else {
        seq![row % 16 - 1] + row_edges(row / 16)
    }
}

/// Edges on which the triangle corners of a pattern lie, three per triangle.
pub open spec fn tri_edges(pattern: int) -> Seq<int> {
    row_edges(tri_row(pattern) as nat)
}

/// Edges on which the triangle corners of a pattern lie, three per triangle.
pub fn triangle_edges(pattern: usize) -> (edges: Vec<usize>)
    requires
        pattern < 256,
    ensures
        edges@.len() == tri_edges(pattern as int).len(),
        forall|i: int|
            0 <= i < edges@.len() ==> (#[trigger] edges@[i]) == tri_edges(pattern as int)[i]
                && edges@[i] < 12,
{
    let mut row: u64 = TRI_ROWS[pattern];
    proof {
        reveal(tri_row);
    }
    let mut edges: Vec<usize> = Vec::new();
    let ghost all = tri_edges(pattern as int);
    while row % 16 != 0 && row % 16 <= 12
        invariant
            edges@.len() + row_edges(row as nat).len() == all.len(),
            forall|i: int|
                0 <= i < edges@.len() ==> (#[trigger] edges@[i]) == all[i] && edges@[i] < 12,
            forall|i: int|
                0 <= i < row_edges(row as nat).len() ==> #[trigger] row_edges(row as nat)[i]
                    == all[edges@.len() + i],
        decreases row,
    {
        let ghost rest = row_edges(row as nat);
        let ghost done = edges@.len() as int;
        assert(rest =~= seq![row as nat % 16 - 1] + row_edges(row as nat / 16));
        assert(rest[0] == all[done + 0]);
        assert forall|i: int| 0 <= i < row_edges(row as nat / 16).len() implies (
        #[trigger] row_edges(row as nat / 16)[i]) == all[done + 1 + i] by {
            assert(rest[i + 1] == all[done + (i + 1)]);
        }
        edges.push((row % 16 - 1) as usize);
        row = row / 16;
    }
    edges
}

} // verus!
