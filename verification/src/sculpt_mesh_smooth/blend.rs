//! Colour and material of a cell that is filled from its neighbours.

use vstd::prelude::*;

use crate::smooth_mesh::lattice::channel;
use crate::voxelle::{
    color_channels, material_of_rank, material_rank, pack_color, MaterialId, Voxel,
};

verus! {

/// Colour where there is nothing to blend.
pub const PROXY_COLOR: u32 = 0x888888;

/// Sum of channel `k` over a list of voxels.
pub open spec fn channel_sum(voxels: Seq<Voxel>, k: int) -> int
    decreases voxels.len(),
{
    if voxels.len() == 0 {
        0
    } else {
        channel_sum(voxels.drop_last(), k) + channel(voxels.last().color, k)
    }
}

/// Number of voxels of a list whose material has rank `m`.
pub open spec fn material_count(voxels: Seq<Voxel>, m: int) -> int
    decreases voxels.len(),
{
    if voxels.len() == 0 {
        0
    } else {
        material_count(voxels.drop_last(), m) + (if material_rank(voxels.last().material) == m {
            1int
        } else {
            0
        })
    }
}

/// The first rank below `n` that no other below `n` outnumbers; zero where none occurs.
pub open spec fn commonest_rank(voxels: Seq<Voxel>, n: nat) -> int
    decreases n,
{
    if n == 0 {
        0
    } else {
        let best = commonest_rank(voxels, (n - 1) as nat);
        if material_count(voxels, n - 1) > (if n == 1 {
            0
        } else {
            material_count(voxels, best)
        }) {
            n - 1
        } else {
            best
        }
    }
}

/// Mean colour of a list of voxels, channel by channel, rounded down.
pub open spec fn mean_color(voxels: Seq<Voxel>) -> int {
    let n = voxels.len() as int;
    channel_sum(voxels, 0) / n * 0x10000 + channel_sum(voxels, 1) / n * 0x100 + channel_sum(
        voxels,
        2,
    ) / n
}

/// Colour and material blended from a list of voxels: the mean colour, and the
/// commonest of the first six materials. Of nothing, a grey plastic.
pub open spec fn blended(voxels: Seq<Voxel>) -> (int, MaterialId) {
    if voxels.len() == 0 {
        (0x888888, MaterialId::Plastic)
    } else {
        (mean_color(voxels), material_of_rank(commonest_rank(voxels, 6)))
    }
}

pub(crate) proof fn lemma_sums(voxels: Seq<Voxel>)
    ensures
        0 <= channel_sum(voxels, 0) <= 255 * voxels.len(),
        0 <= channel_sum(voxels, 1) <= 255 * voxels.len(),
        0 <= channel_sum(voxels, 2) <= 255 * voxels.len(),
        forall|m: int| 0 <= #[trigger] material_count(voxels, m) <= voxels.len(),
    decreases voxels.len(),
{
    if voxels.len() > 0 {
        lemma_sums(voxels.drop_last());
        assert forall|m: int| 0 <= #[trigger] material_count(voxels, m) <= voxels.len() by {
            assert(0 <= material_count(voxels.drop_last(), m) <= voxels.drop_last().len());
        }
    }
}

/// No material among the first six is commoner than the blended one, and none
/// before it is as common.
pub proof fn law_commonest(voxels: Seq<Voxel>, n: nat)
    requires
        0 < n,
    ensures
        0 <= commonest_rank(voxels, n) < n,
        forall|m: int|
            0 <= m < n ==> #[trigger] material_count(voxels, m) <= material_count(
                voxels,
                commonest_rank(voxels, n),
            ),
        forall|m: int|
            0 <= m < commonest_rank(voxels, n) ==> #[trigger] material_count(voxels, m)
                < material_count(voxels, commonest_rank(voxels, n)),
    decreases n,
{
    lemma_sums(voxels);
    reveal_with_fuel(commonest_rank, 2);
    if n > 1 {
        law_commonest(voxels, (n - 1) as nat);
    }
}

/// A mean is at most what each summand is at most.
proof fn lemma_mean(sum: int, n: int)
    requires
        0 < n,
        0 <= sum <= 255 * n,
    ensures
        0 <= sum / n <= 255,
{
    assert(0 <= sum / n <= 255) by (nonlinear_arith)
        requires
            0 < n,
            0 <= sum <= 255 * n,
    ;
}

/// Colour and material blended from a list of voxels.
pub fn blend_voxels_for_smooth(neighbors: &[Voxel]) -> (r: (u32, MaterialId))
    requires
        neighbors@.len() * 255 <= i32::MAX,
    ensures
        r.0 == blended(neighbors@).0,
        r.1 == blended(neighbors@).1,
{
    if neighbors.len() == 0 {
        return (PROXY_COLOR, MaterialId::Plastic);
    }
    let n: i32 = neighbors.len() as i32;
    let mut sr: i32 = 0;
    let mut sg: i32 = 0;
    let mut sb: i32 = 0;
    let mut i: usize = 0;
    assert(neighbors@.take(0) =~= Seq::<Voxel>::empty());
    while i < neighbors.len()
        invariant
            0 <= i <= neighbors@.len(),
            neighbors@.len() * 255 <= i32::MAX,
            sr == channel_sum(neighbors@.take(i as int), 0),
            sg == channel_sum(neighbors@.take(i as int), 1),
            sb == channel_sum(neighbors@.take(i as int), 2),
            0 <= sr <= 255 * i,
            0 <= sg <= 255 * i,
            0 <= sb <= 255 * i,
        decreases neighbors@.len() - i,
    {
        let (cr, cg, cb) = color_channels(neighbors[i].color);
        assert(neighbors@.take(i as int + 1).drop_last() =~= neighbors@.take(i as int));
        sr += cr;
        sg += cg;
        sb += cb;
        i += 1;
    }
    assert(neighbors@.take(i as int) =~= neighbors@);
    proof {
        lemma_mean(sr as int, n as int);
        lemma_mean(sg as int, n as int);
        lemma_mean(sb as int, n as int);
    }
    let color: u32 = pack_color((sr / n) as u32, (sg / n) as u32, (sb / n) as u32);
    let mut best: u8 = 0;
    let mut best_count: usize = 0;
    let mut m: u8 = 0;
    while m < 6
        invariant
            0 <= m <= 6,
            best == commonest_rank(neighbors@, m as nat),
            best < 6,
            best_count == (if m == 0 {
                0
            } else {
                material_count(neighbors@, best as int)
            }),
        decreases 6 - m,
    {
        let c: usize = count_material(neighbors, m);
        if c > best_count {
            best_count = c;
            best = m;
        } else {
            proof {
                lemma_sums(neighbors@);
                if m == 0 {
                    assert(material_count(neighbors@, 0) == 0);
                }
            }
        }
        m += 1;
    }
    (color, MaterialId::from_index(best))
}

/// Number of voxels of a list whose material has rank `m`.
fn count_material(voxels: &[Voxel], m: u8) -> (r: usize)
    ensures
        r == material_count(voxels@, m as int),
{
    let mut count: usize = 0;
    let mut i: usize = 0;
    assert(voxels@.take(0) =~= Seq::<Voxel>::empty());
    while i < voxels.len()
        invariant
            0 <= i <= voxels@.len(),
            count <= i,
            count == material_count(voxels@.take(i as int), m as int),
        decreases voxels@.len() - i,
    {
        assert(voxels@.take(i as int + 1).drop_last() =~= voxels@.take(i as int));
        if voxels[i].material.material_index() == m {
            count += 1;
        }
        i += 1;
    }
    assert(voxels@.take(i as int) =~= voxels@);
    count
}

} // verus!
