//! What a blend of voxels is, said by the voxels.

use vstd::prelude::*;

use crate::sculpt_mesh_smooth::blend::{
    blended, channel_sum, commonest_rank, law_commonest, lemma_sums, material_count,
};
use crate::voxelle::{material_rank, MaterialId, Voxel};

verus! {

/// Channel `k` of a colour `0xRRGGBB`: the pair of digits that is third, second or
/// first from the right.
pub open spec fn digits(color: int, k: int) -> int {
    if k == 0 {
        color / 0x10000 % 0x100
    } else if k == 1 {
        color / 0x100 % 0x100
    } else {
        color % 0x100
    }
}

/// The channels of a blend are the means of the channels of its voxels, rounded
/// down, whatever stands above them in the colours.
pub proof fn law_blend_is_the_mean(voxels: Seq<Voxel>, k: int)
    requires
        voxels.len() > 0,
        0 <= k < 3,
    ensures
        ({
            let total = voxels.fold_left(0int, |sum: int, v: Voxel| sum + digits(v.color as int, k));
            digits(blended(voxels).0, k) * voxels.len() <= total < (digits(blended(voxels).0, k)
                + 1) * voxels.len()
        }),
        0 <= blended(voxels).0 <= 0xff_ffff,
{
    let n = voxels.len() as int;
    lemma_sums(voxels);
    lemma_fold(voxels, k);
    assert(k == 0 || k == 1 || k == 2);
    let (r, g, b) = (channel_sum(voxels, 0), channel_sum(voxels, 1), channel_sum(voxels, 2));
    lemma_mean_bounds(r, n);
    lemma_mean_bounds(g, n);
    lemma_mean_bounds(b, n);
    lemma_digits(r / n, g / n, b / n);
    let sum = channel_sum(voxels, k);
    assert(sum == r || sum == g || sum == b);
    assert(digits(blended(voxels).0, k) == sum / n);
}

proof fn lemma_digits(r: int, g: int, b: int)
    requires
        0 <= r <= 255,
        0 <= g <= 255,
        0 <= b <= 255,
    ensures
        digits(r * 0x10000 + g * 0x100 + b, 0) == r,
        digits(r * 0x10000 + g * 0x100 + b, 1) == g,
        digits(r * 0x10000 + g * 0x100 + b, 2) == b,
        0 <= r * 0x10000 + g * 0x100 + b <= 0xff_ffff,
{
}

proof fn lemma_fold(voxels: Seq<Voxel>, k: int)
    requires
        0 <= k < 3,
    ensures
        channel_sum(voxels, k) == voxels.fold_left(
            0int,
            |sum: int, v: Voxel| sum + digits(v.color as int, k),
        ),
    decreases voxels.len(),
{
    reveal(Seq::fold_left);
    if voxels.len() > 0 {
        lemma_fold(voxels.drop_last(), k);
    }
}

proof fn lemma_mean_bounds(sum: int, n: int)
    requires
        0 < n,
        0 <= sum <= 255 * n,
    ensures
        0 <= sum / n <= 255,
        sum / n * n <= sum < (sum / n + 1) * n,
{
    assert(0 <= sum / n <= 255 && sum / n * n <= sum < (sum / n + 1) * n) by (nonlinear_arith)
        requires
            0 < n,
            0 <= sum <= 255 * n,
    ;
}

/// The voxels of a material.
pub open spec fn of_material(voxels: Seq<Voxel>, m: MaterialId) -> Seq<Voxel> {
    voxels.filter(|v: Voxel| v.material == m)
}

proof fn lemma_of_material(voxels: Seq<Voxel>, m: MaterialId)
    ensures
        of_material(voxels, m).len() == material_count(voxels, material_rank(m)),
    decreases voxels.len(),
{
    reveal(Seq::filter);
    if voxels.len() > 0 {
        lemma_of_material(voxels.drop_last(), m);
        let v = voxels.last().material;
        assert(material_rank(v) == material_rank(m) ==> v == m);
    }
}

/// The materials that a blend can be of.
pub open spec fn blendable(m: MaterialId) -> bool {
    m == MaterialId::Plastic || m == MaterialId::Metal || m == MaterialId::Rubber || m
        == MaterialId::Glass || m == MaterialId::Water || m == MaterialId::Glow
}

/// The material of a blend is one of those that it can be of, none of which is
/// commoner among its voxels; of several as common it is the first in the list.
pub proof fn law_blend_is_of_the_commonest_material(voxels: Seq<Voxel>, other: MaterialId)
    ensures
        blendable(blended(voxels).1),
        blendable(other) ==> of_material(voxels, other).len() <= of_material(
            voxels,
            blended(voxels).1,
        ).len(),
        blendable(other) && material_rank(other) < material_rank(blended(voxels).1) ==> of_material(
            voxels,
            other,
        ).len() < of_material(voxels, blended(voxels).1).len(),
{
    lemma_of_material(voxels, other);
    lemma_of_material(voxels, blended(voxels).1);
    if voxels.len() > 0 {
        law_commonest(voxels, 6);
        assert(material_rank(blended(voxels).1) == commonest_rank(voxels, 6));
    } else {
        assert(material_count(voxels, material_rank(other)) == 0);
    }
}

/// A blend of nothing is a grey plastic.
pub proof fn law_blend_of_nothing()
    ensures
        blended(Seq::<Voxel>::empty()) == (0x88_8888int, MaterialId::Plastic),
{
}

} // verus!
