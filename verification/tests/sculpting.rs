use voxel_view::sculpt_mesh_smooth::adjacency::build_adjacency;
use voxel_view::sculpt_mesh_smooth::blend::{blend_voxels_for_smooth, PROXY_COLOR};
use voxel_view::sculpt_mesh_smooth::laplacian::{
    apply_sculpt_smooth_mesh_laplacian, has_triangle, nearest_original_voxel, plan_mesh_laplacian,
    LaplacianPlan,
    SculptSmoothVariant, MAX_LAPLACIAN_ROI_CELLS,
};
use voxel_view::sculpt_mesh_smooth::majority::apply_sculpt_smooth_majority_pass;
use voxel_view::sculpt_mesh_smooth::region::{
    list_region, roi_cell_count, roi_from_footprint_margin,
};
use voxel_view::sculpt_mesh_smooth::thresholds::smooth_thresholds;
use voxel_view::smooth_mesh::whole_model::voxel_map;
use voxel_view::voxel_index::{append_voxel, remove_voxel_at};
use voxel_view::voxelle::{
    color_channels, in_grid_bounds, pack_color, GridRange, MaterialId, Voxel, VoxelEditDelta,
    VoxelleFile,
};

const GRID: GridRange = GridRange { lo: -64, hi: 63 };

fn voxel(x: i32, y: i32, z: i32, color: u32) -> Voxel {
    Voxel { x, y, z, color, material: MaterialId::Plastic, object_id: 0 }
}

fn file(voxels: Vec<Voxel>) -> VoxelleFile {
    VoxelleFile { voxels, active_object_id: 7 }
}

/// Cells of the cube from the origin with `n` cells along each side.
fn cube(n: i32) -> Vec<Voxel> {
    let mut out = Vec::new();
    for x in 0..n {
        for y in 0..n {
            for z in 0..n {
                out.push(voxel(x, y, z, 0x808080));
            }
        }
    }
    out
}

/// The edits, made one after the other on a copy of the model, without its map.
fn replayed(before: &[Voxel], edits: &[VoxelEditDelta]) -> Vec<(i32, i32, i32, u32)> {
    let mut cells: Vec<Voxel> = before.to_vec();
    for e in edits {
        match *e {
            VoxelEditDelta::Added(v) => cells.push(v),
            VoxelEditDelta::Removed { voxel } => cells.retain(|v| *v != voxel),
            VoxelEditDelta::Painted { before, after } => {
                let at = cells.iter().position(|v| *v == before).unwrap();
                cells[at] = after;
            }
        }
    }
    sorted(&cells)
}

fn sorted(voxels: &[Voxel]) -> Vec<(i32, i32, i32, u32)> {
    let mut out: Vec<_> = voxels.iter().map(|v| (v.x, v.y, v.z, v.color)).collect();
    out.sort();
    out
}

#[test]
fn materials_round_trip() {
    for i in 0..9u8 {
        assert_eq!(MaterialId::from_index(i).material_index(), i);
    }
    assert_eq!(MaterialId::from_index(200), MaterialId::Plastic);
}

#[test]
fn colours_take_apart() {
    assert_eq!(color_channels(0xff123456), (0x12, 0x34, 0x56));
    assert_eq!(pack_color(0x12, 0x34, 0x56), 0x123456);
}

#[test]
fn grid_includes_both_ends() {
    assert!(in_grid_bounds(-64, 63, 0, GRID));
    assert!(!in_grid_bounds(-65, 0, 0, GRID));
    assert!(!in_grid_bounds(0, 64, 0, GRID));
    assert!(!in_grid_bounds(0, 0, 64, GRID));
}

#[test]
fn removed_voxel_is_replaced_by_the_last() {
    let mut voxels = vec![voxel(0, 0, 0, 1), voxel(1, 0, 0, 2)];
    let mut map = voxel_map(&voxels);
    append_voxel(&mut voxels, &mut map, voxel(2, 0, 0, 3));
    assert_eq!(map.get(&(2, 0, 0)), Some(&2));
    assert_eq!(remove_voxel_at(&mut voxels, &mut map, (0, 0, 0)), Some(voxel(0, 0, 0, 1)));
    assert_eq!(voxels, vec![voxel(2, 0, 0, 3), voxel(1, 0, 0, 2)]);
    assert_eq!(map.get(&(2, 0, 0)), Some(&0));
    assert_eq!(map.get(&(0, 0, 0)), None);
    assert_eq!(remove_voxel_at(&mut voxels, &mut map, (0, 0, 0)), None);
    assert_eq!(remove_voxel_at(&mut voxels, &mut map, (1, 0, 0)), Some(voxel(1, 0, 0, 2)));
    assert_eq!(map.len(), 1);
}

#[test]
fn thresholds_follow_the_aggressiveness() {
    assert_eq!(smooth_thresholds(6, 0), (5, 1));
    assert_eq!(smooth_thresholds(6, 100), (4, 2));
    assert_eq!(smooth_thresholds(26, 0), (22, 4));
    assert_eq!(smooth_thresholds(26, 50), (20, 6));
    assert_eq!(smooth_thresholds(10, 80), (8, 3));
    assert_eq!(smooth_thresholds(20, 80), (15, 6));
    assert_eq!(smooth_thresholds(26, 500), smooth_thresholds(26, 100));
}

#[test]
fn thresholds_carry_the_sign_of_the_count() {
    assert_eq!(smooth_thresholds(0, 30), (0, 0));
    assert_eq!(smooth_thresholds(-6, 0), (-5, -1));
    assert_eq!(smooth_thresholds(-26, 50), (-19, -7));
    assert_eq!(smooth_thresholds(i32::MIN, 0), (-1_789_569_664, -357_913_952));
    let f = |n: i32, a: u32| {
        let t = a as f32 / 100.0;
        let fill = (5.0 / 6.0) * (1.0 - t) + (4.0 / 6.0) * t;
        let remove = (1.0 / 6.0) * (1.0 - t) + (2.0 / 6.0) * t;
        ((fill * n as f32).ceil() as i32, (remove * n as f32).floor() as i32)
    };
    for n in [i32::MIN, i32::MIN + 77, -16_777_217, -343, -27, -1, 0, 1, 26, i32::MAX] {
        for a in 0..=100 {
            assert_eq!(smooth_thresholds(n, a), f(n, a));
        }
    }
}

#[test]
fn blend_averages_and_votes() {
    assert_eq!(blend_voxels_for_smooth(&[]), (PROXY_COLOR, MaterialId::Plastic));
    let mut a = voxel(0, 0, 0, 0x100000);
    let mut b = voxel(1, 0, 0, 0x200004);
    a.material = MaterialId::Glass;
    b.material = MaterialId::Glow;
    let c = Voxel { material: MaterialId::Glow, ..voxel(2, 0, 0, 0x300008) };
    assert_eq!(blend_voxels_for_smooth(&[a, b, c]), (0x200004, MaterialId::Glow));
    // Only the first six materials have a vote.
    a.material = MaterialId::Wax;
    assert_eq!(blend_voxels_for_smooth(&[a]), (0x100000, MaterialId::Plastic));
}

#[test]
fn majority_removes_a_spike() {
    let mut voxels = cube(3);
    voxels.push(voxel(1, 1, 3, 0xff0000));
    let before = voxels.clone();
    let mut f = file(voxels);
    let mut map = voxel_map(&f.voxels);
    let edits = apply_sculpt_smooth_majority_pass(
        &mut f,
        &mut map,
        &[(1, 1, 3), (1, 1, 3)],
        GRID,
        0,
        100,
        0,
        MaterialId::Plastic,
    );
    assert_eq!(edits, vec![VoxelEditDelta::Removed { voxel: voxel(1, 1, 3, 0xff0000) }]);
    assert_eq!(sorted(&f.voxels), sorted(&cube(3)));
    assert_eq!(sorted(&f.voxels), replayed(&before, &edits));
    assert_eq!(f.active_object_id, 7);
}

#[test]
fn majority_fills_a_pit() {
    let mut voxels = cube(3);
    voxels.retain(|v| (v.x, v.y, v.z) != (1, 1, 1));
    let before = voxels.clone();
    let mut f = file(voxels);
    let mut map = voxel_map(&f.voxels);
    let edits = apply_sculpt_smooth_majority_pass(
        &mut f,
        &mut map,
        &[(1, 1, 1)],
        GRID,
        1,
        0,
        0xffffff,
        MaterialId::Glow,
    );
    let added = Voxel { object_id: 7, ..voxel(1, 1, 1, 0x808080) };
    assert_eq!(edits, vec![VoxelEditDelta::Added(added)]);
    assert_eq!(f.voxels[map[&(1, 1, 1)]], added);
    assert_eq!(sorted(&f.voxels), replayed(&before, &edits));
}

#[test]
fn majority_leaves_other_cells() {
    let mut f = file(cube(3));
    let mut map = voxel_map(&f.voxels);
    let edits = apply_sculpt_smooth_majority_pass(
        &mut f,
        &mut map,
        &[],
        GRID,
        1,
        100,
        0,
        MaterialId::Plastic,
    );
    assert!(edits.is_empty());
    assert_eq!(sorted(&f.voxels), sorted(&cube(3)));
}

#[test]
fn region_stays_in_the_grid() {
    assert_eq!(roi_from_footprint_margin(&[], 3, GRID), None);
    let roi = roi_from_footprint_margin(&[(62, 0, -63), (60, 1, -63)], 2, GRID).unwrap();
    assert_eq!(roi, (58, -2, -64, 63, 3, -61));
    assert_eq!(roi_cell_count(58, -2, -64, 63, 3, -61), 6 * 6 * 4);
    assert_eq!(roi_cell_count(1, 0, 0, 0, 0, 0), 0);
    let cells = list_region((0, 5, 9, 1, 6, 9));
    assert_eq!(cells.len(), 4);
    for c in [(0, 5, 9), (1, 5, 9), (0, 6, 9), (1, 6, 9)] {
        assert_eq!(cells.iter().filter(|d| **d == c).count(), 1);
    }
    assert_eq!(
        roi_from_footprint_margin(&[(0, 0, 0)], -5, GRID),
        Some((0, 0, 0, 0, 0, 0)),
    );
}

#[test]
fn plan_is_nothing_without_a_footprint() {
    let f = file(cube(2));
    let map = voxel_map(&f.voxels);
    assert!(matches!(plan_mesh_laplacian(&f, &map, &[], GRID, 2), LaplacianPlan::Nothing));
}

#[test]
fn plan_falls_back_to_the_majority_on_large_regions() {
    let f = file(cube(2));
    let map = voxel_map(&f.voxels);
    let far = [(-40, -40, -40), (40, 40, 40)];
    assert!(MAX_LAPLACIAN_ROI_CELLS < 81 * 81 * 81);
    assert!(matches!(plan_mesh_laplacian(&f, &map, &far, GRID, 0), LaplacianPlan::Majority));
}

#[test]
fn empty_region_is_smoothed_by_majority() {
    let round: Vec<Voxel> = [(1, 0, 0), (-1, 0, 0), (0, 1, 0), (0, -1, 0), (0, 0, 1), (0, 0, -1)]
        .iter()
        .map(|c| voxel(c.0, c.1, c.2, 7))
        .collect();
    let mut f = file(round.clone());
    let mut map = voxel_map(&f.voxels);
    assert!(matches!(
        plan_mesh_laplacian(&f, &map, &[(0, 0, 0)], GRID, 0),
        LaplacianPlan::Majority
    ));
    let mut by_majority = file(round);
    let mut other = voxel_map(&by_majority.voxels);
    let expected = apply_sculpt_smooth_majority_pass(
        &mut by_majority,
        &mut other,
        &[(0, 0, 0)],
        GRID,
        1,
        50,
        9,
        MaterialId::Glow,
    );
    let edits = apply_sculpt_smooth_mesh_laplacian(
        &mut f,
        &mut map,
        &[(0, 0, 0)],
        GRID,
        0,
        1,
        50,
        9,
        MaterialId::Glow,
        &None,
    );
    assert_eq!(edits.len(), expected.len());
    assert_eq!(sorted(&f.voxels), sorted(&by_majority.voxels));
}

#[test]
fn triangles_need_three_corners() {
    assert!(!has_triangle(2) && has_triangle(3));
}

#[test]
fn far_cells_are_counted_and_measured() {
    let (lo, hi) = (i32::MIN, i32::MAX);
    assert_eq!(roi_cell_count(lo, lo, 0, hi, hi, 0), i64::MAX);
    assert_eq!(roi_cell_count(lo, 0, 0, hi, 0, 0), 1 << 32);
    let all = vec![voxel(lo, lo, lo, 1), voxel(hi, hi, 0, 2)];
    assert_eq!(nearest_original_voxel((hi, hi, hi), &all).unwrap().color, 2);
}

#[test]
fn thresholds_move_together_and_stay_apart() {
    for n in [1, 6, 26, 124, 342] {
        for a in 0..100 {
            let (fill, empty) = smooth_thresholds(n, a);
            let more = smooth_thresholds(n, a + 1);
            assert!(more.0 <= fill && empty <= more.1 && empty < fill);
        }
    }
}

#[test]
fn plan_lists_the_voxels_of_the_region() {
    let f = file(cube(2));
    let map = voxel_map(&f.voxels);
    match plan_mesh_laplacian(&f, &map, &[(0, 0, 0)], GRID, 1) {
        LaplacianPlan::Mesh { emit, roi } => {
            assert_eq!(roi, (-1, -1, -1, 1, 1, 1));
            assert_eq!(sorted(&emit).len(), 8);
        }
        other => panic!("{:?}", other),
    }
}

#[test]
fn rebuilt_region_is_what_was_inside() {
    let mut f = file(vec![voxel(0, 0, 0, 0xaa0000), voxel(9, 9, 9, 1)]);
    let before = f.voxels.clone();
    let mut map = voxel_map(&f.voxels);
    let roi = (-1, -1, -1, 1, 1, 1);
    let inside: Vec<bool> = list_region(roi).iter().map(|c| *c == (1, 0, 0)).collect();
    let edits = apply_sculpt_smooth_mesh_laplacian(
        &mut f,
        &mut map,
        &[(0, 0, 0)],
        GRID,
        1,
        1,
        50,
        0x123456,
        MaterialId::Glow,
        &Some(inside),
    );
    let cells: Vec<_> = sorted(&f.voxels).iter().map(|v| (v.0, v.1, v.2)).collect();
    assert_eq!(cells, vec![(1, 0, 0), (9, 9, 9)]);
    assert_eq!(f.voxels[map[&(1, 0, 0)]].color, 0xaa0000);
    assert_eq!(sorted(&f.voxels), replayed(&before, &edits));
}

#[test]
fn nearest_voxel_is_the_first_of_the_nearest() {
    let all = vec![voxel(0, 0, 0, 1), voxel(4, 0, 0, 2), voxel(0, 4, 0, 3)];
    assert_eq!(nearest_original_voxel((3, 0, 0), &all).unwrap().color, 2);
    assert_eq!(nearest_original_voxel((2, 0, 0), &all).unwrap().color, 1);
    assert_eq!(nearest_original_voxel((2, 0, 0), &Vec::new()), None);
}

#[test]
fn default_variant_smooths_by_majority() {
    assert_eq!(SculptSmoothVariant::default(), SculptSmoothVariant::Majority);
}

#[test]
fn adjacency_lists_each_neighbour_once() {
    let adj = build_adjacency(5, &[0, 1, 2, 2, 1, 3, 9, 0, 1, 4]);
    let mut lists = adj;
    for l in lists.iter_mut() {
        l.sort();
    }
    assert_eq!(lists, vec![vec![1, 2], vec![0, 2, 3], vec![0, 1, 3], vec![1, 2], vec![]]);
}
