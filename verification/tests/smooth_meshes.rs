use std::cell::{Cell, RefCell};

use voxel_view::distinct::unique_cells;
use voxel_view::smooth_mesh::buckets::{bucket_key_parts, coord_key, sort_into_buckets};
use voxel_view::smooth_mesh::contour::dual_contour_bucket;
use voxel_view::smooth_mesh::crossing::{
    corner_offset, crossing_steps, edge_corners, sample_field, EDGE_UNITS,
};
use voxel_view::smooth_mesh::lattice::{
    build_lattice_field, cell_bounds, idx, lattice_addressable,
};
use voxel_view::smooth_mesh::marching::{marching_cubes_bucket, weld_vertices_to_mesh};
use voxel_view::smooth_mesh::marching_tables::triangle_edges;
use voxel_view::smooth_mesh::surface::{merge_mesh_buffers, SurfaceMesh};
use voxel_view::smooth_mesh::whole_model::{
    build_dual_contour_in_order, build_dual_contour_merged, build_dual_contour_merged_cancellable,
    build_dual_contour_merged_with_progress, build_marching_cubes_in_order,
    build_marching_cubes_merged, build_marching_cubes_merged_cancellable,
    build_marching_cubes_merged_with_progress, buckets_addressable, contour_step, finish,
    marching_step, model_addressable, voxel_map,
};
use voxel_view::voxelle::{MaterialId, Voxel};

fn voxel(x: i32, y: i32, z: i32, color: u32, material: MaterialId) -> Voxel {
    Voxel { x, y, z, color, material, object_id: 0 }
}

fn plain(x: i32, y: i32, z: i32) -> Voxel {
    voxel(x, y, z, 0x102030, MaterialId::Plastic)
}

fn well_formed(m: &SurfaceMesh) -> bool {
    m.owners.len() == m.samples.len()
        && m.owners.iter().all(|&o| o < m.vertices.len())
        && m.indices.iter().all(|&i| i < m.vertices.len())
        && m.indices.len() % 3 == 0
}

/// Vertices less edges plus faces of a closed surface: every side of a triangle
/// is met once in either direction.
fn euler(m: &SurfaceMesh) -> i64 {
    let mut sides: Vec<(usize, usize)> = Vec::new();
    for t in m.indices.chunks(3) {
        sides.push((t[0], t[1]));
        sides.push((t[1], t[2]));
        sides.push((t[2], t[0]));
    }
    for &(a, b) in &sides {
        assert_eq!(sides.iter().filter(|&&s| s == (a, b)).count(), 1);
        assert_eq!(sides.iter().filter(|&&s| s == (b, a)).count(), 1);
    }
    m.vertices.len() as i64 - (sides.len() / 2) as i64 + (m.indices.len() / 3) as i64
}

#[test]
fn first_occurrences_stay() {
    let cells = [(1, 2, 3), (0, 0, 0), (1, 2, 3), (4, 4, 4), (0, 0, 0)];
    let once = unique_cells(&cells);
    assert_eq!(once, vec![(1, 2, 3), (0, 0, 0), (4, 4, 4)]);
    assert_eq!(unique_cells(&once), once);
    assert!(unique_cells(&[]).is_empty());
}

#[test]
fn bounds_are_tight() {
    assert_eq!(cell_bounds(&[(3, -1, 0), (-2, 5, 0), (0, 0, 7)]), ((-2, -1, 0), (3, 5, 7)));
    assert_eq!(cell_bounds(&[(9, 9, 9)]), ((9, 9, 9), (9, 9, 9)));
}

#[test]
fn nodes_stand_row_by_row() {
    assert_eq!(idx(0, 0, 0, 4, 5), 0);
    assert_eq!(idx(3, 0, 0, 4, 5), 3);
    assert_eq!(idx(0, 1, 0, 4, 5), 4);
    assert_eq!(idx(1, 2, 3, 4, 5), 1 + 2 * 4 + 3 * 20);
}

#[test]
fn lattice_of_one_cell() {
    let voxels = [voxel(5, 0, -3, 0x102030, MaterialId::Glass)];
    let map = voxel_map(&voxels);
    let field = build_lattice_field(&map, &map, &voxels).unwrap();
    assert_eq!((field.node_min_x, field.node_min_y, field.node_min_z), (4, -1, -4));
    assert_eq!((field.nx, field.ny, field.nz), (4, 4, 4));
    assert_eq!(field.bucket_material, MaterialId::Glass);
    assert_eq!(field.values.len(), 64);
    for z in 0..4i32 {
        for y in 0..4i32 {
            for x in 0..4i32 {
                let inner = (1..3).contains(&x) && (1..3).contains(&y) && (1..3).contains(&z);
                let i = idx(x as usize, y as usize, z as usize, 4, 4);
                assert_eq!(field.values[i], if inner { 1 } else { 0 });
                assert_eq!(field.colors[i].count, if inner { 1 } else { 0 });
                assert_eq!(field.colors[i].g, if inner { 0x20 } else { 0 });
                assert_eq!(sample_field(&field.values, x, y, z, 4, 4, 4), field.values[i]);
            }
        }
    }
    assert_eq!(sample_field(&field.values, -1, 1, 1, 4, 4, 4), 0);
    assert_eq!(sample_field(&field.values, 1, 4, 1, 4, 4, 4), 0);
}

#[test]
fn lattice_counts_the_cells_round_a_node() {
    let voxels = [plain(0, 0, 0), plain(1, 0, 0), plain(0, 1, 0), plain(1, 1, 1)];
    let map = voxel_map(&voxels);
    let field = build_lattice_field(&map, &map, &voxels).unwrap();
    let at = |x: i32, y: i32, z: i32| {
        sample_field(&field.values, x + 1, y + 1, z + 1, field.nx, field.ny, field.nz)
    };
    assert_eq!(at(1, 1, 1), 4);
    assert_eq!(at(1, 0, 0), 2);
    assert_eq!(at(0, 0, 0), 1);
    assert_eq!(at(-1, 0, 0), 0);
}

#[test]
fn colours_prefer_the_coloured_cells() {
    let voxels = [
        voxel(0, 0, 0, 0x0000ff, MaterialId::Plastic),
        voxel(1, 0, 0, 0xff0000, MaterialId::Plastic),
    ];
    let both = voxel_map(&voxels);
    let mut first = voxel_map(&voxels[..1]);
    let field = build_lattice_field(&first, &both, &voxels).unwrap();
    let shared = idx(2, 1, 1, field.nx, field.ny);
    assert_eq!(field.values[shared], 2);
    assert_eq!((field.colors[shared].r, field.colors[shared].b), (0, 0xff));
    let far = idx(3, 1, 1, field.nx, field.ny);
    assert_eq!((field.colors[far].r, field.colors[far].b), (0xff, 0));
    first.clear();
    assert!(build_lattice_field(&first, &both, &voxels).is_none());
    assert!(build_lattice_field(&both, &first, &voxels).is_none());
}

#[test]
fn crossings_are_exact() {
    assert_eq!(EDGE_UNITS, 1680);
    for full in 1..=8i32 {
        let step = crossing_steps(0, full);
        assert_eq!(2 * step * full, EDGE_UNITS as i32);
        assert_eq!(crossing_steps(full, 0), EDGE_UNITS as i32 - step);
    }
    assert_eq!(crossing_steps(3, 3), 840);
}

#[test]
fn edges_join_neighbouring_corners() {
    for e in 0..12usize {
        let (a, b) = edge_corners(e);
        let (p, q) = (corner_offset(a), corner_offset(b));
        assert_eq!((p.0 - q.0).abs() + (p.1 - q.1).abs() + (p.2 - q.2).abs(), 1);
    }
    assert_eq!(corner_offset(0), (0, 0, 0));
}

#[test]
fn triangles_lie_on_crossed_edges() {
    assert!(triangle_edges(0).is_empty());
    assert!(triangle_edges(255).is_empty());
    assert_eq!(triangle_edges(1), vec![0, 8, 3]);
    for pattern in 0..256usize {
        let edges = triangle_edges(pattern);
        assert_eq!(edges.len() % 3, 0);
        for e in edges {
            let (a, b) = edge_corners(e);
            assert_ne!((pattern >> a) & 1, (pattern >> b) & 1);
        }
    }
}

#[test]
fn marched_cell_is_closed() {
    let voxels = [plain(0, 0, 0)];
    let map = voxel_map(&voxels);
    let mesh = marching_cubes_bucket(&map, &voxels).unwrap();
    assert!(well_formed(&mesh));
    assert_eq!(mesh.vertices.len(), 24);
    assert_eq!(mesh.indices.len(), 132);
    assert_eq!(euler(&mesh), 2);
    assert!(mesh.vertices.iter().any(|v| v.place == (0, 500_000, 500_000)));
    assert!(mesh.vertices.iter().any(|v| v.place == (1_500_000, 2_000_000, 500_000)));
    for s in &mesh.samples {
        assert_eq!(s.step, 840);
        assert!((s.value_a == 0) != (s.value_b == 0));
        assert_eq!((s.color.count, s.color.r, s.color.g, s.color.b), (1, 0x10, 0x20, 0x30));
    }
}

#[test]
fn contoured_cell_is_closed() {
    let voxels = [plain(0, 0, 0)];
    let map = voxel_map(&voxels);
    let mesh = dual_contour_bucket(&map, &map, &voxels).unwrap();
    assert!(well_formed(&mesh));
    assert_eq!(mesh.vertices.len(), 26);
    assert_eq!(mesh.indices.len(), 144);
    assert_eq!(euler(&mesh), 2);
}

#[test]
fn longer_shapes_are_closed() {
    let voxels: Vec<Voxel> =
        vec![plain(0, 0, 0), plain(1, 0, 0), plain(2, 0, 0), plain(0, 1, 0), plain(0, 0, 1)];
    assert_eq!(euler(&build_marching_cubes_merged(&voxels)), 2);
    assert_eq!(euler(&build_dual_contour_merged(&voxels)), 2);
}

#[test]
fn surface_is_nothing_without_cells() {
    let empty = voxel_map(&[]);
    assert!(marching_cubes_bucket(&empty, &[]).is_none());
    assert!(dual_contour_bucket(&empty, &empty, &[]).is_none());
    assert!(build_marching_cubes_merged(&[]).vertices.is_empty());
    assert!(build_dual_contour_merged(&[]).indices.is_empty());
}

#[test]
fn welding_joins_equal_places() {
    let voxels = [plain(0, 0, 0)];
    let map = voxel_map(&voxels);
    let mesh = marching_cubes_bucket(&map, &voxels).unwrap();
    let raw = mesh.samples.len();
    let again = weld_vertices_to_mesh(mesh.samples, MaterialId::Wax);
    assert_eq!(again.samples.len(), raw);
    assert_eq!(raw, again.indices.len());
    assert_eq!(again.vertices.len(), 24);
    assert!(again.vertices.iter().all(|v| v.material == MaterialId::Wax));
    for i in 0..again.vertices.len() {
        for j in 0..i {
            assert_ne!(again.vertices[i].place, again.vertices[j].place);
        }
    }
    assert_eq!(weld_vertices_to_mesh(Vec::new(), MaterialId::Wax).vertices.len(), 0);
}

#[test]
fn merged_parts_keep_their_counts() {
    let part = || {
        let voxels = [plain(0, 0, 0)];
        marching_cubes_bucket(&voxel_map(&voxels), &voxels).unwrap()
    };
    let one = part();
    let two = merge_mesh_buffers(vec![part(), SurfaceMesh::empty(), part()]);
    assert!(well_formed(&two));
    assert_eq!(two.vertices.len(), 2 * one.vertices.len());
    assert_eq!(two.indices.len(), 2 * one.indices.len());
    assert_eq!(two.indices[one.indices.len()], one.indices[0] + one.vertices.len());
    assert_eq!(merge_mesh_buffers(Vec::new()).vertices.len(), 0);
}

#[test]
fn buckets_are_by_colour_and_material() {
    assert_eq!(bucket_key_parts(&voxel(0, 0, 0, 0xabcdef, MaterialId::Glow)), (0xabcdef, 5));
    assert_eq!(coord_key(1, -2, 3), (1, -2, 3));
    let voxels = [
        voxel(0, 0, 0, 1, MaterialId::Plastic),
        voxel(9, 0, 0, 1, MaterialId::Glass),
        voxel(18, 0, 0, 1, MaterialId::Plastic),
        voxel(27, 0, 0, 2, MaterialId::Plastic),
    ];
    let seen = RefCell::new(Vec::new());
    let mesh = build_marching_cubes_merged_with_progress(&voxels, |done, total| {
        seen.borrow_mut().push((done, total));
    });
    assert_eq!(*seen.borrow(), vec![(1, 3), (2, 3), (3, 3)]);
    assert_eq!(mesh.vertices.len(), 4 * 24);
    assert_eq!(mesh.vertices.iter().filter(|v| v.material == MaterialId::Glass).count(), 24);
    let told = Cell::new(0);
    let contoured = build_dual_contour_merged_with_progress(&voxels, |_, _| {
        told.set(told.get() + 1);
    });
    assert_eq!(told.get(), 3);
    // Every bucket contours the whole model, in its own colours.
    assert_eq!(contoured.vertices.len(), 3 * 4 * 26);
}

#[test]
fn given_order_is_followed() {
    let voxels = [
        voxel(0, 0, 0, 7, MaterialId::Plastic),
        voxel(9, 0, 0, 5, MaterialId::Metal),
    ];
    let order = vec![(5, 1), (7, 0)];
    let mesh = build_marching_cubes_in_order(&voxels, &order, |_, _| {}, || false);
    assert!(mesh.vertices[..24].iter().all(|v| v.material == MaterialId::Metal));
    assert!(mesh.vertices[24..].iter().all(|v| v.material == MaterialId::Plastic));
    let dual = build_dual_contour_in_order(&voxels, &order, |_, _| {}, || false);
    assert_eq!(dual.vertices[0].material, MaterialId::Metal);
    assert_eq!(dual.vertices.len(), 2 * 2 * 26);
}

#[test]
fn cancelled_surface_is_empty() {
    let voxels = [plain(0, 0, 0)];
    let told = Cell::new(0);
    let mesh = build_marching_cubes_merged_cancellable(
        &voxels,
        |_, _| told.set(told.get() + 1),
        || true,
    );
    assert!(mesh.vertices.is_empty() && mesh.indices.is_empty());
    assert_eq!(told.get(), 0);
    let dual = build_dual_contour_merged_cancellable(&voxels, |_, _| {}, || true);
    assert!(dual.vertices.is_empty());
    let kept = build_dual_contour_merged_cancellable(&voxels, |_, _| {}, || false);
    assert_eq!(kept.vertices.len(), 26);
}

#[test]
fn cancel_after_the_last_bucket_is_heard() {
    let voxels = [plain(0, 0, 0), voxel(4, 0, 0, 9, MaterialId::Wax)];
    let done = Cell::new(false);
    let mesh = build_marching_cubes_merged_cancellable(
        &voxels,
        |n, total| done.set(n == total),
        || done.get(),
    );
    assert!(done.get() && mesh.vertices.is_empty() && mesh.indices.is_empty());
    done.set(false);
    let dual = build_dual_contour_merged_cancellable(
        &voxels,
        |n, total| done.set(n == total),
        || done.get(),
    );
    assert!(done.get() && dual.vertices.is_empty());
    let none = build_marching_cubes_merged_cancellable(&[], |_, _| {}, || panic!("asked"));
    assert!(none.vertices.is_empty());
}

#[test]
fn a_step_goes_by_the_answer() {
    let voxels = [plain(0, 0, 0), voxel(4, 0, 0, 9, MaterialId::Wax)];
    let buckets = sort_into_buckets(&voxels);
    let full = voxel_map(&voxels);
    let mut parts = Vec::new();
    assert!(!marching_step(&voxels, &buckets, (9, 7), true, &mut parts));
    assert!(!contour_step(&voxels, &buckets, &full, (9, 7), true, &mut parts));
    assert!(parts.is_empty());
    assert!(marching_step(&voxels, &buckets, (9, 7), false, &mut parts));
    assert_eq!((parts.len(), parts[0].vertices.len()), (1, 24));
    assert!(marching_step(&voxels, &buckets, (1, 1), false, &mut parts));
    assert_eq!(parts.len(), 1);
    assert!(contour_step(&voxels, &buckets, &full, (9, 7), false, &mut parts));
    assert!(!marching_step(&voxels, &buckets, (9, 7), true, &mut parts));
    assert_eq!((parts.len(), parts[1].vertices.len()), (2, 52));
    assert_eq!(finish(parts, false).vertices.len(), 76);
    let mut again = Vec::new();
    assert!(marching_step(&voxels, &buckets, (9, 7), false, &mut again));
    assert!(finish(again, true).vertices.is_empty());
}

#[test]
fn a_cancel_between_buckets_is_heard() {
    let voxels = [plain(0, 0, 0), voxel(4, 0, 0, 9, MaterialId::Wax), plain(8, 0, 0)];
    for stop in 0..3 {
        let (asked, told) = (Cell::new(0), Cell::new(0));
        let cancel = || {
            asked.set(asked.get() + 1);
            asked.get() == stop + 1
        };
        let progress = |_, _| told.set(told.get() + 1);
        let mesh = build_marching_cubes_merged_cancellable(&voxels, progress, cancel);
        assert!(mesh.vertices.is_empty());
        assert_eq!((asked.get(), told.get()), (stop + 1, stop));
        asked.set(0);
        let dual = build_dual_contour_merged_cancellable(&voxels, |_, _| {}, cancel);
        assert!(dual.vertices.is_empty());
        assert_eq!(asked.get(), stop + 1);
    }
}

#[test]
fn counts_add_up_over_the_groups() {
    let voxels = [
        voxel(0, 0, 0, 1, MaterialId::Plastic),
        voxel(1, 0, 0, 2, MaterialId::Plastic),
        voxel(5, 0, 0, 1, MaterialId::Plastic),
    ];
    let whole = build_marching_cubes_merged(&voxels);
    let first = build_marching_cubes_merged(&[voxels[0], voxels[2]]);
    let second = build_marching_cubes_merged(&voxels[1..2]);
    assert_eq!(whole.vertices.len(), first.vertices.len() + second.vertices.len());
    assert_eq!(whole.indices.len(), first.indices.len() + second.indices.len());
    let repeated = [voxels[0], voxels[1], voxels[2], voxels[0]];
    let again = build_marching_cubes_merged(&repeated);
    assert_eq!(
        (again.vertices.len(), again.indices.len()),
        (whole.vertices.len(), whole.indices.len())
    );
    let dual = build_dual_contour_merged(&voxels);
    let one: Vec<Voxel> = voxels.iter().map(|v| Voxel { color: 3, ..*v }).collect();
    let single = build_dual_contour_merged(&one);
    assert_eq!(dual.vertices.len(), 2 * single.vertices.len());
    assert_eq!(dual.indices.len(), 2 * single.indices.len());
}

#[test]
fn coloured_cells_need_not_be_occupied() {
    let voxels = [plain(0, 0, 0), voxel(9, 9, 9, 5, MaterialId::Wax)];
    let occupied = voxel_map(&voxels[..1]);
    let mut coloured = voxel_map(&voxels);
    coloured.remove(&(0, 0, 0));
    let mesh = dual_contour_bucket(&coloured, &occupied, &voxels).unwrap();
    assert_eq!((mesh.vertices.len(), mesh.indices.len()), (26, 144));
    assert!(mesh.vertices.iter().all(|v| v.material == MaterialId::Wax));
    assert!(mesh.samples.iter().all(|s| s.color.b == 0x30));
}

#[test]
fn models_are_addressable_unless_too_wide() {
    let far = [plain(-200_000, 0, 0), plain(200_000, 0, 0)];
    assert!(model_addressable(&far) && buckets_addressable(&far));
    let edge = [plain(i32::MAX, 0, 0)];
    assert!(!model_addressable(&edge) && !buckets_addressable(&edge));
    let wide = [plain(-2_000_000_000, 0, 0), voxel(2_000_000_000, 0, 0, 9, MaterialId::Wax)];
    assert!(!model_addressable(&wide) && buckets_addressable(&wide));
    assert!(model_addressable(&[]) && buckets_addressable(&[]));
    assert!(lattice_addressable(&[(0, 0, 0)]));
}

#[test]
fn last_voxel_of_a_cell_counts() {
    let voxels = [plain(1, 1, 1), voxel(2, 2, 2, 9, MaterialId::Wax), plain(1, 1, 1)];
    let map = voxel_map(&voxels);
    assert_eq!(map.len(), 2);
    assert_eq!(map.get(&(1, 1, 1)), Some(&2));
    assert_eq!(map.get(&(2, 2, 2)), Some(&1));
}
