//! What node values, colours and slopes say of the cells.
//!
//! Each law speaks of the filled cells themselves: of the empty model, of what one
//! more cell changes, and of models that are turned or mirrored.

use vstd::prelude::*;

use crate::smooth_mesh::crossing::{
    cell_crossing, crossing_step, law_crossing_is_exact, law_node_value_range,
    EdgeCrossing,
};
use crate::smooth_mesh::lattice::{
    channel, fill, filled, node_channel, node_gradient, node_value, Cells,
};
use crate::voxelle::VoxelCoord;

verus! {

/// The node at `(x, y, z)` is one of the eight corners of a cell.
pub open spec fn touches(c: VoxelCoord, x: int, y: int, z: int) -> bool {
    c.0 <= x <= c.0 + 1 && c.1 <= y <= c.1 + 1 && c.2 <= z <= c.2 + 1
}

/// How much a cell adds to the slope along an axis: `along` is how far the node is
/// above the low corner of the cell on that axis. A cell below the node makes the
/// values fall, one above it makes them rise.
pub open spec fn pull(along: int, beside: bool) -> int {
    if !beside {
        0
    } else if along == 1 || along == 2 {
        1
    } else if along == 0 || along == -1 {
        -1
    } else {
        0
    }
}

/// Filling a cell that was empty adds one to the values of its eight corners, and
/// its colour to their channel sums, and changes no other node.
pub proof fn law_filling_a_cell_counts_at_its_corners(
    cells: Cells,
    c: VoxelCoord,
    color: u32,
    k: int,
    x: int,
    y: int,
    z: int,
)
    requires
        !cells.contains_key(c),
    ensures
        node_value(cells.insert(c, color), x, y, z) == node_value(cells, x, y, z) + (if touches(
            c,
            x,
            y,
            z,
        ) {
            1int
        } else {
            0
        }),
        node_channel(cells.insert(c, color), k, x, y, z) == node_channel(cells, k, x, y, z) + (
        if touches(c, x, y, z) {
            channel(color, k)
        } else {
            0
        }),
{
    reveal(node_value);
    reveal(node_channel);
}

/// Without filled cells every value, channel sum and slope is zero.
pub proof fn law_empty_model_is_level(k: int, x: int, y: int, z: int)
    ensures
        node_value(Map::<VoxelCoord, u32>::empty(), x, y, z) == 0,
        node_channel(Map::<VoxelCoord, u32>::empty(), k, x, y, z) == 0,
        node_gradient(Map::<VoxelCoord, u32>::empty(), x, y, z) == (0i32, 0i32, 0i32),
{
    reveal(node_value);
    reveal(node_channel);
}

/// Filling a cell that was empty turns the slope away from it: along each axis the
/// slope grows by one where the cell lies below the node, and falls by one where it
/// lies above, if the cell meets the node across that axis and reaches within one
/// step of it along the axis; else it keeps that component.
pub proof fn law_slope_points_away_from_a_cell(
    cells: Cells,
    c: VoxelCoord,
    color: u32,
    x: int,
    y: int,
    z: int,
)
    requires
        !cells.contains_key(c),
    ensures
        ({
            let before = node_gradient(cells, x, y, z);
            let after = node_gradient(cells.insert(c, color), x, y, z);
            let beside_x = c.0 <= x <= c.0 + 1;
            let beside_y = c.1 <= y <= c.1 + 1;
            let beside_z = c.2 <= z <= c.2 + 1;
            &&& after.0 - before.0 == pull(x - c.0, beside_y && beside_z)
            &&& after.1 - before.1 == pull(y - c.1, beside_x && beside_z)
            &&& after.2 - before.2 == pull(z - c.2, beside_x && beside_y)
        }),
{
    let more = cells.insert(c, color);
    lemma_slope_range(cells, x, y, z);
    lemma_slope_range(more, x, y, z);
    law_filling_a_cell_counts_at_its_corners(cells, c, color, 0, x - 1, y, z);
    law_filling_a_cell_counts_at_its_corners(cells, c, color, 0, x + 1, y, z);
    law_filling_a_cell_counts_at_its_corners(cells, c, color, 0, x, y - 1, z);
    law_filling_a_cell_counts_at_its_corners(cells, c, color, 0, x, y + 1, z);
    law_filling_a_cell_counts_at_its_corners(cells, c, color, 0, x, y, z - 1);
    law_filling_a_cell_counts_at_its_corners(cells, c, color, 0, x, y, z + 1);
}

/// The slope is the fall of the values, which fits.
proof fn lemma_slope_range(cells: Cells, x: int, y: int, z: int)
    ensures
        node_gradient(cells, x, y, z).0 == node_value(cells, x - 1, y, z) - node_value(
            cells,
            x + 1,
            y,
            z,
        ),
        node_gradient(cells, x, y, z).1 == node_value(cells, x, y - 1, z) - node_value(
            cells,
            x,
            y + 1,
            z,
        ),
        node_gradient(cells, x, y, z).2 == node_value(cells, x, y, z - 1) - node_value(
            cells,
            x,
            y,
            z + 1,
        ),
{
    law_node_value_range(cells, x - 1, y, z);
    law_node_value_range(cells, x + 1, y, z);
    law_node_value_range(cells, x, y - 1, z);
    law_node_value_range(cells, x, y + 1, z);
    law_node_value_range(cells, x, y, z - 1);
    law_node_value_range(cells, x, y, z + 1);
}

/// Filled cells among the four that share the edge along the first axis which
/// starts at node `(x, y, z)`.
pub open spec fn filled_along_x(cells: Cells, x: int, y: int, z: int) -> int {
    fill(cells, x, y - 1, z - 1) + fill(cells, x, y, z - 1) + fill(cells, x, y - 1, z) + fill(
        cells,
        x,
        y,
        z,
    )
}

/// Filled cells among the four that share the edge along the second axis which
/// starts at node `(x, y, z)`.
pub open spec fn filled_along_y(cells: Cells, x: int, y: int, z: int) -> int {
    fill(cells, x - 1, y, z - 1) + fill(cells, x, y, z - 1) + fill(cells, x - 1, y, z) + fill(
        cells,
        x,
        y,
        z,
    )
}

/// Filled cells among the four that share the edge along the third axis which
/// starts at node `(x, y, z)`.
pub open spec fn filled_along_z(cells: Cells, x: int, y: int, z: int) -> int {
    fill(cells, x - 1, y - 1, z) + fill(cells, x, y - 1, z) + fill(cells, x - 1, y, z) + fill(
        cells,
        x,
        y,
        z,
    )
}

/// The slope along an axis is the number of filled cells that share one of the two
/// edges before the node on that axis, less the number that share one of the two
/// edges after it; so it points from filled to empty.
pub proof fn law_slope_counts_cells(cells: Cells, x: int, y: int, z: int)
    ensures
        node_gradient(cells, x, y, z).0 == filled_along_x(cells, x - 2, y, z) + filled_along_x(
            cells,
            x - 1,
            y,
            z,
        ) - filled_along_x(cells, x, y, z) - filled_along_x(cells, x + 1, y, z),
        node_gradient(cells, x, y, z).1 == filled_along_y(cells, x, y - 2, z) + filled_along_y(
            cells,
            x,
            y - 1,
            z,
        ) - filled_along_y(cells, x, y, z) - filled_along_y(cells, x, y + 1, z),
        node_gradient(cells, x, y, z).2 == filled_along_z(cells, x, y, z - 2) + filled_along_z(
            cells,
            x,
            y,
            z - 1,
        ) - filled_along_z(cells, x, y, z) - filled_along_z(cells, x, y, z + 1),
{
    reveal(node_value);
}

/// A unit step along an axis.
pub open spec fn unit(axis: int) -> (int, int, int) {
    (
        if axis == 0 {
            1
        } else {
            0
        },
        if axis == 1 {
            1
        } else {
            0
        },
        if axis == 2 {
            1
        } else {
            0
        },
    )
}

/// Component of a slope along an axis.
pub open spec fn component(g: VoxelCoord, axis: int) -> int {
    if axis == 0 {
        g.0 as int
    } else if axis == 1 {
        g.1 as int
    } else {
        g.2 as int
    }
}

/// Along every axis the slope is the value of the node one step down that axis
/// less the value of the node one step up that same axis.
pub proof fn law_slope_is_the_fall_along_each_axis(
    cells: Cells,
    x: int,
    y: int,
    z: int,
    axis: int,
)
    requires
        0 <= axis < 3,
    ensures
        ({
            let u = unit(axis);
            component(node_gradient(cells, x, y, z), axis) == node_value(
                cells,
                x - u.0,
                y - u.1,
                z - u.2,
            ) - node_value(cells, x + u.0, y + u.1, z + u.2)
        }),
        -8 <= component(node_gradient(cells, x, y, z), axis) <= 8,
{
    let u = unit(axis);
    law_node_value_range(cells, x - u.0, y - u.1, z - u.2);
    law_node_value_range(cells, x + u.0, y + u.1, z + u.2);
}

/// Two models that fill each other's cells with the first two coordinates swapped.
pub open spec fn swapped_xy(a: Cells, b: Cells) -> bool {
    forall|x: int, y: int, z: int| #[trigger] filled(a, x, y, z) == filled(b, y, x, z)
}

/// Two models that fill each other's cells with the last two coordinates swapped.
pub open spec fn swapped_yz(a: Cells, b: Cells) -> bool {
    forall|x: int, y: int, z: int| #[trigger] filled(a, x, y, z) == filled(b, x, z, y)
}

proof fn lemma_value_swaps_xy(a: Cells, b: Cells, x: int, y: int, z: int)
    requires
        swapped_xy(a, b),
    ensures
        node_value(a, x, y, z) == node_value(b, y, x, z),
{
    reveal(node_value);
    assert(filled(a, x, y, z) == filled(b, y, x, z));
    assert(filled(a, x - 1, y, z) == filled(b, y, x - 1, z));
    assert(filled(a, x, y - 1, z) == filled(b, y - 1, x, z));
    assert(filled(a, x - 1, y - 1, z) == filled(b, y - 1, x - 1, z));
    assert(filled(a, x, y, z - 1) == filled(b, y, x, z - 1));
    assert(filled(a, x - 1, y, z - 1) == filled(b, y, x - 1, z - 1));
    assert(filled(a, x, y - 1, z - 1) == filled(b, y - 1, x, z - 1));
    assert(filled(a, x - 1, y - 1, z - 1) == filled(b, y - 1, x - 1, z - 1));
}

proof fn lemma_value_swaps_yz(a: Cells, b: Cells, x: int, y: int, z: int)
    requires
        swapped_yz(a, b),
    ensures
        node_value(a, x, y, z) == node_value(b, x, z, y),
{
    reveal(node_value);
    assert(filled(a, x, y, z) == filled(b, x, z, y));
    assert(filled(a, x - 1, y, z) == filled(b, x - 1, z, y));
    assert(filled(a, x, y - 1, z) == filled(b, x, z, y - 1));
    assert(filled(a, x - 1, y - 1, z) == filled(b, x - 1, z, y - 1));
    assert(filled(a, x, y, z - 1) == filled(b, x, z - 1, y));
    assert(filled(a, x - 1, y, z - 1) == filled(b, x - 1, z - 1, y));
    assert(filled(a, x, y - 1, z - 1) == filled(b, x, z - 1, y - 1));
    assert(filled(a, x - 1, y - 1, z - 1) == filled(b, x - 1, z - 1, y - 1));
}

/// Swapping the first two axes of the model swaps the first two components of the
/// slope, and keeps the values.
pub proof fn law_slope_swaps_with_first_axes(a: Cells, b: Cells, x: int, y: int, z: int)
    requires
        swapped_xy(a, b),
    ensures
        node_value(a, x, y, z) == node_value(b, y, x, z),
        node_gradient(a, x, y, z) == (
            node_gradient(b, y, x, z).1,
            node_gradient(b, y, x, z).0,
            node_gradient(b, y, x, z).2,
        ),
{
    lemma_value_swaps_xy(a, b, x, y, z);
    lemma_value_swaps_xy(a, b, x - 1, y, z);
    lemma_value_swaps_xy(a, b, x + 1, y, z);
    lemma_value_swaps_xy(a, b, x, y - 1, z);
    lemma_value_swaps_xy(a, b, x, y + 1, z);
    lemma_value_swaps_xy(a, b, x, y, z - 1);
    lemma_value_swaps_xy(a, b, x, y, z + 1);
}

/// Swapping the last two axes of the model swaps the last two components of the
/// slope, and keeps the values.
pub proof fn law_slope_swaps_with_last_axes(a: Cells, b: Cells, x: int, y: int, z: int)
    requires
        swapped_yz(a, b),
    ensures
        node_value(a, x, y, z) == node_value(b, x, z, y),
        node_gradient(a, x, y, z) == (
            node_gradient(b, x, z, y).0,
            node_gradient(b, x, z, y).2,
            node_gradient(b, x, z, y).1,
        ),
{
    lemma_value_swaps_yz(a, b, x, y, z);
    lemma_value_swaps_yz(a, b, x - 1, y, z);
    lemma_value_swaps_yz(a, b, x + 1, y, z);
    lemma_value_swaps_yz(a, b, x, y - 1, z);
    lemma_value_swaps_yz(a, b, x, y + 1, z);
    lemma_value_swaps_yz(a, b, x, y, z - 1);
    lemma_value_swaps_yz(a, b, x, y, z + 1);
}

/// A coordinate mirrored in the plane at half `m`, if that is its axis.
pub open spec fn mirrored(m: int, mirror: bool, x: int) -> int {
    if mirror {
        m - x
    } else {
        x
    }
}

/// The second model is the first mirrored in an axis, in the plane at half `m`.
pub open spec fn mirror_image(a: Cells, b: Cells, m: int, axis: int) -> bool {
    forall|x: int, y: int, z: int| #[trigger]
        filled(a, x, y, z) == filled(
            b,
            mirrored(m - 1, axis == 0, x),
            mirrored(m - 1, axis == 1, y),
            mirrored(m - 1, axis == 2, z),
        )
}

proof fn lemma_value_mirrors(a: Cells, b: Cells, m: int, axis: int, x: int, y: int, z: int)
    requires
        0 <= axis < 3,
        mirror_image(a, b, m, axis),
    ensures
        node_value(a, x, y, z) == node_value(
            b,
            mirrored(m, axis == 0, x),
            mirrored(m, axis == 1, y),
            mirrored(m, axis == 2, z),
        ),
{
    reveal(node_value);
    assert(filled(a, x, y, z) || !filled(a, x, y, z));
    assert(filled(a, x - 1, y, z) || !filled(a, x - 1, y, z));
    assert(filled(a, x, y - 1, z) || !filled(a, x, y - 1, z));
    assert(filled(a, x - 1, y - 1, z) || !filled(a, x - 1, y - 1, z));
    assert(filled(a, x, y, z - 1) || !filled(a, x, y, z - 1));
    assert(filled(a, x - 1, y, z - 1) || !filled(a, x - 1, y, z - 1));
    assert(filled(a, x, y - 1, z - 1) || !filled(a, x, y - 1, z - 1));
    assert(filled(a, x - 1, y - 1, z - 1) || !filled(a, x - 1, y - 1, z - 1));
}

/// Mirroring the model in one axis negates exactly that component of the slope, and
/// keeps the values.
pub proof fn law_slope_mirrors(a: Cells, b: Cells, m: int, axis: int, x: int, y: int, z: int)
    requires
        0 <= axis < 3,
        mirror_image(a, b, m, axis),
    ensures
        ({
            let (p, q, s) = (
                mirrored(m, axis == 0, x),
                mirrored(m, axis == 1, y),
                mirrored(m, axis == 2, z),
            );
            let g = node_gradient(a, x, y, z);
            let h = node_gradient(b, p, q, s);
            &&& node_value(a, x, y, z) == node_value(b, p, q, s)
            &&& g.0 == mirrored(0, axis == 0, h.0 as int)
            &&& g.1 == mirrored(0, axis == 1, h.1 as int)
            &&& g.2 == mirrored(0, axis == 2, h.2 as int)
        }),
{
    lemma_slope_range(a, x, y, z);
    lemma_slope_range(
        b,
        mirrored(m, axis == 0, x),
        mirrored(m, axis == 1, y),
        mirrored(m, axis == 2, z),
    );
    lemma_value_mirrors(a, b, m, axis, x, y, z);
    lemma_value_mirrors(a, b, m, axis, x - 1, y, z);
    lemma_value_mirrors(a, b, m, axis, x + 1, y, z);
    lemma_value_mirrors(a, b, m, axis, x, y - 1, z);
    lemma_value_mirrors(a, b, m, axis, x, y + 1, z);
    lemma_value_mirrors(a, b, m, axis, x, y, z - 1);
    lemma_value_mirrors(a, b, m, axis, x, y, z + 1);
}

/// A slope is the fall of the values round a node: along each axis, the value one
/// step down that axis less the value one step up that same axis.
pub open spec fn slope_is_true(cells: Cells, n: VoxelCoord, g: VoxelCoord) -> bool {
    &&& g.0 == node_value(cells, n.0 - 1, n.1 as int, n.2 as int) - node_value(
        cells,
        n.0 + 1,
        n.1 as int,
        n.2 as int,
    )
    &&& g.1 == node_value(cells, n.0 as int, n.1 - 1, n.2 as int) - node_value(
        cells,
        n.0 as int,
        n.1 + 1,
        n.2 as int,
    )
    &&& g.2 == node_value(cells, n.0 as int, n.1 as int, n.2 - 1) - node_value(
        cells,
        n.0 as int,
        n.1 as int,
        n.2 + 1,
    )
}

/// A crossing tells the truth of a model: its nodes are neighbours, its values are
/// those of its nodes, its slopes are the fall of the values round its nodes, it
/// lies where the value between its nodes is one half, and its colour sums the
/// coloured cells round the fuller node, or where none is coloured, the filled ones.
pub open spec fn crossing_is_true(color: Cells, occupancy: Cells, c: EdgeCrossing) -> bool {
    let (a, b) = (c.node_a, c.node_b);
    let n = if c.value_a >= c.value_b {
        a
    } else {
        b
    };
    let source = if node_value(color, n.0 as int, n.1 as int, n.2 as int) > 0 {
        color
    } else {
        occupancy
    };
    &&& (a.0 - b.0) * (a.0 - b.0) + (a.1 - b.1) * (a.1 - b.1) + (a.2 - b.2) * (a.2 - b.2) == 1
    &&& c.value_a == node_value(occupancy, a.0 as int, a.1 as int, a.2 as int)
    &&& c.value_b == node_value(occupancy, b.0 as int, b.1 as int, b.2 as int)
    &&& slope_is_true(occupancy, a, c.grad_a)
    &&& slope_is_true(occupancy, b, c.grad_b)
    &&& (c.value_a == 0) != (c.value_b == 0) ==> c.value_a * 1680 + (c.value_b - c.value_a) * c.step
        == 840
    &&& c.color.count == node_value(source, n.0 as int, n.1 as int, n.2 as int)
    &&& c.color.r == node_channel(source, 0, n.0 as int, n.1 as int, n.2 as int)
    &&& c.color.g == node_channel(source, 1, n.0 as int, n.1 as int, n.2 as int)
    &&& c.color.b == node_channel(source, 2, n.0 as int, n.1 as int, n.2 as int)
}

proof fn lemma_channel_range(cells: Cells, k: int, x: int, y: int, z: int)
    ensures
        0 <= node_channel(cells, k, x, y, z) <= 8 * 255,
{
    reveal(node_channel);
}

/// The crossing of an edge of a cell tells the truth of the model.
pub proof fn law_crossing_is_true(
    color: Cells,
    occupancy: Cells,
    x: int,
    y: int,
    z: int,
    e: int,
)
    requires
        0 <= e < 12,
        i32::MIN <= x < i32::MAX,
        i32::MIN <= y < i32::MAX,
        i32::MIN <= z < i32::MAX,
    ensures
        crossing_is_true(color, occupancy, cell_crossing(color, occupancy, x, y, z, e)),
{
    let c = cell_crossing(color, occupancy, x, y, z, e);
    let (a, b) = (c.node_a, c.node_b);
    law_node_value_range(occupancy, a.0 as int, a.1 as int, a.2 as int);
    law_node_value_range(occupancy, b.0 as int, b.1 as int, b.2 as int);
    law_node_value_range(color, a.0 as int, a.1 as int, a.2 as int);
    law_node_value_range(color, b.0 as int, b.1 as int, b.2 as int);
    let n = if c.value_a >= c.value_b {
        a
    } else {
        b
    };
    lemma_channel_range(color, 0, n.0 as int, n.1 as int, n.2 as int);
    lemma_channel_range(color, 1, n.0 as int, n.1 as int, n.2 as int);
    lemma_channel_range(color, 2, n.0 as int, n.1 as int, n.2 as int);
    lemma_channel_range(occupancy, 0, n.0 as int, n.1 as int, n.2 as int);
    lemma_channel_range(occupancy, 1, n.0 as int, n.1 as int, n.2 as int);
    lemma_channel_range(occupancy, 2, n.0 as int, n.1 as int, n.2 as int);
    if (c.value_a == 0) != (c.value_b == 0) {
        law_crossing_is_exact(c.value_a as int, c.value_b as int);
        assert(c.step == crossing_step(c.value_a as int, c.value_b as int));
    }
    lemma_slope_range(occupancy, a.0 as int, a.1 as int, a.2 as int);
    lemma_slope_range(occupancy, b.0 as int, b.1 as int, b.2 as int);
    assert((a.0 - b.0) * (a.0 - b.0) + (a.1 - b.1) * (a.1 - b.1) + (a.2 - b.2) * (a.2 - b.2) == 1)
        by {
        let (p, q, s) = (a.0 - b.0, a.1 - b.1, a.2 - b.2);
        assert((p == 1 || p == -1) && q == 0 && s == 0 || (q == 1 || q == -1) && p == 0 && s == 0
            || (s == 1 || s == -1) && p == 0 && q == 0);
        assert(p * p + q * q + s * s == 1) by (nonlinear_arith)
            requires
                (p == 1 || p == -1) && q == 0 && s == 0 || (q == 1 || q == -1) && p == 0 && s == 0
                    || (s == 1 || s == -1) && p == 0 && q == 0,
        ;
    }
}

} // verus!
