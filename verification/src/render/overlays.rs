//! Editing aids over the scene: previews, selection, grid borders, gizmo and
//! pings. Which buffers they have, and what is drawn of them.

use vstd::prelude::*;

use crate::render::pipelines::{is_overlay, PipelineId};

verus! {

/// Geometry of an editing aid.
#[derive(Clone, Copy, Debug, PartialEq, Eq, Structural)]
pub enum Geometry {
    PreviewSolid,
    PreviewWire,
    PreviewExtra,
    PreviewExtraWire,
    GenSolid,
    GenWire,
    SelectionSolid,
    SelectionLines,
    GridBorder,
    GizmoLines,
    GizmoTris,
    PingSolid,
    PingWire,
    PingWave,
}

/// One draw: `count` indices, or vertices where the geometry has no indices.
#[derive(Clone, Copy, Debug, PartialEq, Eq, Structural)]
pub struct DrawCall {
    pub pipeline: PipelineId,
    pub geometry: Geometry,
    pub count: u32,
    pub instances: u32,
}

/// A small mesh repeated over instances.
#[derive(Clone, Copy, Debug, PartialEq, Eq, Structural)]
pub struct Instanced {
    pub indices: u32,
    pub instances: u32,
}

/// A vertex buffer of `lanes` lanes, six per vertex.
#[derive(Clone, Copy, Debug, PartialEq, Eq, Structural)]
pub struct LineBuffer {
    pub lanes: usize,
    pub vertices: u32,
}

/// Vertices and indices of the grid borders.
#[derive(Clone, Copy, Debug, PartialEq, Eq, Structural)]
pub struct BorderBuffers {
    pub lanes: usize,
    pub indices: usize,
}

/// What to do with a buffer.
#[derive(Clone, Copy, Debug, PartialEq, Eq, Structural)]
pub enum BufferAction {
    /// Let it go.
    Drop,
    /// Write over it.
    Rewrite,
    /// Make a new one.
    Create,
}

/// Sizes of an instanced preview.
#[derive(Clone, Copy, Debug, PartialEq, Eq, Structural)]
pub struct PreviewSizes {
    pub solid_instances: usize,
    pub wire_instances: usize,
    /// Indices of the cube and of its edges.
    pub solid_indices: usize,
    pub wire_indices: usize,
    /// Lanes and indices of what is not instanced, solid and wire.
    pub extra_lanes: usize,
    pub extra_indices: usize,
    pub extra_wire_lanes: usize,
    pub extra_wire_indices: usize,
}

/// Buffers of the editing aids.
#[derive(Clone, Copy, Debug, PartialEq, Eq, Structural)]
pub struct Overlays {
    pub preview_solid: Option<Instanced>,
    pub preview_wire: Option<Instanced>,
    /// Indices of the part of a preview that is not instanced.
    pub preview_extra: Option<u32>,
    pub preview_extra_wire: Option<u32>,
    pub gen_solid: Option<Instanced>,
    pub gen_wire: Option<Instanced>,
    pub preview_cache_key: Option<u64>,
    pub selection_solid: Option<u32>,
    pub selection_lines: Option<LineBuffer>,
    pub selection_cache_key: Option<u64>,
    pub grid_border: Option<BorderBuffers>,
    pub grid_border_cache_key: Option<u64>,
    pub gizmo_lines: Option<LineBuffer>,
    pub gizmo_tris: Option<LineBuffer>,
    pub gizmo_on_top: bool,
    pub ping_solid: Option<u32>,
    pub ping_wire: Option<u32>,
    /// Vertices of the wave around a ping.
    pub ping_wave: Option<u32>,
    pub collab_lines: Option<LineBuffer>,
}

/// Line data is usable: there is some, and it is whole vertices.
pub open spec fn whole_lines(lanes: int) -> bool {
    lanes > 0 && lanes % 6 == 0
}

/// The buffer that line data goes to.
pub open spec fn line_buffer(lanes: usize) -> Option<LineBuffer> {
    if whole_lines(lanes as int) {
        Some(LineBuffer { lanes, vertices: (lanes / 6) as u32 })
    } else {
        None
    }
}

/// What happens to a buffer as new data of a size comes: the buffer that is
/// there is kept for data of just its size.
pub open spec fn size_action(had: Option<usize>, wanted: Option<usize>) -> BufferAction {
    if wanted is None {
        BufferAction::Drop
    } else if had == wanted {
        BufferAction::Rewrite
    } else {
        BufferAction::Create
    }
}

/// Lanes of a line buffer.
pub open spec fn lanes_of(b: Option<LineBuffer>) -> Option<usize> {
    match b {
        Some(l) => Some(l.lanes),
        None => None,
    }
}

/// Sends line data to a buffer.
pub fn upload_buf(buf: &mut Option<LineBuffer>, lanes: usize) -> (action: BufferAction)
    ensures
        *final(buf) == line_buffer(lanes),
        action == size_action(lanes_of(*old(buf)), lanes_of(line_buffer(lanes))),
{
    if lanes == 0 || lanes % 6 != 0 {
        *buf = None;
        return BufferAction::Drop;
    }
    let same = match *buf {
        Some(l) => l.lanes == lanes,
        None => false,
    };
    *buf = Some(LineBuffer { lanes, vertices: (lanes / 6) as u32 });
    if same {
        BufferAction::Rewrite
    } else {
        BufferAction::Create
    }
}

/// The same geometry through one pipeline after another.
pub open spec fn calls(geometry: Geometry, count: u32, instances: u32, through: Seq<PipelineId>) -> Seq<
    DrawCall,
> {
    Seq::new(
        through.len(),
        |i: int| DrawCall { pipeline: through[i], geometry, count, instances },
    )
}

/// Draws of a mesh, unless it is missing or shorter than `least`.
pub open spec fn plain_calls(
    geometry: Geometry,
    count: Option<u32>,
    least: int,
    through: Seq<PipelineId>,
) -> Seq<DrawCall> {
    if count is Some && count->0 >= least {
        calls(geometry, count->0, 1, through)
    } else {
        Seq::empty()
    }
}

/// Draws of an instanced mesh, unless it is missing or has no instance or no index.
pub open spec fn instanced_calls(
    geometry: Geometry,
    mesh: Option<Instanced>,
    through: Seq<PipelineId>,
) -> Seq<DrawCall> {
    if mesh is Some && (mesh->0).instances > 0 && (mesh->0).indices > 0 {
        calls(geometry, (mesh->0).indices, (mesh->0).instances, through)
    } else {
        Seq::empty()
    }
}

/// Vertices of a line buffer.
pub open spec fn line_vertices(b: Option<LineBuffer>) -> Option<u32> {
    match b {
        Some(l) => Some(l.vertices),
        None => None,
    }
}

/// Draws of the preview.
pub open spec fn preview_calls(o: Overlays) -> Seq<DrawCall> {
    instanced_calls(
        Geometry::PreviewSolid,
        o.preview_solid,
        seq![PipelineId::PreviewInstOccluded, PipelineId::PreviewInstFront],
    ) + instanced_calls(
        Geometry::PreviewWire,
        o.preview_wire,
        seq![PipelineId::PreviewInstFrontWire],
    ) + plain_calls(
        Geometry::PreviewExtra,
        o.preview_extra,
        1,
        seq![PipelineId::PreviewOccluded, PipelineId::PreviewFront],
    ) + plain_calls(
        Geometry::PreviewExtraWire,
        o.preview_extra_wire,
        1,
        seq![PipelineId::PreviewFrontWire],
    ) + instanced_calls(
        Geometry::GenSolid,
        o.gen_solid,
        seq![PipelineId::GenPreviewInstOccluded, PipelineId::GenPreviewInstFront],
    ) + instanced_calls(
        Geometry::GenWire,
        o.gen_wire,
        seq![PipelineId::GenPreviewInstFrontWire],
    )
}

/// Draws of the faces of the selection.
pub open spec fn selection_solid_calls(o: Overlays) -> Seq<DrawCall> {
    plain_calls(
        Geometry::SelectionSolid,
        o.selection_solid,
        1,
        seq![PipelineId::PreviewOccluded, PipelineId::PreviewFront],
    )
}

/// Draws of the outline of the selection.
pub open spec fn selection_line_calls(o: Overlays) -> Seq<DrawCall> {
    plain_calls(
        Geometry::SelectionLines,
        line_vertices(o.selection_lines),
        2,
        seq![PipelineId::CollabLinesOccluded, PipelineId::CollabLinesFront],
    )
}

/// Draws of the grid borders.
pub open spec fn grid_border_calls(o: Overlays) -> Seq<DrawCall> {
    match o.grid_border {
        Some(b) => plain_calls(
            Geometry::GridBorder,
            Some(b.indices as u32),
            2,
            seq![PipelineId::GridBorderLines],
        ),
        None => Seq::empty(),
    }
}

/// Draws of the gizmo: over everything, or as a ghost.
pub open spec fn gizmo_calls(o: Overlays) -> Seq<DrawCall> {
    plain_calls(
        Geometry::GizmoLines,
        line_vertices(o.gizmo_lines),
        3,
        if o.gizmo_on_top {
            seq![PipelineId::GizmoLinesAlways]
        } else {
            seq![PipelineId::GizmoLinesOccluded, PipelineId::GizmoLinesFront]
        },
    ) + plain_calls(
        Geometry::GizmoTris,
        line_vertices(o.gizmo_tris),
        3,
        if o.gizmo_on_top {
            seq![PipelineId::GizmoTrisAlways]
        } else {
            seq![PipelineId::GizmoTrisOccluded, PipelineId::GizmoTrisFront]
        },
    )
}

/// Draws of a ping.
pub open spec fn ping_calls(o: Overlays) -> Seq<DrawCall> {
    plain_calls(
        Geometry::PingSolid,
        o.ping_solid,
        1,
        seq![PipelineId::PreviewOccluded, PipelineId::PreviewFront],
    ) + plain_calls(
        Geometry::PingWire,
        o.ping_wire,
        1,
        seq![PipelineId::PreviewFrontWire],
    )
}

/// Draws of the wave around a ping.
pub open spec fn ping_wave_calls(o: Overlays) -> Seq<DrawCall> {
    plain_calls(
        Geometry::PingWave,
        o.ping_wave,
        2,
        seq![PipelineId::CollabLinesOccluded, PipelineId::CollabLinesFront],
    )
}

fn push_calls(
    out: &mut Vec<DrawCall>,
    geometry: Geometry,
    count: u32,
    instances: u32,
    through: &[PipelineId],
)
    ensures
        final(out)@ == old(out)@ + calls(geometry, count, instances, through@),
{
    let n: usize = through.len();
    let mut i: usize = 0;
    while i < n
        invariant
            i <= n,
            n == through@.len(),
            out@ == old(out)@ + calls(geometry, count, instances, through@.take(i as int)),
        decreases n - i,
    {
        let ghost was = out@;
        out.push(DrawCall { pipeline: through[i], geometry, count, instances });
        assert(out@ =~= old(out)@ + calls(
            geometry,
            count,
            instances,
            through@.take(i as int + 1),
        ));
        i += 1;
    }
    assert(through@.take(n as int) =~= through@);
}

fn push_plain(
    out: &mut Vec<DrawCall>,
    geometry: Geometry,
    count: Option<u32>,
    least: u32,
    through: &[PipelineId],
)
    ensures
        final(out)@ == old(out)@ + plain_calls(geometry, count, least as int, through@),
{
    match count {
        Some(n) => {
            if n >= least {
                push_calls(out, geometry, n, 1, through);
                return;
            }
        },
        None => {},
    }
    assert(out@ =~= old(out)@ + Seq::<DrawCall>::empty());
}

fn push_instanced(
    out: &mut Vec<DrawCall>,
    geometry: Geometry,
    mesh: Option<Instanced>,
    through: &[PipelineId],
)
    ensures
        final(out)@ == old(out)@ + instanced_calls(geometry, mesh, through@),
{
    match mesh {
        Some(m) => {
            if m.instances > 0 && m.indices > 0 {
                push_calls(out, geometry, m.indices, m.instances, through);
                return;
            }
        },
        None => {},
    }
    assert(out@ =~= old(out)@ + Seq::<DrawCall>::empty());
}

fn vertices(b: Option<LineBuffer>) -> (r: Option<u32>)
    ensures
        r == line_vertices(b),
{
    match b {
        Some(l) => Some(l.vertices),
        None => None,
    }
}

/// Buffers without a preview: neither instanced nor plain.
pub open spec fn without_preview(o: Overlays) -> Overlays {
    Overlays {
        preview_solid: None,
        preview_wire: None,
        preview_extra: None,
        preview_extra_wire: None,
        gen_solid: None,
        gen_wire: None,
        preview_cache_key: None,
        ..o
    }
}

/// The instanced solid or wire part of a preview; there is none without solid instances.
pub open spec fn instanced_part(solid: usize, indices: usize, instances: usize) -> Option<Instanced> {
    if solid == 0 {
        None
    } else {
        Some(Instanced { indices: indices as u32, instances: instances as u32 })
    }
}

/// A preview has a part that is not instanced.
pub open spec fn has_extra(d: PreviewSizes) -> bool {
    d.extra_lanes > 0 || d.extra_wire_lanes > 0
}

/// No editing aid is shown.
pub open spec fn no_overlays() -> Overlays {
    Overlays {
        preview_solid: None,
        preview_wire: None,
        preview_extra: None,
        preview_extra_wire: None,
        gen_solid: None,
        gen_wire: None,
        preview_cache_key: None,
        selection_solid: None,
        selection_lines: None,
        selection_cache_key: None,
        grid_border: None,
        grid_border_cache_key: None,
        gizmo_lines: None,
        gizmo_tris: None,
        gizmo_on_top: true,
        ping_solid: None,
        ping_wire: None,
        ping_wave: None,
        collab_lines: None,
    }
}

impl Overlays {
    /// No buffers; the gizmo is drawn over everything.
    pub fn new() -> (r: Overlays)
        ensures
            r == no_overlays(),
    {
        Overlays {
            preview_solid: None,
            preview_wire: None,
            preview_extra: None,
            preview_extra_wire: None,
            gen_solid: None,
            gen_wire: None,
            preview_cache_key: None,
            selection_solid: None,
            selection_lines: None,
            selection_cache_key: None,
            grid_border: None,
            grid_border_cache_key: None,
            gizmo_lines: None,
            gizmo_tris: None,
            gizmo_on_top: true,
            ping_solid: None,
            ping_wire: None,
            ping_wave: None,
            collab_lines: None,
        }
    }

    /// Shows a preview that is not instanced; an instanced one stays.
    pub fn upload_preview_mesh(&mut self, solid_indices: usize, wire_indices: usize)
        ensures
            *final(self) == (Overlays {
                preview_extra: Some(solid_indices as u32),
                preview_extra_wire: Some(wire_indices as u32),
                ..*old(self)
            }),
    {
        self.preview_extra = Some(solid_indices as u32);
        self.preview_extra_wire = Some(wire_indices as u32);
    }

    /// Shows an instanced preview and what belongs to it without being instanced,
    /// in place of both as they were.
    pub fn upload_preview_mesh_instanced(&mut self, data: &PreviewSizes)
        ensures
            *final(self) == (Overlays {
                preview_solid: instanced_part(
                    data.solid_instances,
                    data.solid_indices,
                    data.solid_instances,
                ),
                preview_wire: instanced_part(
                    data.solid_instances,
                    data.wire_indices,
                    data.wire_instances,
                ),
                preview_extra: if has_extra(*data) {
                    Some(data.extra_indices as u32)
                } else {
                    None
                },
                preview_extra_wire: if has_extra(*data) {
                    Some(data.extra_wire_indices as u32)
                } else {
                    None
                },
                ..*old(self)
            }),
    {
        if data.solid_instances > 0 {
            self.preview_solid = Some(
                Instanced {
                    indices: data.solid_indices as u32,
                    instances: data.solid_instances as u32,
                },
            );
            self.preview_wire = Some(
                Instanced {
                    indices: data.wire_indices as u32,
                    instances: data.wire_instances as u32,
                },
            );
        } else {
            self.preview_solid = None;
            self.preview_wire = None;
        }
        if data.extra_lanes > 0 || data.extra_wire_lanes > 0 {
            self.upload_preview_mesh(data.extra_indices, data.extra_wire_indices);
        } else {
            self.preview_extra = None;
            self.preview_extra_wire = None;
        }
    }

    /// Shows a lit generator preview in place of the one that was there.
    pub fn upload_gen_preview_mesh_instanced(&mut self, data: &PreviewSizes)
        ensures
            *final(self) == (Overlays {
                gen_solid: instanced_part(
                    data.solid_instances,
                    data.solid_indices,
                    data.solid_instances,
                ),
                gen_wire: instanced_part(
                    data.solid_instances,
                    data.wire_indices,
                    data.wire_instances,
                ),
                ..*old(self)
            }),
    {
        if data.solid_instances > 0 {
            self.gen_solid = Some(
                Instanced {
                    indices: data.solid_indices as u32,
                    instances: data.solid_instances as u32,
                },
            );
            self.gen_wire = Some(
                Instanced {
                    indices: data.wire_indices as u32,
                    instances: data.wire_instances as u32,
                },
            );
        } else {
            self.gen_solid = None;
            self.gen_wire = None;
        }
    }

    /// Takes every preview away and forgets its key.
    pub fn clear_preview_mesh(&mut self)
        ensures
            *final(self) == without_preview(*old(self)),
    {
        self.preview_solid = None;
        self.preview_wire = None;
        self.preview_extra = None;
        self.preview_extra_wire = None;
        self.gen_solid = None;
        self.gen_wire = None;
        self.preview_cache_key = None;
    }

    /// Shows the faces of the selection, or none.
    pub fn upload_selection_overlay_solid(&mut self, indices: usize)
        ensures
            *final(self) == (Overlays {
                selection_solid: if indices == 0 {
                    None
                } else {
                    Some(indices as u32)
                },
                ..*old(self)
            }),
    {
        self.selection_solid = if indices == 0 {
            None
        } else {
            Some(indices as u32)
        };
    }

    /// Shows the outline of the selection.
    pub fn upload_selection_overlay_lines(&mut self, lanes: usize) -> (action: BufferAction)
        ensures
            *final(self) == (Overlays { selection_lines: line_buffer(lanes), ..*old(self) }),
            action == size_action(
                lanes_of(old(self).selection_lines),
                lanes_of(line_buffer(lanes)),
            ),
    {
        let mut b = self.selection_lines;
        let action = upload_buf(&mut b, lanes);
        self.selection_lines = b;
        action
    }

    /// Takes the selection away and forgets its key.
    pub fn clear_selection_overlay(&mut self)
        ensures
            *final(self) == (Overlays {
                selection_solid: None,
                selection_lines: None,
                selection_cache_key: None,
                ..*old(self)
            }),
    {
        self.selection_solid = None;
        self.selection_lines = None;
        self.selection_cache_key = None;
    }

    /// Shows the shafts and rings of the gizmo.
    pub fn upload_gizmo_lines(&mut self, lanes: usize) -> (action: BufferAction)
        ensures
            *final(self) == (Overlays { gizmo_lines: line_buffer(lanes), ..*old(self) }),
            action == size_action(lanes_of(old(self).gizmo_lines), lanes_of(line_buffer(lanes))),
    {
        let mut b = self.gizmo_lines;
        let action = upload_buf(&mut b, lanes);
        self.gizmo_lines = b;
        action
    }

    /// Shows the arrowheads of the gizmo.
    pub fn upload_gizmo_tris(&mut self, lanes: usize) -> (action: BufferAction)
        ensures
            *final(self) == (Overlays { gizmo_tris: line_buffer(lanes), ..*old(self) }),
            action == size_action(lanes_of(old(self).gizmo_tris), lanes_of(line_buffer(lanes))),
    {
        let mut b = self.gizmo_tris;
        let action = upload_buf(&mut b, lanes);
        self.gizmo_tris = b;
        action
    }

    /// Draws the gizmo over everything, or as a ghost.
    pub fn set_gizmo_on_top(&mut self, v: bool)
        ensures
            *final(self) == (Overlays { gizmo_on_top: v, ..*old(self) }),
    {
        self.gizmo_on_top = v;
    }

    /// Shows the grid borders. The actions are those for vertices and indices.
    pub fn upload_grid_border_lines(&mut self, lanes: usize, indices: usize) -> (actions: (
        BufferAction,
        BufferAction,
    ))
        ensures
            ({
                let usable = whole_lines(lanes as int) && indices > 0;
                let had = old(self).grid_border;
                &&& *final(self) == (Overlays {
                    grid_border: if usable {
                        Some(BorderBuffers { lanes, indices })
                    } else {
                        None
                    },
                    ..*old(self)
                })
                &&& actions.0 == (if !usable {
                    BufferAction::Drop
                } else if had is Some && (had->0).lanes == lanes {
                    BufferAction::Rewrite
                } else {
                    BufferAction::Create
                })
                &&& actions.1 == (if !usable {
                    BufferAction::Drop
                } else if had is Some && (had->0).indices == indices {
                    BufferAction::Rewrite
                } else {
                    BufferAction::Create
                })
            }),
    {
        if lanes == 0 || lanes % 6 != 0 || indices == 0 {
            self.grid_border = None;
            return (BufferAction::Drop, BufferAction::Drop);
        }
        let (same_lanes, same_indices): (bool, bool) = match self.grid_border {
            Some(b) => (b.lanes == lanes, b.indices == indices),
            None => (false, false),
        };
        self.grid_border = Some(BorderBuffers { lanes, indices });
        (
            if same_lanes {
                BufferAction::Rewrite
            } else {
                BufferAction::Create
            },
            if same_indices {
                BufferAction::Rewrite
            } else {
                BufferAction::Create
            },
        )
    }

    /// Takes the grid borders away and forgets their key.
    pub fn clear_grid_border_lines(&mut self)
        ensures
            *final(self) == (Overlays {
                grid_border: None,
                grid_border_cache_key: None,
                ..*old(self)
            }),
    {
        self.grid_border = None;
        self.grid_border_cache_key = None;
    }

    /// Takes the lines of the peers away.
    pub fn clear_collab_peer_lines(&mut self)
        ensures
            *final(self) == (Overlays { collab_lines: None, ..*old(self) }),
    {
        self.collab_lines = None;
    }

    /// Shows a ping.
    pub fn upload_ping_mesh(&mut self, solid_indices: usize, wire_indices: usize)
        ensures
            *final(self) == (Overlays {
                ping_solid: Some(solid_indices as u32),
                ping_wire: Some(wire_indices as u32),
                ..*old(self)
            }),
    {
        self.ping_solid = Some(solid_indices as u32);
        self.ping_wire = Some(wire_indices as u32);
    }

    /// Takes the ping and its wave away.
    pub fn clear_ping_mesh(&mut self)
        ensures
            *final(self) == (Overlays {
                ping_solid: None,
                ping_wire: None,
                ping_wave: None,
                ..*old(self)
            }),
    {
        self.ping_solid = None;
        self.ping_wire = None;
        self.ping_wave = None;
    }

    /// Shows the wave around a ping; less than one vertex is none.
    pub fn upload_ping_wave_lines(&mut self, lanes: usize)
        ensures
            *final(self) == (Overlays {
                ping_wave: if lanes < 6 {
                    None
                } else {
                    Some((lanes as u32) / 6)
                },
                ..*old(self)
            }),
    {
        self.ping_wave = if lanes < 6 {
            None
        } else {
            Some(lanes as u32 / 6)
        };
    }

    /// Draws of the preview.
    pub fn draw_indexed_preview(&self) -> (r: Vec<DrawCall>)
        ensures
            r@ == preview_calls(*self),
    {
        let mut r: Vec<DrawCall> = Vec::new();
        push_instanced(
            &mut r,
            Geometry::PreviewSolid,
            self.preview_solid,
            &[PipelineId::PreviewInstOccluded, PipelineId::PreviewInstFront],
        );
        push_instanced(
            &mut r,
            Geometry::PreviewWire,
            self.preview_wire,
            &[PipelineId::PreviewInstFrontWire],
        );
        push_plain(
            &mut r,
            Geometry::PreviewExtra,
            self.preview_extra,
            1,
            &[PipelineId::PreviewOccluded, PipelineId::PreviewFront],
        );
        push_plain(
            &mut r,
            Geometry::PreviewExtraWire,
            self.preview_extra_wire,
            1,
            &[PipelineId::PreviewFrontWire],
        );
        push_instanced(
            &mut r,
            Geometry::GenSolid,
            self.gen_solid,
            &[PipelineId::GenPreviewInstOccluded, PipelineId::GenPreviewInstFront],
        );
        push_instanced(
            &mut r,
            Geometry::GenWire,
            self.gen_wire,
            &[PipelineId::GenPreviewInstFrontWire],
        );
        assert(r@ =~= preview_calls(*self));
        r
    }

    /// Draws of the faces of the selection.
    pub fn draw_indexed_selection_overlay_solid(&self) -> (r: Vec<DrawCall>)
        ensures
            r@ == selection_solid_calls(*self),
    {
        let mut r: Vec<DrawCall> = Vec::new();
        push_plain(
            &mut r,
            Geometry::SelectionSolid,
            self.selection_solid,
            1,
            &[PipelineId::PreviewOccluded, PipelineId::PreviewFront],
        );
        assert(r@ =~= selection_solid_calls(*self));
        r
    }

    /// Draws of the outline of the selection.
    pub fn draw_selection_overlay_lines(&self) -> (r: Vec<DrawCall>)
        ensures
            r@ == selection_line_calls(*self),
    {
        let mut r: Vec<DrawCall> = Vec::new();
        push_plain(
            &mut r,
            Geometry::SelectionLines,
            vertices(self.selection_lines),
            2,
            &[PipelineId::CollabLinesOccluded, PipelineId::CollabLinesFront],
        );
        assert(r@ =~= selection_line_calls(*self));
        r
    }

    /// Draws of the grid borders.
    pub fn draw_grid_border_lines(&self) -> (r: Vec<DrawCall>)
        ensures
            r@ == grid_border_calls(*self),
    {
        let mut r: Vec<DrawCall> = Vec::new();
        match self.grid_border {
            Some(b) => push_plain(
                &mut r,
                Geometry::GridBorder,
                Some(b.indices as u32),
                2,
                &[PipelineId::GridBorderLines],
            ),
            None => {},
        }
        assert(r@ =~= grid_border_calls(*self));
        r
    }

    /// Draws of the gizmo.
    pub fn draw_gizmo(&self) -> (r: Vec<DrawCall>)
        ensures
            r@ == gizmo_calls(*self),
    {
        let mut r: Vec<DrawCall> = Vec::new();
        if self.gizmo_on_top {
            push_plain(
                &mut r,
                Geometry::GizmoLines,
                vertices(self.gizmo_lines),
                3,
                &[PipelineId::GizmoLinesAlways],
            );
            push_plain(
                &mut r,
                Geometry::GizmoTris,
                vertices(self.gizmo_tris),
                3,
                &[PipelineId::GizmoTrisAlways],
            );
        } else {
            push_plain(
                &mut r,
                Geometry::GizmoLines,
                vertices(self.gizmo_lines),
                3,
                &[PipelineId::GizmoLinesOccluded, PipelineId::GizmoLinesFront],
            );
            push_plain(
                &mut r,
                Geometry::GizmoTris,
                vertices(self.gizmo_tris),
                3,
                &[PipelineId::GizmoTrisOccluded, PipelineId::GizmoTrisFront],
            );
        }
        assert(r@ =~= gizmo_calls(*self));
        r
    }

    /// Draws of a ping.
    pub fn draw_indexed_ping(&self) -> (r: Vec<DrawCall>)
        ensures
            r@ == ping_calls(*self),
    {
        let mut r: Vec<DrawCall> = Vec::new();
        push_plain(
            &mut r,
            Geometry::PingSolid,
            self.ping_solid,
            1,
            &[PipelineId::PreviewOccluded, PipelineId::PreviewFront],
        );
        push_plain(
            &mut r,
            Geometry::PingWire,
            self.ping_wire,
            1,
            &[PipelineId::PreviewFrontWire],
        );
        assert(r@ =~= ping_calls(*self));
        r
    }

    /// Draws of the wave around a ping.
    pub fn draw_ping_wave_lines(&self) -> (r: Vec<DrawCall>)
        ensures
            r@ == ping_wave_calls(*self),
    {
        let mut r: Vec<DrawCall> = Vec::new();
        push_plain(
            &mut r,
            Geometry::PingWave,
            self.ping_wave,
            2,
            &[PipelineId::CollabLinesOccluded, PipelineId::CollabLinesFront],
        );
        assert(r@ =~= ping_wave_calls(*self));
        r
    }
}

/// Draws of every editing aid, in order; avatars are drawn between the two parts.
pub open spec fn overlay_calls(o: Overlays) -> (Seq<DrawCall>, Seq<DrawCall>) {
    (
        selection_solid_calls(o) + preview_calls(o) + selection_line_calls(o) + grid_border_calls(o),
        ping_wave_calls(o) + ping_calls(o) + gizmo_calls(o),
    )
}

/// Every draw of an editing aid draws something, through a pipeline that blends
/// into the picture and leaves the normals alone.
pub proof fn law_overlay_draws(o: Overlays, i: int)
    ensures
        0 <= i < overlay_calls(o).0.len() ==> is_overlay(overlay_calls(o).0[i].pipeline)
            && overlay_calls(o).0[i].count > 0 && overlay_calls(o).0[i].instances > 0,
        0 <= i < overlay_calls(o).1.len() ==> is_overlay(overlay_calls(o).1[i].pipeline)
            && overlay_calls(o).1[i].count > 0 && overlay_calls(o).1[i].instances > 0,
{
    lemma_good(selection_solid_calls(o), preview_calls(o));
    lemma_good(selection_solid_calls(o) + preview_calls(o), selection_line_calls(o));
    lemma_good(
        selection_solid_calls(o) + preview_calls(o) + selection_line_calls(o),
        grid_border_calls(o),
    );
    lemma_good(ping_wave_calls(o), ping_calls(o));
    lemma_good(ping_wave_calls(o) + ping_calls(o), gizmo_calls(o));
    lemma_preview_good(o);
}

spec fn good(s: Seq<DrawCall>) -> bool {
    forall|i: int|
        0 <= i < s.len() ==> is_overlay((#[trigger] s[i]).pipeline) && s[i].count > 0
            && s[i].instances > 0
}

proof fn lemma_good(a: Seq<DrawCall>, b: Seq<DrawCall>)
    ensures
        good(a) && good(b) ==> good(a + b),
{
    if good(a) && good(b) {
        assert forall|i: int| 0 <= i < (a + b).len() implies is_overlay(
            (#[trigger] (a + b)[i]).pipeline,
        ) && (a + b)[i].count > 0 && (a + b)[i].instances > 0 by {
            if i < a.len() {
                assert((a + b)[i] == a[i]);
            } else {
                assert((a + b)[i] == b[i - a.len()]);
            }
        }
    }
}

proof fn lemma_preview_good(o: Overlays)
    ensures
        good(preview_calls(o)),
{
    let a = instanced_calls(
        Geometry::PreviewSolid,
        o.preview_solid,
        seq![PipelineId::PreviewInstOccluded, PipelineId::PreviewInstFront],
    );
    let b = instanced_calls(
        Geometry::PreviewWire,
        o.preview_wire,
        seq![PipelineId::PreviewInstFrontWire],
    );
    let c = plain_calls(
        Geometry::PreviewExtra,
        o.preview_extra,
        1,
        seq![PipelineId::PreviewOccluded, PipelineId::PreviewFront],
    );
    let d = plain_calls(
        Geometry::PreviewExtraWire,
        o.preview_extra_wire,
        1,
        seq![PipelineId::PreviewFrontWire],
    );
    let e = instanced_calls(
        Geometry::GenSolid,
        o.gen_solid,
        seq![PipelineId::GenPreviewInstOccluded, PipelineId::GenPreviewInstFront],
    );
    let f = instanced_calls(
        Geometry::GenWire,
        o.gen_wire,
        seq![PipelineId::GenPreviewInstFrontWire],
    );
    lemma_good(a, b);
    lemma_good(a + b, c);
    lemma_good(a + b + c, d);
    lemma_good(a + b + c + d, e);
    lemma_good(a + b + c + d + e, f);
}

/// After clearing, no preview is drawn.
pub proof fn law_cleared_preview_draws_nothing(o: Overlays)
    ensures
        preview_calls(without_preview(o)).len() == 0,
        without_preview(without_preview(o)) == without_preview(o),
{
}

} // verus!
