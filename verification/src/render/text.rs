//! Text over the picture: names of peers, the name at a ping, and how far the
//! gizmo was dragged.

use vstd::prelude::*;

use crate::voxelle::{blue, color_channels, green, red};

verus! {

/// A label at a place of the viewport, given as bit patterns. The colour is `0xRRGGBB`.
#[derive(Debug)]
pub struct GpuPeerLabel {
    pub name: String,
    pub color_rgb: u32,
    pub x: u32,
    pub y: u32,
}

/// The labels that are shown.
#[derive(Debug)]
pub struct Labels {
    pub peers: Vec<GpuPeerLabel>,
    pub ping: Option<GpuPeerLabel>,
    pub gizmo_delta: Option<GpuPeerLabel>,
}

/// The names that are drawn, peers before the ping.
pub open spec fn names_drawn(l: Labels) -> Seq<GpuPeerLabel> {
    match l.ping {
        Some(p) => l.peers@.push(p),
        None => l.peers@,
    }
}

impl Labels {
    /// No labels.
    pub fn new() -> (r: Labels)
        ensures
            r.peers@.len() == 0,
            r.ping is None,
            r.gizmo_delta is None,
    {
        Labels { peers: Vec::new(), ping: None, gizmo_delta: None }
    }

    /// Shows the names of the peers in place of those shown.
    pub fn upload_peer_labels(&mut self, labels: Vec<GpuPeerLabel>)
        ensures
            *final(self) == (Labels { peers: labels, ..*old(self) }),
    {
        self.peers = labels;
    }

    /// Takes the names of the peers away.
    pub fn clear_peer_labels(&mut self)
        ensures
            final(self).peers@.len() == 0,
            *final(self) == (Labels { peers: final(self).peers, ..*old(self) }),
    {
        self.peers.clear();
    }

    /// Shows the name at a ping.
    pub fn upload_ping_label(&mut self, label: GpuPeerLabel)
        ensures
            *final(self) == (Labels { ping: Some(label), ..*old(self) }),
    {
        self.ping = Some(label);
    }

    /// Takes the name at the ping away.
    pub fn clear_ping_label(&mut self)
        ensures
            *final(self) == (Labels { ping: None, ..*old(self) }),
    {
        self.ping = None;
    }

    /// Shows how far the gizmo was dragged, or nothing.
    pub fn upload_gizmo_delta_label(&mut self, label: Option<GpuPeerLabel>)
        ensures
            *final(self) == (Labels { gizmo_delta: label, ..*old(self) }),
    {
        self.gizmo_delta = label;
    }

    /// Whether a name is to be drawn.
    pub fn has_names(&self) -> (r: bool)
        ensures
            r == (names_drawn(*self).len() > 0),
    {
        self.peers.len() > 0 || self.ping.is_some()
    }

    /// Number of names that are drawn.
    pub fn name_count(&self) -> (r: usize)
        requires
            self.peers@.len() < usize::MAX,
        ensures
            r == names_drawn(*self).len(),
    {
        match &self.ping {
            Some(_) => self.peers.len() + 1,
            None => self.peers.len(),
        }
    }

    /// Name `i` of those that are drawn.
    pub fn name(&self, i: usize) -> (r: &GpuPeerLabel)
        requires
            i < names_drawn(*self).len(),
        ensures
            *r == names_drawn(*self)[i as int],
    {
        let n: usize = self.peers.len();
        if i < n {
            &self.peers[i]
        } else {
            match &self.ping {
                Some(p) => p,
                None => &self.peers[i],
            }
        }
    }
}

impl GpuPeerLabel {
    /// Red, green and blue of the colour.
    pub fn channels(&self) -> (r: (u8, u8, u8))
        ensures
            r.0 == red(self.color_rgb),
            r.1 == green(self.color_rgb),
            r.2 == blue(self.color_rgb),
    {
        let c: (i32, i32, i32) = color_channels(self.color_rgb);
        (c.0 as u8, c.1 as u8, c.2 as u8)
    }
}

} // verus!
