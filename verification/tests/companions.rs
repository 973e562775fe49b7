use voxel_view::render::avatar::Avatars;
use voxel_view::render::mascot::{LogoOverlay, LogoState, Mascots};
use voxel_view::render::mood::{
    default_atm_color, default_dt_far_color, default_dt_mid_color, default_dt_near_color,
    default_true, hex_to_rgb,
};
use voxel_view::render::speech_bubble::{BubblePlace, BubbleState, ShakeTick, SpeechBubbles};
use voxel_view::render::text::{GpuPeerLabel, Labels};

const PLACE: BubblePlace = BubblePlace { screen_rect: [1, 2, 3, 4], tail_tip: [5, 6] };

fn pages(n: usize) -> Vec<String> {
    (0..n).map(|i| format!("page {}", i)).collect()
}

fn label(name: &str) -> GpuPeerLabel {
    GpuPeerLabel { name: String::from(name), color_rgb: 0x123456, x: 0, y: 0 }
}

#[test]
fn clicks_read_every_page_and_dismiss() {
    let mut b = SpeechBubbles::new();
    b.show_speech_bubble(4, pages(3), PLACE);
    assert!(b.has_visible_speech_bubbles());
    for page in 1..3 {
        assert!(b.click_speech_bubble(4));
        assert_eq!(b.bubbles[0].current_page, page);
        assert_eq!(b.bubbles[0].state, BubbleState::Active);
    }
    assert!(!b.click_speech_bubble(4));
    assert_eq!(b.bubbles[0].state, BubbleState::Shaking { shake_t: 0 });
    assert_eq!(b.bubbles[0].current_page, 2);
    assert!(!b.click_speech_bubble(4));
    assert_eq!(b.bubbles[0].state, BubbleState::Dismissed);
    assert!(!b.click_speech_bubble(4));
    assert!(!b.click_speech_bubble(5));
    assert!(!b.has_visible_speech_bubbles());
}

#[test]
fn showing_again_starts_over() {
    let mut b = SpeechBubbles::new();
    b.show_speech_bubble(1, pages(2), PLACE);
    b.show_speech_bubble(2, pages(1), PLACE);
    b.click_speech_bubble(1);
    b.show_speech_bubble(1, pages(2), PLACE);
    let ids: Vec<u32> = b.bubbles.iter().map(|x| x.id).collect();
    assert_eq!(ids, vec![2, 1]);
    assert_eq!(b.bubbles[1].current_page, 0);
    let moved = BubblePlace { tail_tip: [9, 9], ..PLACE };
    b.reposition_speech_bubble(2, moved);
    assert_eq!(b.bubbles[0].place.tail_tip, moved.tail_tip);
}

#[test]
fn ticks_lose_no_bubble() {
    let mut b = SpeechBubbles::new();
    for id in 0..4 {
        b.show_speech_bubble(id, pages(1), PLACE);
    }
    b.click_speech_bubble(1);
    b.click_speech_bubble(2);
    b.dismiss_speech_bubble(3);
    let tick = |done| ShakeTick { shake_t: 77, done };
    let gone = b.tick_speech_bubbles(&[tick(true), tick(true), tick(false), tick(false)]);
    assert_eq!(gone, vec![1, 3]);
    let left: Vec<u32> = b.bubbles.iter().map(|x| x.id).collect();
    assert_eq!(left, vec![0, 2]);
    assert_eq!(b.bubbles[1].state, BubbleState::Shaking { shake_t: 77 });
    b.advance_frame(&[tick(false), tick(true)]);
    assert_eq!(b.pending_dismissed, vec![2]);
    assert_eq!(b.bubbles.len(), 1);
}

#[test]
fn visible_mascots_are_drawn() {
    let mut m = Mascots::new();
    assert!(m.load_mascot_mesh(7, 36) && m.load_mascot_mesh(8, 12) && !m.load_mascot_mesh(7, 48));
    assert_eq!(m.entries[0].index_count, 48);
    assert_eq!(m.entries[0].screen_rect.map(f32::from_bits), [0.0, 0.0, 200.0, 200.0]);
    assert!(!m.any_mascot_visible() && m.render_mascots(true).is_empty());
    m.set_mascot_visible(8, true);
    m.set_mascot_visible(9, true);
    m.set_mascot_screen_rect(8, [1, 2, 3, 4]);
    assert_eq!(m.entries[1].screen_rect, [1, 2, 3, 4]);
    assert_eq!(m.render_mascots(true), vec![1]);
    assert!(m.render_mascots(false).is_empty());
    m.advance(&[5, 6]);
    assert_eq!((m.entries[0].anim_t, m.entries[1].anim_t), (5, 6));
    assert_eq!(m.entries.len(), 2);
}

#[test]
fn logo_returns_to_rest() {
    let mut overlay = LogoOverlay::new();
    assert!(!overlay.logo_overlay_visible());
    assert!(overlay.load_logo_mesh(6));
    overlay.logo = Some(LogoState { visible: true, ..overlay.logo.unwrap() });
    assert!(overlay.logo_overlay_visible() && overlay.render_logo_overlay(true));
    assert!(!overlay.render_logo_overlay(false));
    let mut logo = overlay.logo.unwrap();
    assert!(logo.hover_parallax() && !logo.tick_return_to_rest(false));
    logo.reset_orbit();
    assert!(!logo.hover_parallax());
    assert!(logo.tick_return_to_rest(false) && logo.returning_to_rest);
    assert!(logo.tick_return_to_rest(true) && !logo.returning_to_rest);
    logo.reset_orbit();
    logo.rotate_drag();
    assert!(logo.hover_parallax());
    logo.update_mouse_ndc();
    assert!(logo.mouse_active);
    logo.clear_mouse_ndc();
    assert!(!logo.mouse_active);
    assert!(!overlay.load_logo_mesh(9));
    assert_eq!(overlay.logo.unwrap().index_count, 9);
    assert!(overlay.logo_overlay_visible());
}

#[test]
fn avatars_fall_back_to_the_default_mesh() {
    let mut a = Avatars::new();
    assert!(a.update_avatar_peer(1, String::from("fox")));
    assert!(a.render_avatars().is_empty());
    assert!(a.cache_avatar_mesh(String::new(), 12));
    assert!(a.cache_avatar_mesh(String::from("owl"), 24));
    assert!(!a.cache_avatar_mesh(String::from("owl"), 30));
    assert_eq!(a.meshes[1].index_count, 24);
    assert!(a.update_avatar_peer(2, String::from("owl")));
    let draws: Vec<(usize, usize)> = a.render_avatars().iter().map(|d| (d.peer, d.mesh)).collect();
    assert_eq!(draws, vec![(0, 0), (1, 1)]);
    assert!(!a.update_avatar_peer(1, String::from("owl")));
    a.remove_avatar_peer(2);
    assert_eq!(a.peers.len(), 1);
    assert_eq!(a.render_avatars()[0].mesh, 1);
    a.clear_avatar_peers();
    assert!(a.render_avatars().is_empty());
}

#[test]
fn labels_list_peers_and_ping() {
    let mut l = Labels::new();
    assert!(!l.has_names());
    l.upload_ping_label(label("here"));
    assert!(l.has_names());
    l.upload_peer_labels(vec![label("ann"), label("bo")]);
    let names: Vec<&str> = (0..l.name_count()).map(|i| l.name(i).name.as_str()).collect();
    assert_eq!(names.len(), 3);
    assert!(names.contains(&"here") && names.contains(&"ann"));
    assert_eq!(l.name(0).channels(), (0x12, 0x34, 0x56));
    l.upload_gizmo_delta_label(Some(label("+3")));
    assert_eq!(l.name_count(), 3);
    assert!(l.gizmo_delta.is_some());
    l.clear_peer_labels();
    l.clear_ping_label();
    assert_eq!(l.name_count(), 0);
    l.upload_gizmo_delta_label(None);
    assert!(l.gizmo_delta.is_none());
}

#[test]
fn colours_read_with_and_without_a_hash() {
    assert_eq!(hex_to_rgb("#c8d4e0"), (0xc8, 0xd4, 0xe0));
    assert_eq!(hex_to_rgb("C8D4E0"), (0xc8, 0xd4, 0xe0));
    assert_eq!(hex_to_rgb("##0a0b0c"), (10, 11, 12));
    assert_eq!(hex_to_rgb("+ff"), (0, 0, 255));
    assert_eq!(hex_to_rgb("ff112233"), (0x11, 0x22, 0x33));
    for unreadable in ["", "#", "+", "xyz", "12g", "-1", "123456789", "1 2", "++1"] {
        assert_eq!(hex_to_rgb(unreadable), (255, 255, 255), "{}", unreadable);
    }
    assert_eq!(hex_to_rgb("0000000001"), (0, 0, 1));
}

#[test]
fn mood_defaults() {
    assert_eq!(default_atm_color(), "#c8d4e0");
    assert_eq!(default_dt_near_color(), "#ffffff");
    assert_eq!(default_dt_mid_color(), "#c8d4e0");
    assert_eq!(default_dt_far_color(), "#8fa3bf");
    assert!(default_true());
}
