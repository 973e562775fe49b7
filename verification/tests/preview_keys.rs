use voxel_view::preview::defaults::{
    default_ashlar_seed, default_ashlar_thickness, default_flora_branch_count, default_flora_girth,
    default_flora_seed, default_four_i32, default_grass_max_height, default_grass_seed,
    default_piscina_seed, default_rock_seed, default_three_i32, default_true, default_two_i32,
};
use voxel_view::preview::generator_keys::{
    hash_generator_ashlar_hover, hash_generator_cloth_hover, hash_generator_fauna_hover,
    hash_generator_flora_hover, hash_generator_grass_hover, hash_generator_insecta_hover,
    hash_generator_piscina_hover, AshlarHover, ClothHover, FaunaHover, FloraHover, GrassHover,
    InsectaHover, PiscinaHover,
};
use voxel_view::preview::keys::KeyWord;
use voxel_view::preview::mode::BrushShape;
use voxel_view::preview::session_keys::{bone_preview_words, Bone, BoneJoint, BoneSession};

fn cloth(mesh_gen: u64) -> ClothHover {
    ClothHover {
        pins: vec![(0, 0, 0), (4, 0, 0), (0, 0, 4)],
        tension: 1,
        gravity_dir: String::from("down"),
        gravity_scale: 2,
        stiffness_scale: 3,
        iterations: 4,
        passes: 5,
        brush_radius: 6,
        brush_shape: BrushShape::Cube,
        color: 7,
        dbg: false,
        mesh_gen,
    }
}

#[test]
fn cloth_key_holds_every_setting() {
    let base = cloth(9);
    let words = base.words();
    assert_eq!(words.len(), 26);
    assert_eq!(words[0], KeyWord::Byte(0x43));
    assert_eq!(words[words.len() - 1], KeyWord::Long(9));
    assert_eq!(hash_generator_cloth_hover(&base), hash_generator_cloth_hover(&cloth(9)));
    assert_ne!(hash_generator_cloth_hover(&base), hash_generator_cloth_hover(&cloth(10)));
    let others = [
        ClothHover { pins: vec![(0, 0, 0), (4, 0, 0), (0, 4, 0)], ..cloth(9) },
        ClothHover { tension: 77, ..cloth(9) },
        ClothHover { gravity_dir: String::from("other"), ..cloth(9) },
        ClothHover { gravity_scale: 77, ..cloth(9) },
        ClothHover { stiffness_scale: 77, ..cloth(9) },
        ClothHover { iterations: 77, ..cloth(9) },
        ClothHover { passes: 77, ..cloth(9) },
        ClothHover { brush_radius: 77, ..cloth(9) },
        ClothHover { brush_shape: BrushShape::Circle, ..cloth(9) },
        ClothHover { color: 77, ..cloth(9) },
        ClothHover { dbg: true, ..cloth(9) },
    ];
    for o in &others {
        assert_ne!(o.words(), words);
    }
}

fn grass(mesh_gen: u64) -> GrassHover {
    GrassHover {
        sx: 1,
        sy: 2,
        radius: 3,
        density: 4,
        max_height: 5,
        seed: 6,
        color: 7,
        dbg: false,
        mesh_gen,
    }
}

#[test]
fn grass_key_holds_every_setting() {
    let base = grass(9);
    let words = base.words();
    assert_eq!(words.len(), 10);
    assert_eq!(words[0], KeyWord::Byte(0x67));
    assert_eq!(words[words.len() - 1], KeyWord::Long(9));
    assert_eq!(hash_generator_grass_hover(&base), hash_generator_grass_hover(&grass(9)));
    assert_ne!(hash_generator_grass_hover(&base), hash_generator_grass_hover(&grass(10)));
    let others = [
        GrassHover { sx: 77, ..grass(9) },
        GrassHover { sy: 77, ..grass(9) },
        GrassHover { radius: 77, ..grass(9) },
        GrassHover { density: 77, ..grass(9) },
        GrassHover { max_height: 77, ..grass(9) },
        GrassHover { seed: 77, ..grass(9) },
        GrassHover { color: 77, ..grass(9) },
        GrassHover { dbg: true, ..grass(9) },
    ];
    for o in &others {
        assert_ne!(o.words(), words);
    }
}

fn ashlar(mesh_gen: u64) -> AshlarHover {
    AshlarHover {
        sx: 1,
        sy: 2,
        size: 3,
        roughness: 4,
        seed: 5,
        thickness: 6,
        color: 7,
        dbg: false,
        mesh_gen,
    }
}

#[test]
fn ashlar_key_holds_every_setting() {
    let base = ashlar(9);
    let words = base.words();
    assert_eq!(words.len(), 10);
    assert_eq!(words[0], KeyWord::Byte(0x61));
    assert_eq!(words[words.len() - 1], KeyWord::Long(9));
    assert_eq!(hash_generator_ashlar_hover(&base), hash_generator_ashlar_hover(&ashlar(9)));
    assert_ne!(hash_generator_ashlar_hover(&base), hash_generator_ashlar_hover(&ashlar(10)));
    let others = [
        AshlarHover { sx: 77, ..ashlar(9) },
        AshlarHover { sy: 77, ..ashlar(9) },
        AshlarHover { size: 77, ..ashlar(9) },
        AshlarHover { roughness: 77, ..ashlar(9) },
        AshlarHover { seed: 77, ..ashlar(9) },
        AshlarHover { thickness: 77, ..ashlar(9) },
        AshlarHover { color: 77, ..ashlar(9) },
        AshlarHover { dbg: true, ..ashlar(9) },
    ];
    for o in &others {
        assert_ne!(o.words(), words);
    }
}

fn flora(mesh_gen: u64) -> FloraHover {
    FloraHover {
        sx: 1,
        sy: 2,
        seed: 3,
        height: 4,
        girth: 5,
        wobble: 6,
        taper: 7,
        stem_count: 8,
        cluster_radius: 9,
        branch_count: 10,
        branch_depth: 11,
        branch_start: 12,
        branch_spread: 13,
        braid_strands: 14,
        braid_twist: 15,
        canopy: 16,
        color: 17,
        dbg: false,
        mesh_gen,
    }
}

#[test]
fn flora_key_holds_every_setting() {
    let base = flora(9);
    let words = base.words();
    assert_eq!(words.len(), 20);
    assert_eq!(words[0], KeyWord::Byte(0x46));
    assert_eq!(words[words.len() - 1], KeyWord::Long(9));
    assert_eq!(hash_generator_flora_hover(&base), hash_generator_flora_hover(&flora(9)));
    assert_ne!(hash_generator_flora_hover(&base), hash_generator_flora_hover(&flora(10)));
    let others = [
        FloraHover { sx: 77, ..flora(9) },
        FloraHover { sy: 77, ..flora(9) },
        FloraHover { seed: 77, ..flora(9) },
        FloraHover { height: 77, ..flora(9) },
        FloraHover { girth: 77, ..flora(9) },
        FloraHover { wobble: 77, ..flora(9) },
        FloraHover { taper: 77, ..flora(9) },
        FloraHover { stem_count: 77, ..flora(9) },
        FloraHover { cluster_radius: 77, ..flora(9) },
        FloraHover { branch_count: 77, ..flora(9) },
        FloraHover { branch_depth: 77, ..flora(9) },
        FloraHover { branch_start: 77, ..flora(9) },
        FloraHover { branch_spread: 77, ..flora(9) },
        FloraHover { braid_strands: 77, ..flora(9) },
        FloraHover { braid_twist: 77, ..flora(9) },
        FloraHover { canopy: 77, ..flora(9) },
        FloraHover { color: 77, ..flora(9) },
        FloraHover { dbg: true, ..flora(9) },
    ];
    for o in &others {
        assert_ne!(o.words(), words);
    }
}

fn insecta(mesh_gen: u64) -> InsectaHover {
    InsectaHover {
        sx: 1,
        sy: 2,
        species: String::from("carp"),
        total_length: 3,
        head_ratio: 4,
        thorax_ratio: 5,
        abdomen_ratio: 6,
        body_half_width: 7,
        body_half_height: 8,
        abdomen_taper: 9,
        head_shape: 10,
        anchor_offset_u: 11,
        anchor_offset_v: 12,
        body_yaw: 13,
        body_arch: 14,
        antenna_length: 15,
        antenna_spread: 16,
        antenna_pitch: 17,
        antenna_root: 18,
        mandible_length: 19,
        mandible_spread: 20,
        mandible_forward: 21,
        wing_shape: 22,
        show_wing_fore: false,
        wing_fore_length: 23,
        wing_fore_width: 24,
        wing_fore_spread: 25,
        wing_fore_pitch: 26,
        wing_fore_offset: 27,
        wing_fore_forward_cant: 28,
        show_wing_hind: false,
        wing_hind_length: 29,
        wing_hind_width: 30,
        wing_hind_spread: 31,
        wing_hind_pitch: 32,
        wing_hind_offset: 33,
        color: 34,
        dbg: false,
        mesh_gen,
    }
}

#[test]
fn insecta_key_holds_every_setting() {
    let base = insecta(9);
    let words = base.words();
    assert_eq!(words.len(), 44);
    assert_eq!(words[0], KeyWord::Byte(0x49));
    assert_eq!(words[words.len() - 1], KeyWord::Long(9));
    assert_eq!(hash_generator_insecta_hover(&base), hash_generator_insecta_hover(&insecta(9)));
    assert_ne!(hash_generator_insecta_hover(&base), hash_generator_insecta_hover(&insecta(10)));
    let others = [
        InsectaHover { sx: 77, ..insecta(9) },
        InsectaHover { sy: 77, ..insecta(9) },
        InsectaHover { species: String::from("other"), ..insecta(9) },
        InsectaHover { total_length: 77, ..insecta(9) },
        InsectaHover { head_ratio: 77, ..insecta(9) },
        InsectaHover { thorax_ratio: 77, ..insecta(9) },
        InsectaHover { abdomen_ratio: 77, ..insecta(9) },
        InsectaHover { body_half_width: 77, ..insecta(9) },
        InsectaHover { body_half_height: 77, ..insecta(9) },
        InsectaHover { abdomen_taper: 77, ..insecta(9) },
        InsectaHover { head_shape: 77, ..insecta(9) },
        InsectaHover { anchor_offset_u: 77, ..insecta(9) },
        InsectaHover { anchor_offset_v: 77, ..insecta(9) },
        InsectaHover { body_yaw: 77, ..insecta(9) },
        InsectaHover { body_arch: 77, ..insecta(9) },
        InsectaHover { antenna_length: 77, ..insecta(9) },
        InsectaHover { antenna_spread: 77, ..insecta(9) },
        InsectaHover { antenna_pitch: 77, ..insecta(9) },
        InsectaHover { antenna_root: 77, ..insecta(9) },
        InsectaHover { mandible_length: 77, ..insecta(9) },
        InsectaHover { mandible_spread: 77, ..insecta(9) },
        InsectaHover { mandible_forward: 77, ..insecta(9) },
        InsectaHover { wing_shape: 77, ..insecta(9) },
        InsectaHover { show_wing_fore: true, ..insecta(9) },
        InsectaHover { wing_fore_length: 77, ..insecta(9) },
        InsectaHover { wing_fore_width: 77, ..insecta(9) },
        InsectaHover { wing_fore_spread: 77, ..insecta(9) },
        InsectaHover { wing_fore_pitch: 77, ..insecta(9) },
        InsectaHover { wing_fore_offset: 77, ..insecta(9) },
        InsectaHover { wing_fore_forward_cant: 77, ..insecta(9) },
        InsectaHover { show_wing_hind: true, ..insecta(9) },
        InsectaHover { wing_hind_length: 77, ..insecta(9) },
        InsectaHover { wing_hind_width: 77, ..insecta(9) },
        InsectaHover { wing_hind_spread: 77, ..insecta(9) },
        InsectaHover { wing_hind_pitch: 77, ..insecta(9) },
        InsectaHover { wing_hind_offset: 77, ..insecta(9) },
        InsectaHover { color: 77, ..insecta(9) },
        InsectaHover { dbg: true, ..insecta(9) },
    ];
    for o in &others {
        assert_ne!(o.words(), words);
    }
}

fn fauna(mesh_gen: u64) -> FaunaHover {
    FaunaHover {
        sx: 1,
        sy: 2,
        stance: String::from("quad"),
        archetype: String::from("cat"),
        anchor_offset_u: 3,
        anchor_offset_v: 4,
        body_yaw: 5,
        body_arch: 6,
        spine_segments: 7,
        body_length: 8,
        body_half_width: 9,
        body_half_height: 10,
        neck_length: 11,
        neck_half_width: 12,
        neck_half_height: 13,
        head_length: 14,
        head_half_width: 15,
        head_half_height: 16,
        tail_length: 17,
        shoulder_offset_forward: 18,
        hip_offset_forward: 19,
        front_upper_length: 20,
        front_lower_length: 21,
        hind_upper_length: 22,
        hind_lower_length: 23,
        auto_foot_placement: false,
        color: 24,
        dbg: false,
        mesh_gen,
    }
}

#[test]
fn fauna_key_holds_every_setting() {
    let base = fauna(9);
    let words = base.words();
    assert_eq!(words.len(), 37);
    assert_eq!(words[0], KeyWord::Byte(0x41));
    assert_eq!(words[words.len() - 1], KeyWord::Long(9));
    assert_eq!(hash_generator_fauna_hover(&base), hash_generator_fauna_hover(&fauna(9)));
    assert_ne!(hash_generator_fauna_hover(&base), hash_generator_fauna_hover(&fauna(10)));
    let others = [
        FaunaHover { sx: 77, ..fauna(9) },
        FaunaHover { sy: 77, ..fauna(9) },
        FaunaHover { stance: String::from("other"), ..fauna(9) },
        FaunaHover { archetype: String::from("other"), ..fauna(9) },
        FaunaHover { anchor_offset_u: 77, ..fauna(9) },
        FaunaHover { anchor_offset_v: 77, ..fauna(9) },
        FaunaHover { body_yaw: 77, ..fauna(9) },
        FaunaHover { body_arch: 77, ..fauna(9) },
        FaunaHover { spine_segments: 77, ..fauna(9) },
        FaunaHover { body_length: 77, ..fauna(9) },
        FaunaHover { body_half_width: 77, ..fauna(9) },
        FaunaHover { body_half_height: 77, ..fauna(9) },
        FaunaHover { neck_length: 77, ..fauna(9) },
        FaunaHover { neck_half_width: 77, ..fauna(9) },
        FaunaHover { neck_half_height: 77, ..fauna(9) },
        FaunaHover { head_length: 77, ..fauna(9) },
        FaunaHover { head_half_width: 77, ..fauna(9) },
        FaunaHover { head_half_height: 77, ..fauna(9) },
        FaunaHover { tail_length: 77, ..fauna(9) },
        FaunaHover { shoulder_offset_forward: 77, ..fauna(9) },
        FaunaHover { hip_offset_forward: 77, ..fauna(9) },
        FaunaHover { front_upper_length: 77, ..fauna(9) },
        FaunaHover { front_lower_length: 77, ..fauna(9) },
        FaunaHover { hind_upper_length: 77, ..fauna(9) },
        FaunaHover { hind_lower_length: 77, ..fauna(9) },
        FaunaHover { auto_foot_placement: true, ..fauna(9) },
        FaunaHover { color: 77, ..fauna(9) },
        FaunaHover { dbg: true, ..fauna(9) },
    ];
    for o in &others {
        assert_ne!(o.words(), words);
    }
}

fn piscina(mesh_gen: u64) -> PiscinaHover {
    PiscinaHover {
        sx: 1,
        sy: 2,
        seed: 3,
        species: String::from("carp"),
        length: 4,
        width_param: 5,
        thickness: 6,
        spine_bend: 7,
        spine_s_curve: 8,
        fin_dorsal: 9,
        fin_anal: 10,
        fin_caudal: 11,
        fin_pectoral: 12,
        fin_pelvic: 13,
        fin_adipose: 14,
        show_fin_dorsal: false,
        show_fin_anal: false,
        show_fin_caudal: false,
        show_fin_pectoral: false,
        show_fin_pelvic: false,
        show_fin_adipose: false,
        anchor_offset_u: 15,
        anchor_offset_v: 16,
        color: 17,
        dbg: false,
        mesh_gen,
    }
}

#[test]
fn piscina_key_holds_every_setting() {
    let base = piscina(9);
    let words = base.words();
    assert_eq!(words.len(), 31);
    assert_eq!(words[0], KeyWord::Byte(0x50));
    assert_eq!(words[words.len() - 1], KeyWord::Long(9));
    assert_eq!(hash_generator_piscina_hover(&base), hash_generator_piscina_hover(&piscina(9)));
    assert_ne!(hash_generator_piscina_hover(&base), hash_generator_piscina_hover(&piscina(10)));
    let others = [
        PiscinaHover { sx: 77, ..piscina(9) },
        PiscinaHover { sy: 77, ..piscina(9) },
        PiscinaHover { seed: 77, ..piscina(9) },
        PiscinaHover { species: String::from("other"), ..piscina(9) },
        PiscinaHover { length: 77, ..piscina(9) },
        PiscinaHover { width_param: 77, ..piscina(9) },
        PiscinaHover { thickness: 77, ..piscina(9) },
        PiscinaHover { spine_bend: 77, ..piscina(9) },
        PiscinaHover { spine_s_curve: 77, ..piscina(9) },
        PiscinaHover { fin_dorsal: 77, ..piscina(9) },
        PiscinaHover { fin_anal: 77, ..piscina(9) },
        PiscinaHover { fin_caudal: 77, ..piscina(9) },
        PiscinaHover { fin_pectoral: 77, ..piscina(9) },
        PiscinaHover { fin_pelvic: 77, ..piscina(9) },
        PiscinaHover { fin_adipose: 77, ..piscina(9) },
        PiscinaHover { show_fin_dorsal: true, ..piscina(9) },
        PiscinaHover { show_fin_anal: true, ..piscina(9) },
        PiscinaHover { show_fin_caudal: true, ..piscina(9) },
        PiscinaHover { show_fin_pectoral: true, ..piscina(9) },
        PiscinaHover { show_fin_pelvic: true, ..piscina(9) },
        PiscinaHover { show_fin_adipose: true, ..piscina(9) },
        PiscinaHover { anchor_offset_u: 77, ..piscina(9) },
        PiscinaHover { anchor_offset_v: 77, ..piscina(9) },
        PiscinaHover { color: 77, ..piscina(9) },
        PiscinaHover { dbg: true, ..piscina(9) },
    ];
    for o in &others {
        assert_ne!(o.words(), words);
    }
}


fn session(joints: usize, bones: usize) -> BoneSession {
    BoneSession {
        joints: vec![BoneJoint { id: 1, x: 1, y: 1, z: 1, radius: 1 }; joints],
        bones: vec![Bone { id: 1, joint_a: 1, joint_b: 1 }; bones],
        selected: None,
        pending_joint: None,
    }
}

#[test]
fn skeleton_words_do_not_tell_joints_from_bones() {
    let words = |s: &BoneSession| bone_preview_words(s, 0, 0, false, false, 0);
    assert_eq!(words(&session(3, 0)), words(&session(0, 5)));
    assert_ne!(words(&session(3, 1)), words(&session(3, 0)));
    assert_ne!(words(&session(2, 0)), words(&session(1, 0)));
}

#[test]
fn every_default_setting() {
    assert!(default_true());
    let seeds = [
        default_ashlar_seed(),
        default_rock_seed(),
        default_grass_seed(),
        default_flora_seed(),
        default_piscina_seed(),
    ];
    assert_eq!(seeds, [42; 5]);
    assert_eq!((default_ashlar_thickness(), default_grass_max_height()), (3, 3));
    assert_eq!((default_flora_girth(), default_flora_branch_count()), (2, 4));
    assert_eq!((default_two_i32(), default_three_i32(), default_four_i32()), (2, 3, 4));
}
