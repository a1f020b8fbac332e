use wallerd::config::parser::{default_displays, default_mode, default_scaling, Config};
use wallerd::daemon::commands::ShaderKind;
use wallerd::daemon::renderer::{
    build_render_config, cache_file_name, fill_rect, fit_rect, fnv1a, kind_dir,
    list_shader_names, pick_shader_dir, program_cache_decode, program_cache_encode,
    render_config_from, scale_plan, shader_cache_dir, shader_cache_key, shader_dir_candidates,
    shader_file, shader_list_dirs, xdg_config_shader_base, Rect, ScalePlan, ShaderState,
    TextureSlots,
};

fn names(v: &[&str]) -> Vec<String> {
    v.iter().map(|s| s.to_string()).collect()
}

fn profile() -> Config {
    Config {
        mode: default_mode(),
        displays: default_displays(),
        width: None,
        height: None,
        path: "/p".to_string(),
        view: "static".to_string(),
        scaling: "fit".to_string(),
        transition_shader: Some("fade".to_string()),
        transition_duration: Some(3),
        constant_shader: None,
        interval: None,
    }
}

#[test]
fn shader_directories() {
    assert_eq!(xdg_config_shader_base(Some("/c"), Some("/h")), "/c/wallerd/shaders");
    assert_eq!(xdg_config_shader_base(None, Some("/h")), "/h/.config/wallerd/shaders");
    assert_eq!(xdg_config_shader_base(None, None), ".config/wallerd/shaders");
    assert_eq!(shader_cache_dir(None, Some("/h")), "/h/.cache/wallerd/programs");
    assert_eq!(shader_cache_dir(Some("/k"), None), "/k/wallerd/programs");
    assert_eq!(kind_dir(ShaderKind::Constant), "constant");
    assert_eq!(kind_dir(ShaderKind::Transition), "transition");
    assert_eq!(
        shader_dir_candidates("/b", "constant", "vhs"),
        names(&["/b/constant/vhs", "/usr/share/wallerd/shaders/constant/vhs", "shaders/constant/vhs"])
    );
    assert_eq!(
        shader_list_dirs("/b", "transition"),
        names(&["/b/transition", "/usr/share/wallerd/shaders/transition", "shaders/transition"])
    );
    assert_eq!(shader_file("/b/constant/vhs", "vertex.glsl"), "/b/constant/vhs/vertex.glsl");
}

#[test]
fn picks_first_shader_dir_with_a_vertex_shader() {
    let c = names(&["u", "s", "l"]);
    assert_eq!(pick_shader_dir(&c, &vec![false, true, true]), "s");
    assert_eq!(pick_shader_dir(&c, &vec![true, true, false]), "u");
    assert_eq!(pick_shader_dir(&c, &vec![false, false, false]), "l");
}

#[test]
fn shader_names_are_sorted_and_unique() {
    let found = names(&["vhs", "retrowave", "vhs", "highlight", "dot_matrix_diagonal"]);
    assert_eq!(
        list_shader_names(&found),
        names(&["dot_matrix_diagonal", "highlight", "retrowave", "vhs"])
    );
    assert_eq!(list_shader_names(&vec![]), Vec::<String>::new());
}

#[test]
fn fnv1a_test_vectors() {
    assert_eq!(fnv1a(b""), 0xcbf29ce484222325);
    assert_eq!(fnv1a(b"a"), 0xaf63dc4c8601ec8c);
    assert_eq!(fnv1a(b"foobar"), 0x85944171f73967e8);
}

#[test]
fn shader_cache_key_hashes_dir_and_times() {
    let mut buf = "shaders/constant/vhs".as_bytes().to_vec();
    buf.extend_from_slice(&5u64.to_le_bytes());
    buf.extend_from_slice(&7u64.to_le_bytes());
    assert_eq!(shader_cache_key("shaders/constant/vhs", 5, 7), fnv1a(&buf));
    assert_ne!(shader_cache_key("shaders/constant/vhs", 5, 7), shader_cache_key("shaders/constant/vhs", 7, 5));
    let uni = "é/ß";
    let mut b2 = uni.as_bytes().to_vec();
    b2.extend_from_slice(&0u64.to_le_bytes());
    b2.extend_from_slice(&0u64.to_le_bytes());
    assert_eq!(shader_cache_key(uni, 0, 0), fnv1a(&b2));
}

#[test]
fn cache_file_names_are_sixteen_hex_digits() {
    assert_eq!(cache_file_name(0xdeadbeef), "00000000deadbeef.bin");
    assert_eq!(cache_file_name(u64::MAX), "ffffffffffffffff.bin");
    let k = 0x0123456789abcdefu64;
    assert_eq!(cache_file_name(k), format!("{k:016x}.bin"));
}

#[test]
fn program_cache_round_trip() {
    let data = program_cache_encode(0x8741, &[1, 2, 3]);
    assert_eq!(data, vec![0x41, 0x87, 0, 0, 1, 2, 3]);
    assert_eq!(program_cache_decode(&data), Some((0x8741, vec![1, 2, 3])));
    assert_eq!(program_cache_decode(&[1, 2, 3]), None);
    assert_eq!(program_cache_decode(&[1, 0, 0, 0]), Some((1, vec![])));
}

#[test]
fn texture_slots_delete_each_texture_once() {
    let mut s = TextureSlots::new(1);
    assert_eq!(s.set_initial(2), Some(1));
    assert_eq!(s, TextureSlots { current: 2, next: 2 });
    assert_eq!(s.upload_new(3), None);
    assert_eq!(s.upload_new(4), Some(3));
    assert_eq!(s.commit(), Some(2));
    assert_eq!(s, TextureSlots { current: 4, next: 4 });
    assert_eq!(s.commit(), None);
    assert_eq!(s.release_all(), vec![4]);
    s.upload_new(5);
    assert_eq!(s.release_all(), vec![4, 5]);
}

#[test]
fn render_config_from_profile_and_overrides() {
    let p = profile();
    let r = render_config_from(&p, None, None, "c".to_string(), "t".to_string());
    assert!(!r.uses_animated_constant);
    assert!(r.uses_transition);
    assert_eq!(r.transition_secs, 3);
    assert_eq!(r.scaling, "fit");
    assert_eq!(r.constant_shader_dir, "c");
    let r2 = render_config_from(&p, Some("vhs"), Some("default"), "c".to_string(), "t".to_string());
    assert!(r2.uses_animated_constant);
    assert!(!r2.uses_transition);
    let mut q = profile();
    q.transition_duration = None;
    assert_eq!(render_config_from(&q, None, None, String::new(), String::new()).transition_secs, 2);
    let b = build_render_config(&p, None, None, "/nonexistent-base");
    assert_eq!(b.constant_shader_dir, "shaders/constant/default");
    assert_eq!(b.transition_shader_dir, "shaders/transition/fade");
}

#[test]
fn shader_state_plans_frames() {
    let p = profile();
    let cfg = render_config_from(&p, None, None, "c".to_string(), "t".to_string());
    let mut st = ShaderState::new(&cfg);
    assert!(!st.is_transitioning());
    assert!(!st.begin_transition(&cfg));
    assert!(st.is_transitioning());
    let f = st.frame(&cfg, false);
    assert!(f.transition_pass && f.needs_more && !f.reload_constant_before);
    let cfg2 = render_config_from(&p, Some("vhs"), None, "c2".to_string(), "t2".to_string());
    let f2 = st.frame(&cfg2, true);
    assert!(f2.transition_pass && f2.reload_constant_after && f2.needs_more);
    assert!(!st.is_transitioning());
    assert_eq!(st.constant_shader, "c2");
    assert!(st.begin_transition(&cfg2));
    assert_eq!(st.transition_shader, "t2");
    let none = render_config_from(&p, None, Some("default"), "c2".to_string(), "t2".to_string());
    assert!(!st.begin_transition(&none));
    assert!(!st.is_transitioning());
}

#[test]
fn scaling_plans_and_rectangles() {
    assert_eq!(scale_plan("fill", 10, 10, 20, 10), ScalePlan::Fill);
    assert_eq!(scale_plan("fit", 10, 10, 20, 10), ScalePlan::Fit);
    assert_eq!(scale_plan("stretch", 10, 10, 20, 10), ScalePlan::Keep);
    assert_eq!(scale_plan("fill", 0, 10, 20, 10), ScalePlan::Keep);
    assert_eq!(scale_plan("fill", 10, 10, 20, 0), ScalePlan::Keep);
    assert_eq!(fill_rect(100, 100, true, 50), Rect { w: 100, h: 50, x: 0, y: 25 });
    assert_eq!(fill_rect(100, 100, false, 200), Rect { w: 100, h: 100, x: 0, y: 0 });
    assert_eq!(fit_rect(100, 100, true, 200), Rect { w: 200, h: 100, x: 50, y: 0 });
    assert_eq!(fit_rect(100, 100, false, 150), Rect { w: 100, h: 150, x: 0, y: 25 });
}
