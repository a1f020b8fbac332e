use wallerd::daemon::app::{runs_as_wallpaper, surface_extent, window_layout, window_name, WindowLayout};
use wallerd::config::parser::{default_displays, default_mode, default_scaling, Config};
use wallerd::daemon::commands::{Command, ListCmd, ShaderKind, WallpaperCmd};
use wallerd::daemon::control::{DaemonState, Effect};
use wallerd::daemon::ipc::{forward_reply, ipc_decide, IpcAction};
use wallerd::daemon::ipc_responses::{active_label, list_shaders_json, shaders_reply};
use wallerd::daemon::wallpaper::{configure_action, output_matches, ConfigureAction};

fn names(v: &[&str]) -> Vec<String> {
    v.iter().map(|s| s.to_string()).collect()
}

#[test]
fn pause_holds_and_continue_resumes() {
    let mut s = DaemonState::new(None, "/a.png".to_string());
    assert_eq!(s.handle_command(Command::Wallpaper(WallpaperCmd::Stop)), Effect::Nothing);
    assert_eq!(
        s.handle_command(Command::Wallpaper(WallpaperCmd::SetPath("/b.png".to_string()))),
        Effect::Nothing
    );
    assert_eq!(s.current_image, "/a.png");
    assert_eq!(s.handle_command(Command::Wallpaper(WallpaperCmd::Continue)), Effect::Nothing);
    assert_eq!(
        s.handle_command(Command::Wallpaper(WallpaperCmd::SetPath("/b.png".to_string()))),
        Effect::LoadImage("/b.png".to_string())
    );
    assert_eq!(s.current_image, "/b.png");
}

#[test]
fn profile_switch_drops_overrides() {
    let mut s = DaemonState::new(Some("Gaming".to_string()), "/a.png".to_string());
    assert_eq!(
        s.handle_command(Command::SetShader(ShaderKind::Constant, "vhs".to_string())),
        Effect::ConstantShaderChanged
    );
    assert_eq!(
        s.handle_command(Command::SetShader(ShaderKind::Transition, "fade".to_string())),
        Effect::TransitionShaderChanged
    );
    assert_eq!(s.override_constant_shader, Some("vhs".to_string()));
    assert_eq!(s.handle_command(Command::Config("Lakeside".to_string())), Effect::SwitchProfile);
    assert_eq!(s.active_profile(), Some("Lakeside"));
    assert_eq!(s.override_constant_shader, None);
    assert_eq!(s.override_transition_shader, None);
    s.handle_command(Command::Config("default".to_string()));
    assert_eq!(s.active_profile(), None);
    assert_eq!(s.handle_command(Command::List(ListCmd::Profiles)), Effect::Nothing);
    assert_eq!(s.handle_command(Command::Quit), Effect::Exit);
    assert!(s.exit);
}

#[test]
fn pending_image_shown_when_transition_ends() {
    let mut s = DaemonState::new(None, "/a.png".to_string());
    assert!(s.take_initial_upload());
    assert!(!s.take_initial_upload());
    assert!(s.after_upload(false));
    assert!(!s.pending_tex_promotion);
    assert!(!s.after_upload(true));
    assert!(s.pending_tex_promotion);
    assert!(!s.after_render(true, true));
    assert!(!s.after_render(false, false));
    assert!(s.pending_tex_promotion);
    assert!(s.after_render(true, false));
    assert!(!s.pending_tex_promotion);
    assert!(!s.after_render(true, false));
    assert!(s.after_upload(false));
    assert!(!s.pending_tex_promotion);
    assert!(s.image_taken(false));
    s.handle_command(Command::Wallpaper(WallpaperCmd::Stop));
    assert!(!s.image_taken(true));
    assert!(s.image_taken(false));
}

#[test]
fn ipc_answers() {
    let profiles = names(&["Lakeside", "Gaming"]);
    assert_eq!(ipc_decide("bogus\n", &profiles), IpcAction::Reply("error: unknown command".to_string()));
    assert_eq!(ipc_decide("list profiles\n", &profiles), IpcAction::ListProfiles);
    assert_eq!(
        ipc_decide("list shaders transition\n", &profiles),
        IpcAction::ListShaders(ShaderKind::Transition)
    );
    assert_eq!(
        ipc_decide("config Nope\n", &profiles),
        IpcAction::Reply("error: unknown profile 'Nope'".to_string())
    );
    assert_eq!(
        ipc_decide("config Gaming\n", &profiles),
        IpcAction::SwitchProfile { cmd: Command::Config("Gaming".to_string()), active: Some("Gaming".to_string()) }
    );
    assert_eq!(
        ipc_decide("  config default \n", &profiles),
        IpcAction::SwitchProfile { cmd: Command::Config("default".to_string()), active: None }
    );
    assert_eq!(ipc_decide("quit\n", &profiles), IpcAction::Forward(Command::Quit));
    assert_eq!(forward_reply(true), "ok");
    assert_eq!(forward_reply(false), "error: daemon stopped");
}

#[test]
fn shader_list_json() {
    assert_eq!(list_shaders_json(&names(&["fade", "pixel"])), "[\"fade\",\"pixel\"]");
    assert_eq!(list_shaders_json(&vec![]), "[]");
    assert_eq!(
        list_shaders_json(&names(&["a\"b", "c\\d", "e\nf\tg", "\u{1}\u{1f}", "é/"])),
        "[\"a\\\"b\",\"c\\\\d\",\"e\\nf\\tg\",\"\\u0001\\u001f\",\"é/\"]"
    );
    assert_eq!(active_label(None), "default");
    assert_eq!(active_label(Some("Gaming")), "Gaming");
    assert_eq!(shaders_reply(None), "[]");
    assert_eq!(shaders_reply(Some("[1]".to_string())), "[1]");
}

#[test]
fn window_decisions() {
    let mut c = Config {
        mode: default_mode(),
        displays: default_displays(),
        width: Some(800),
        height: Some(600),
        path: "/p".to_string(),
        view: "static".to_string(),
        scaling: default_scaling(),
        transition_shader: None,
        transition_duration: None,
        constant_shader: None,
        interval: None,
    };
    assert_eq!(window_layout(&c), WindowLayout::Fullscreen);
    assert!(runs_as_wallpaper(&c));
    c.mode = "maximised".to_string();
    assert_eq!(window_layout(&c), WindowLayout::Maximized);
    c.mode = "windowed".to_string();
    assert_eq!(window_layout(&c), WindowLayout::Sized(800, 600));
    assert!(!runs_as_wallpaper(&c));
    c.height = None;
    assert_eq!(window_layout(&c), WindowLayout::Plain);
    assert_eq!(window_name(None), "windowed-wallerd");
    assert_eq!(window_name(Some("x")), "windowed-wallerd-x");
    assert_eq!(surface_extent(0), 1);
    assert_eq!(surface_extent(7), 7);
}

#[test]
fn wallpaper_decisions() {
    assert!(output_matches(&names(&["*"]), None));
    assert!(output_matches(&names(&["eDP-1", "DP-1"]), Some("DP-1")));
    assert!(!output_matches(&names(&["eDP-1"]), Some("DP-1")));
    assert!(!output_matches(&names(&["eDP-1"]), None));
    assert_eq!(configure_action(0, 5, false), ConfigureAction::Ignore);
    assert_eq!(configure_action(5, 5, false), ConfigureAction::Create);
    assert_eq!(configure_action(5, 5, true), ConfigureAction::Resize);
}
