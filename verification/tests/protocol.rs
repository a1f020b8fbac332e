use wallerd::client::{build_msg, ClientCommand};
use wallerd::daemon::commands::{Command, ListCmd, ShaderKind, WallpaperCmd};

fn parse(s: &str) -> Option<Command> {
    Command::parse(s)
}

#[test]
fn parse_wallpaper_commands() {
    assert_eq!(
        parse("wallpaper set /home/u/a b.png"),
        Some(Command::Wallpaper(WallpaperCmd::SetPath("/home/u/a b.png".to_string())))
    );
    assert_eq!(parse("wallpaper stop"), Some(Command::Wallpaper(WallpaperCmd::Stop)));
    assert_eq!(parse("wallpaper continue"), Some(Command::Wallpaper(WallpaperCmd::Continue)));
    assert_eq!(parse("wallpaper set"), Some(Command::Wallpaper(WallpaperCmd::SetPath(String::new()))));
    assert_eq!(parse("wallpaper pause"), None);
    assert_eq!(parse("wallpaper"), None);
}

#[test]
fn parse_config_commands() {
    assert_eq!(parse("config Lakeside"), Some(Command::Config("Lakeside".to_string())));
    assert_eq!(parse("config   Gaming  "), Some(Command::Config("Gaming".to_string())));
    assert_eq!(parse("config"), None);
    assert_eq!(parse("config "), None);
    assert_eq!(parse("config  "), Some(Command::Config(String::new())));
}

#[test]
fn parse_list_commands() {
    assert_eq!(parse("list profiles"), Some(Command::List(ListCmd::Profiles)));
    assert_eq!(parse("list shaders constant"), Some(Command::List(ListCmd::Shaders(ShaderKind::Constant))));
    assert_eq!(
        parse("list shaders  transition "),
        Some(Command::List(ListCmd::Shaders(ShaderKind::Transition)))
    );
    assert_eq!(parse("list shaders"), None);
    assert_eq!(parse("list instances"), None);
}

#[test]
fn parse_shader_commands() {
    assert_eq!(
        parse("shader set constant vhs"),
        Some(Command::SetShader(ShaderKind::Constant, "vhs".to_string()))
    );
    assert_eq!(
        parse("shader set transition  zoom_blur "),
        Some(Command::SetShader(ShaderKind::Transition, "zoom_blur".to_string()))
    );
    assert_eq!(parse("shader set constant"), None);
    assert_eq!(parse("shader get constant vhs"), None);
    assert_eq!(parse("shader set other vhs"), None);
}

#[test]
fn parse_quit_and_unknown() {
    assert_eq!(parse("quit"), Some(Command::Quit));
    assert_eq!(parse("quit now"), Some(Command::Quit));
    assert_eq!(parse("kill"), None);
    assert_eq!(parse(""), None);
    assert_eq!(parse("Quit"), None);
}

#[test]
fn client_messages_are_the_protocol_lines() {
    assert_eq!(build_msg(&ClientCommand::WallpaperSet("/a.png".to_string())), "wallpaper set /a.png");
    assert_eq!(build_msg(&ClientCommand::WallpaperStop), "wallpaper stop");
    assert_eq!(build_msg(&ClientCommand::WallpaperContinue), "wallpaper continue");
    assert_eq!(build_msg(&ClientCommand::Config("Lakeside".to_string())), "config Lakeside");
    assert_eq!(build_msg(&ClientCommand::ListProfiles), "list profiles");
    assert_eq!(build_msg(&ClientCommand::ListShaders(ShaderKind::Constant)), "list shaders constant");
    assert_eq!(build_msg(&ClientCommand::ListShaders(ShaderKind::Transition)), "list shaders transition");
    assert_eq!(build_msg(&ClientCommand::ShaderConstant("vhs".to_string())), "shader set constant vhs");
    assert_eq!(
        build_msg(&ClientCommand::ShaderTransition("fade".to_string())),
        "shader set transition fade"
    );
    assert_eq!(build_msg(&ClientCommand::Kill), "quit");
}

#[test]
fn client_lines_read_back_as_commands() {
    let cases = vec![
        (
            ClientCommand::WallpaperSet("/p/x y.png".to_string()),
            Command::Wallpaper(WallpaperCmd::SetPath("/p/x y.png".to_string())),
        ),
        (ClientCommand::WallpaperStop, Command::Wallpaper(WallpaperCmd::Stop)),
        (ClientCommand::Config("Slideshow".to_string()), Command::Config("Slideshow".to_string())),
        (ClientCommand::ListProfiles, Command::List(ListCmd::Profiles)),
        (
            ClientCommand::ShaderTransition("hex_grid".to_string()),
            Command::SetShader(ShaderKind::Transition, "hex_grid".to_string()),
        ),
        (ClientCommand::Kill, Command::Quit),
    ];
    for (c, expected) in cases {
        let line = format!("{}\n", build_msg(&c));
        let received = wallerd::text::trim_str(&line);
        assert_eq!(Command::parse(received), Some(expected));
    }
}
