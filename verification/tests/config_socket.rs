use wallerd::config::parser::{
    config_path_choice, default_config_candidate, get_path, default_displays, default_mode, default_scaling,
    Config, ConfigFile,
};
use wallerd::socket::{all_instances, instance_label, runtime_dir, socket_dir, socket_path};

fn profile(path: &str, view: &str) -> Config {
    Config {
        mode: default_mode(),
        displays: default_displays(),
        width: None,
        height: None,
        path: path.to_string(),
        view: view.to_string(),
        scaling: default_scaling(),
        transition_shader: None,
        transition_duration: None,
        constant_shader: None,
        interval: None,
    }
}

#[test]
fn profile_defaults() {
    assert_eq!(default_mode(), "wallpaper");
    assert_eq!(default_displays(), vec!["*".to_string()]);
    assert_eq!(default_scaling(), "fill");
}

#[test]
fn active_profile_falls_back_to_default() {
    let file = ConfigFile {
        default: profile("/d.png", "static"),
        additional: vec![
            ("Lakeside".to_string(), profile("/lake", "time")),
            ("Gaming".to_string(), profile("/g.png", "static")),
        ],
    };
    assert_eq!(file.active(None).path, "/d.png");
    assert_eq!(file.active(Some("Lakeside")).path, "/lake");
    assert_eq!(file.active(Some("Gaming")).path, "/g.png");
    assert_eq!(file.active(Some("Missing")).path, "/d.png");
    assert_eq!(file.active(Some("default")).path, "/d.png");
    assert!(file.profile("lakeside").is_none());
    assert_eq!(file.profile_names(), vec!["Lakeside".to_string(), "Gaming".to_string()]);
}

#[test]
fn default_config_location() {
    assert_eq!(default_config_candidate(Some("/x/cfg"), Some("/home/u")), "/x/cfg/wallerd/config.toml");
    assert_eq!(default_config_candidate(None, Some("/home/u")), "/home/u/.config/wallerd/config.toml");
    assert_eq!(default_config_candidate(None, None), "~/.config/wallerd/config.toml");
    assert_eq!(default_config_candidate(Some("/x/"), None), "/x/wallerd/config.toml");
}

#[test]
fn config_file_choice() {
    assert_eq!(config_path_choice(Some("/my.toml"), true, "/d.toml", true), Ok("/my.toml".to_string()));
    assert_eq!(config_path_choice(Some("/my.toml"), false, "/d.toml", true), Ok("/d.toml".to_string()));
    assert_eq!(config_path_choice(None, false, "/d.toml", true), Ok("/d.toml".to_string()));
    assert_eq!(config_path_choice(Some("/my.toml"), false, "/d.toml", false), Err(()));
    assert_eq!(config_path_choice(None, true, "/d.toml", false), Err(()));
}

#[test]
fn socket_locations() {
    assert_eq!(runtime_dir(Some("/run/user/1000"), 5), "/run/user/1000");
    assert_eq!(runtime_dir(None, 1000), "/run/user/1000");
    assert_eq!(socket_dir("/run/user/1000"), "/run/user/1000/wallerd");
    assert_eq!(socket_path("/r", None), "/r/wallerd/wallerd.sock");
    assert_eq!(socket_path("/r", Some("primary")), "/r/wallerd/wallerd-primary.sock");
}

#[test]
fn socket_file_labels() {
    assert_eq!(instance_label("wallerd.sock"), Some("default".to_string()));
    assert_eq!(instance_label("wallerd-primary.sock"), Some("primary".to_string()));
    assert_eq!(instance_label("wallerd-a.b.sock"), Some("a.b".to_string()));
    assert_eq!(instance_label("wallerd-.sock"), Some(String::new()));
    assert_eq!(instance_label("other.sock"), None);
    assert_eq!(instance_label("wallerd-x.lock"), None);
    assert_eq!(instance_label(".sock"), None);
    assert_eq!(instance_label("wallerd-x"), None);
}

#[test]
fn every_instance_is_found_under_its_name() {
    let dir = socket_dir("/run/user/7");
    let names = vec![
        "wallerd.sock".to_string(),
        "notes.txt".to_string(),
        "wallerd-primary.sock".to_string(),
    ];
    let found = all_instances(&dir, &names);
    assert_eq!(
        found,
        vec![
            ("default".to_string(), socket_path("/run/user/7", None)),
            ("primary".to_string(), socket_path("/run/user/7", Some("primary"))),
        ]
    );
}

#[test]
fn config_file_lookup_on_disk() {
    assert_eq!(get_path(Some("/"), None, None), Ok("/".to_string()));
    assert_eq!(get_path(Some("/no/such/file.toml"), Some("/no/such/xdg"), None), Err(()));
    assert_eq!(get_path(None, Some("/no/such/xdg"), Some("/no/such/home")), Err(()));
}
