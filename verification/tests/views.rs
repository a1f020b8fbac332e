use wallerd::config::parser::{default_displays, default_mode, default_scaling, Config};
use wallerd::daemon::views::{
    build, is_image, image_key_of, seconds_of_day, seconds_since_midnight, view_kind, AnyView,
    IntervalView, TimeView, View, ViewKind,
};

fn names(v: &[&str]) -> Vec<String> {
    v.iter().map(|s| s.to_string()).collect()
}

fn config(path: &str, view: &str, interval: Option<u64>) -> Config {
    Config {
        mode: default_mode(),
        displays: default_displays(),
        width: None,
        height: None,
        path: path.to_string(),
        view: view.to_string(),
        scaling: default_scaling(),
        transition_shader: None,
        transition_duration: None,
        constant_shader: None,
        interval,
    }
}

#[test]
fn recognises_image_files() {
    assert!(is_image("/a/b.png"));
    assert!(is_image("x.jpeg"));
    assert!(is_image("x.jpg"));
    assert!(is_image("x.webp"));
    assert!(is_image("x.bmp"));
    assert!(!is_image("x.PNG"));
    assert!(!is_image("x.gif"));
    assert!(!is_image(".png"));
    assert!(!is_image("dir/"));
    assert!(is_image("dir/a.png/"));
}

#[test]
fn image_keys_read_the_stem() {
    assert_eq!(image_key_of("10.png"), 10);
    assert_eq!(image_key_of("photo.png"), 0);
    assert_eq!(image_key_of("+3.jpg"), 3);
}

#[test]
fn interval_view_orders_by_file_name() {
    let entries = names(&["10.png", "2.png", "b.jpg", "a.jpg", "notes.txt", "1.webp"]);
    let v = IntervalView::new("/pics", &entries, 300).unwrap();
    let got: Vec<String> = (0..v.len()).map(|i| v.image(i)).collect();
    assert_eq!(got, names(&["/pics/1.webp", "/pics/10.png", "/pics/2.png", "/pics/a.jpg", "/pics/b.jpg"]));
    assert_eq!(v.initial(), "/pics/1.webp");
    assert_eq!(v.interval_secs(), 300);
    let w = IntervalView::new("/f", &names(&["a.png", "1.png"]), 60).unwrap();
    assert_eq!(w.initial(), "/f/1.png");
}

#[test]
fn time_view_orders_by_number_then_name() {
    let entries = names(&["10.png", "2.png", "b.jpg", "a.jpg", "notes.txt", "1.webp"]);
    let v = TimeView::at_time("/pics", &entries, 0).unwrap();
    let got: Vec<String> = (0..v.len()).map(|i| v.image(i)).collect();
    assert_eq!(got, names(&["/pics/a.jpg", "/pics/b.jpg", "/pics/1.webp", "/pics/2.png", "/pics/10.png"]));
}

#[test]
fn interval_view_cycles_through_all_images() {
    let v = IntervalView::new("/p", &names(&["0.png", "1.png", "2.png"]), 60).unwrap();
    let mut seen = vec![0usize];
    let mut i = v.first_index();
    for _ in 0..5 {
        seen.push(i);
        i = v.next_index(i);
    }
    assert_eq!(seen, vec![0, 1, 2, 0, 1, 2]);
    let single = IntervalView::new("/p", &names(&["0.png"]), 60).unwrap();
    assert_eq!(single.first_index(), 0);
}

#[test]
fn folder_without_images_gives_no_view() {
    assert!(IntervalView::new("/p", &names(&["a.txt"]), 60).is_none());
    assert!(TimeView::at_time("/p", &names(&[]), 0).is_none());
    assert!(TimeView::new("/p", &names(&["x.gif"]), 0).is_none());
}

#[test]
fn time_view_divides_the_day() {
    let v = TimeView::at_time("/p", &names(&["0.png", "1.png", "2.png"]), 30000).unwrap();
    assert_eq!(v.interval_secs(), 28800);
    assert_eq!(v.initial(), "/p/1.png");
    assert_eq!(v.index_at(0), 0);
    assert_eq!(v.index_at(28799), 0);
    assert_eq!(v.index_at(28800), 1);
    assert_eq!(v.index_at(86399), 2);
    assert_eq!(v.secs_until_switch(30000), 28800 - 1200);
    assert_eq!(v.secs_until_switch(28800), 28800);
    assert_eq!(v.secs_until_switch(60000), 86400 - 60000);
    let seven = TimeView::at_time("/p", &names(&["0.png", "1.png", "2.png", "3.png", "4.png", "5.png", "6.png"]), 0).unwrap();
    assert_eq!(seven.interval_secs(), 12342);
    assert_eq!(seven.index_at(74051), 5);
    assert_eq!(seven.index_at(74052), 6);
    assert_eq!(seven.index_at(86394), 6);
    assert_eq!(seven.index_at(86399), 6);
    assert_eq!(seven.secs_until_switch(86394), 6);
    assert_eq!(seven.secs_until_switch(74052), 86400 - 74052);
    assert_eq!(seven.secs_until_switch(70000), 74052 - 70000);
    assert!(seven.current_index(0) < 7);
    let late = TimeView::at_time("/p", &names(&["0.png", "1.png", "2.png", "3.png", "4.png", "5.png", "6.png"]), 86399).unwrap();
    assert_eq!(late.initial(), "/p/6.png");
}

#[test]
fn clock_helpers() {
    assert_eq!(seconds_of_day(86400 * 3 + 5, 0), 5);
    assert_eq!(seconds_of_day(86400 * 3 + 5, 3600), 3605);
    assert_eq!(seconds_of_day(86400 * 3 + 5, -10), 86395);
    assert_eq!(seconds_of_day(86400 * 3 + 5, -86400 * 2), 5);
    assert_eq!(seconds_of_day(5, i64::MIN), 30597);
    assert_eq!(seconds_of_day(u64::MAX, i64::MAX), 81022);
    assert!(seconds_since_midnight(0) < 86400);
    assert!(seconds_since_midnight(-18000) < 86400);
}

#[test]
fn view_kinds_and_build() {
    assert_eq!(view_kind(&config("/p", "time", None)), ViewKind::Time);
    assert_eq!(view_kind(&config("/p", "interval", None)), ViewKind::Interval(60));
    assert_eq!(view_kind(&config("/p", "interval", Some(5))), ViewKind::Interval(5));
    assert_eq!(view_kind(&config("/p", "static", Some(5))), ViewKind::Static);
    assert_eq!(view_kind(&config("/p", "slideshow", None)), ViewKind::Static);
    match build(&config("/w.png", "static", None), &vec![], 0) {
        Some(AnyView::Static(v)) => assert_eq!(v.initial(), "/w.png"),
        _ => panic!("expected a static view"),
    }
    match build(&config("/f", "interval", Some(9)), &names(&["b.png", "a.png"]), 0) {
        Some(v @ AnyView::Interval(_)) => assert_eq!(v.initial(), "/f/a.png"),
        _ => panic!("expected an interval view"),
    }
    assert!(build(&config("/f", "time", None), &names(&["readme"]), 0).is_none());
}
