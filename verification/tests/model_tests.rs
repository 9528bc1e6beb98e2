use suckless_hn::hn::submission_url;
use suckless_hn::models::{FilterKind, Modifier, Theme};

#[test]
fn submission_url_renders_the_id() {
    assert_eq!(
        "https://news.ycombinator.com/item?id=23366546",
        submission_url(23366546)
    );
    assert_eq!("https://news.ycombinator.com/item?id=0", submission_url(0));
    assert_eq!(
        "https://news.ycombinator.com/item?id=-17",
        submission_url(-17)
    );
}

#[test]
fn theme_object_paths() {
    assert_eq!("front", Theme::Dark.object_path("front"));
    assert_eq!("light/front", Theme::Light.object_path("front"));
    assert_eq!("dark", Theme::Dark.as_str());
    assert_eq!("light", Theme::Light.as_str());
}

#[test]
fn modifier_inner_filter() {
    assert_eq!(
        FilterKind::AskHn,
        Modifier::With(FilterKind::AskHn).inner_filter()
    );
    assert_eq!(
        FilterKind::BigTech,
        Modifier::Without(FilterKind::BigTech).inner_filter()
    );
}
