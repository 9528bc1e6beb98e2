use suckless_hn::filters::{
    for_stories, AskHn, BigTech, Filter, FromMajorNewspaper, LargeNewspaper, MentionsBigTech,
    ShowHn,
};
use suckless_hn::filters::kinds_from_flags;
use suckless_hn::models::{FilterKind, Story, StoryKind};

fn url_story(id: i64, title: &str, url: &str) -> Story {
    Story {
        id,
        title: title.to_string(),
        archive_url: None,
        kind: StoryKind::Url(url.to_string()),
    }
}

fn text_story(id: i64, title: &str, text: &str) -> Story {
    Story {
        id,
        title: title.to_string(),
        archive_url: None,
        kind: StoryKind::Text(text.to_string()),
    }
}

#[test]
fn impls_it_should_match_newspapers() {
    let news = "https://www.wsj.com/articles/reddit-claims-52-million-daily-users-revealing-a-key-figure-for-social-media-platforms-11606822200";
    let story = url_story(1, "A headline about something", news);
    assert!(LargeNewspaper.should_flag(&story));
    assert!(FromMajorNewspaper.should_flag(&story));

    let story = url_story(2, "A headline about something", "https://quiet-corner.example.com/random/post");
    assert!(!LargeNewspaper.should_flag(&story));
    assert!(!FromMajorNewspaper.should_flag(&story));

    let story = text_story(3, "A headline about something", "Some inline text");
    assert!(!LargeNewspaper.should_flag(&story));
    assert!(!FromMajorNewspaper.should_flag(&story));
}

#[test]
fn mod_it_should_match_newspapers() {
    let news = "https://www.wsj.com/articles/reddit-claims-52-million-daily-users-revealing-a-key-figure-for-social-media-platforms-11606822200";
    let story = url_story(1, "A headline about something", news);
    assert!(FromMajorNewspaper.applies(&story));

    let story = url_story(2, "A headline about something", "https://quiet-corner.example.com/random/post");
    assert!(!FromMajorNewspaper.applies(&story));

    let story = text_story(3, "A headline about something", "Some inline text");
    assert!(!FromMajorNewspaper.applies(&story));
}

#[test]
fn newspaper_filter_matches_more_newspapers() {
    let story = url_story(1, "t", "https://www.nytimes.com/2020/12/01/some-article.html");
    assert!(LargeNewspaper.should_flag(&story));
    // the older, smaller registry revision does not know this newspaper
    assert!(!FromMajorNewspaper.should_flag(&story));

    let story = url_story(2, "t", "http://bbc.co.uk/news/some-item");
    assert!(LargeNewspaper.should_flag(&story));
}

#[test]
fn title_prefix_filters() {
    let ask = url_story(1, "Ask HN: how do you test filters?", "https://example.com/a");
    assert!(AskHn.should_flag(&ask));
    assert!(AskHn.applies(&ask));
    assert!(!ShowHn.should_flag(&ask));

    let show = url_story(2, "Show HN: a tiny verified filter engine", "https://example.com/b");
    assert!(ShowHn.should_flag(&show));
    assert!(!AskHn.should_flag(&show));

    // the prefix must sit at the start of the title
    let middle = url_story(3, "I saw an Ask HN yesterday", "https://example.com/c");
    assert!(!AskHn.should_flag(&middle));
}

#[test]
fn big_tech_filter_scans_titles() {
    for word in ["Apple", "Microsoft", "Facebook", "Google"] {
        let story = url_story(1, &format!("Why {} did a thing", word), "https://example.com");
        assert!(BigTech.should_flag(&story), "{} should flag", word);
        assert!(MentionsBigTech.should_flag(&story));
        assert!(MentionsBigTech.applies(&story));
    }
    let story = url_story(2, "Fruit companies and their orchards", "https://example.com");
    assert!(!BigTech.should_flag(&story));
    assert!(!MentionsBigTech.should_flag(&story));
}

#[test]
fn filter_kind_dispatches_and_names() {
    assert_eq!("askhn", FilterKind::AskHn.name());
    assert_eq!("showhn", FilterKind::ShowHn.name());
    assert_eq!("bignews", FilterKind::LargeNewspaper.name());
    assert_eq!("amfg", FilterKind::BigTech.name());
    assert_eq!("askhn", AskHn.name());
    assert_eq!("showhn", ShowHn.name());
    assert_eq!("bignews", LargeNewspaper.name());
    assert_eq!("amfg", BigTech.name());
    assert_eq!("bignews", FromMajorNewspaper.name());
    assert_eq!("amfg", MentionsBigTech.name());

    let ask = url_story(1, "Ask HN: what?", "https://example.com");
    assert!(FilterKind::AskHn.should_flag(&ask));
    assert!(!FilterKind::ShowHn.should_flag(&ask));
    assert!(FilterKind::AskHn.applies(&ask));
}

#[test]
fn classifier_labels_every_story_in_order() {
    let stories = vec![
        url_story(10, "Ask HN: which Apple?", "https://example.com/1"),
        url_story(11, "Plain title", "https://www.wsj.com/articles/x"),
        text_story(12, "Plain text post", "body"),
    ];
    let classified = for_stories(&stories);
    assert_eq!(3, classified.len());
    assert_eq!(10, classified[0].0);
    // registry enumeration order: amfg < askhn < bignews < showhn
    assert_eq!(vec![FilterKind::BigTech, FilterKind::AskHn], classified[0].1);
    assert_eq!(11, classified[1].0);
    assert_eq!(vec![FilterKind::LargeNewspaper], classified[1].1);
    assert_eq!(12, classified[2].0);
    assert!(classified[2].1.is_empty());
}

#[test]
fn flag_columns_decode_to_filters() {
    assert!(kinds_from_flags(false, false, false, false).is_empty());
    assert_eq!(
        vec![FilterKind::BigTech, FilterKind::ShowHn],
        kinds_from_flags(true, false, true, false)
    );
    assert_eq!(
        vec![
            FilterKind::BigTech,
            FilterKind::AskHn,
            FilterKind::ShowHn,
            FilterKind::LargeNewspaper
        ],
        kinds_from_flags(true, true, true, true)
    );
    assert_eq!(
        vec![FilterKind::AskHn, FilterKind::LargeNewspaper],
        kinds_from_flags(false, true, false, true)
    );
}
