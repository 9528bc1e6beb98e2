use suckless_hn::models::{FilterKind, Modifier, StoryWithFilters};
use suckless_hn::page::{populate, Page};

fn story_with(id: i64, filters: Vec<FilterKind>) -> StoryWithFilters {
    StoryWithFilters {
        id,
        title: format!("A perfectly ordinary headline {}", id),
        url: format!("https://example-{}.com/some/article", id),
        archive_url: None,
        filters,
    }
}

fn page_len(pages: &[Page], name: &str) -> usize {
    pages
        .iter()
        .find(|p| p.name() == name)
        .unwrap_or_else(|| panic!("no page named {}", name))
        .len()
}

#[test]
fn it_pushes_story() {
    let empty_story = story_with(1, vec![]);
    let ask_hn_story = story_with(2, vec![FilterKind::AskHn]);
    let show_hn_story = story_with(3, vec![FilterKind::ShowHn]);
    let amfg_bignews_story =
        story_with(4, vec![FilterKind::LargeNewspaper, FilterKind::BigTech]);

    let mut ask_hn_page = Page::ask_hn();
    ask_hn_page.push(empty_story.clone());
    assert!(ask_hn_page.stories().is_empty());
    ask_hn_page.push(show_hn_story.clone());
    assert!(ask_hn_page.stories().is_empty());
    ask_hn_page.push(ask_hn_story.clone());
    assert!(!ask_hn_page.stories().is_empty());
    assert_eq!("+askhn", ask_hn_page.name());

    let mut show_hn_page = Page::show_hn();
    show_hn_page.push(empty_story.clone());
    assert!(show_hn_page.stories().is_empty());
    show_hn_page.push(amfg_bignews_story.clone());
    assert!(show_hn_page.stories().is_empty());
    show_hn_page.push(show_hn_story.clone());
    assert!(!show_hn_page.stories().is_empty());
    assert_eq!("+showhn", show_hn_page.name());

    let mut default_page = Page::no_bignews_no_bigtech();
    default_page.push(amfg_bignews_story.clone());
    assert!(default_page.stories().is_empty());
    default_page.push(empty_story.clone());
    assert!(!default_page.stories().is_empty());
    default_page.push(show_hn_story.clone());
    assert_eq!(2, default_page.stories().len());
    assert_eq!("-amfg-bignews", default_page.name());

    let mut ask_show_hn_page = Page::ask_show_hn();
    ask_show_hn_page.push(empty_story.clone());
    assert!(ask_show_hn_page.stories().is_empty());
    ask_show_hn_page.push(amfg_bignews_story.clone());
    assert!(ask_show_hn_page.stories().is_empty());
    ask_show_hn_page.push(show_hn_story.clone());
    assert!(!ask_show_hn_page.stories().is_empty());
    ask_show_hn_page.push(ask_hn_story.clone());
    assert_eq!(2, ask_show_hn_page.stories().len());
    assert_eq!("+askhn+showhn", ask_show_hn_page.name());
}

#[test]
fn it_populates_pages() {
    let limit_stories_per_page = 7;

    let stories: Vec<StoryWithFilters> = vec![
        story_with(101, vec![FilterKind::AskHn, FilterKind::ShowHn]),
        story_with(102, vec![FilterKind::LargeNewspaper]),
        story_with(103, vec![]),
        story_with(104, vec![]),
        story_with(105, vec![]),
        story_with(106, vec![FilterKind::BigTech, FilterKind::LargeNewspaper]),
        story_with(107, vec![FilterKind::BigTech]),
        story_with(108, vec![FilterKind::AskHn]),
    ];

    let pages = populate(&stories, limit_stories_per_page);

    assert_eq!(2, page_len(&pages, "+askhn"));
    assert_eq!(6, page_len(&pages, "-askhn"));
    assert_eq!(5, page_len(&pages, "-amfg-bignews"));
    assert_eq!(6, page_len(&pages, "-amfg"));
    // inclusion is disjunctive: both the {askhn, showhn} story and the
    // {askhn} story match at least one inclusion of this page
    assert_eq!(2, page_len(&pages, "+askhn+showhn"));
    assert_eq!(limit_stories_per_page, page_len(&pages, "+all"));
}

#[test]
fn page_names_are_order_independent() {
    let one = Page::new(vec![
        Modifier::With(FilterKind::AskHn),
        Modifier::With(FilterKind::ShowHn),
    ]);
    let other = Page::new(vec![
        Modifier::With(FilterKind::ShowHn),
        Modifier::With(FilterKind::AskHn),
    ]);
    assert_eq!(one.name(), other.name());
    assert_eq!("+askhn+showhn", one.name());

    let one = Page::new(vec![
        Modifier::Without(FilterKind::LargeNewspaper),
        Modifier::Without(FilterKind::BigTech),
    ]);
    let other = Page::new(vec![
        Modifier::Without(FilterKind::BigTech),
        Modifier::Without(FilterKind::LargeNewspaper),
    ]);
    assert_eq!(one.name(), other.name());
    assert_eq!("-amfg-bignews", one.name());
}

#[test]
fn catalogue_page_names() {
    assert_eq!("+all", Page::all().name());
    assert_eq!("+askhn", Page::ask_hn().name());
    assert_eq!("-askhn", Page::no_ask_hn().name());
    assert_eq!("+showhn", Page::show_hn().name());
    assert_eq!("-showhn", Page::no_show_hn().name());
    assert_eq!("+bignews", Page::bignews().name());
    assert_eq!("-bignews", Page::no_bignews().name());
    assert_eq!("+amfg", Page::bigtech().name());
    assert_eq!("-amfg", Page::no_bigtech().name());
    assert_eq!("-amfg-bignews", Page::no_bignews_no_bigtech().name());
    assert_eq!("+askhn+showhn", Page::ask_show_hn().name());
}

#[test]
fn empty_modifier_page_accepts_everything_up_to_capacity() {
    let mut all = Page::all();
    for id in 0..5 {
        all.push(story_with(id, vec![FilterKind::AskHn]));
        all.push(story_with(100 + id, vec![]));
    }
    assert_eq!(10, all.len());

    let stories: Vec<StoryWithFilters> =
        (0..10).map(|id| story_with(id, vec![])).collect();
    let pages = populate(&stories, 4);
    assert_eq!(4, page_len(&pages, "+all"));
}

#[test]
fn exclusion_vetoes_inclusion() {
    let mut page = Page::new(vec![
        Modifier::With(FilterKind::AskHn),
        Modifier::Without(FilterKind::BigTech),
    ]);
    let both = story_with(1, vec![FilterKind::AskHn, FilterKind::BigTech]);
    page.push(both);
    assert!(page.stories().is_empty());
    let ask_only = story_with(2, vec![FilterKind::AskHn]);
    page.push(ask_only);
    assert_eq!(1, page.len());
}

#[test]
fn capacity_is_respected_with_repeated_stories() {
    let one = story_with(9, vec![]);
    let stories: Vec<StoryWithFilters> = vec![
        one.clone(),
        one.clone(),
        one.clone(),
        one.clone(),
        one.clone(),
    ];
    let pages = populate(&stories, 3);
    for page in &pages {
        assert!(page.len() <= 3);
    }
    assert_eq!(3, page_len(&pages, "+all"));

    let pages = populate(&stories, 0);
    for page in &pages {
        assert_eq!(0, page.len());
    }
}

#[test]
fn population_preserves_rank_order() {
    let stories: Vec<StoryWithFilters> = vec![
        story_with(31, vec![FilterKind::AskHn]),
        story_with(32, vec![FilterKind::BigTech]),
        story_with(33, vec![FilterKind::AskHn]),
        story_with(34, vec![]),
        story_with(35, vec![FilterKind::AskHn]),
    ];
    let pages = populate(&stories, 10);
    let ask = pages.iter().find(|p| p.name() == "+askhn").unwrap();
    let ids: Vec<i64> = ask.stories().iter().map(|s| s.id).collect();
    assert_eq!(vec![31, 33, 35], ids);
    let no_ask = pages.iter().find(|p| p.name() == "-askhn").unwrap();
    let ids: Vec<i64> = no_ask.stories().iter().map(|s| s.id).collect();
    assert_eq!(vec![32, 34], ids);
}
