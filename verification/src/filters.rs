//! The content filters: named, pure predicates over a story, and the
//! classifier that applies every registered filter to every story.

use vstd::prelude::*;

use crate::models::{kind_name, FilterKind, Story, StoryFilters, StoryKind};
use crate::seqs::lemma_filter_push;
use crate::text::{contains_sub, starts_with, str_contains, str_starts_with};

verus! {

/// Whether a regular expression pattern matches somewhere inside a text.
/// The match result is a function of the pattern and the text alone.
pub uninterp spec fn regex_match(pattern: Seq<char>, text: Seq<char>) -> bool;

/// Relies on regex::Regex::new and regex::Regex::is_match: compiling a
/// pattern and searching a haystack with it depends only on the pattern
/// and the haystack. A pattern that does not compile matches nothing.
#[verifier::external_body]
fn regex_is_match(pattern: &str, text: &str) -> (r: bool)
    ensures
        r == regex_match(pattern@, text@),
{
    match regex::Regex::new(pattern) {
        Ok(re) => re.is_match(text),
        Err(_) => false,
    }
}

/// Websites of large newspapers, as an unanchored regular expression over
/// submission urls.
pub open spec fn newspaper_pattern() -> Seq<char> {
    "https?://(?:www\\.)?(?:bbc\\.co\\.uk|bbc\\.com|bloomberg\\.com|cnbc\\.com|forbes\\.com|latimes\\.com|nytimes\\.com|spectator\\.co\\.uk|theguardian\\.com|thehill\\.com|vice\\.com|wsj\\.com)"@
}

/// The newspaper websites an earlier, smaller revision of the registry
/// recognised; kept as its own filter group.
pub open spec fn major_newspaper_pattern() -> Seq<char> {
    "https?://(?:www\\.)?(?:bbc\\.com|wsj\\.com|bloomberg\\.com|vice\\.com|theguardian\\.com|cnbc\\.com|forbes\\.com)"@
}

/// Whether the title flags the story as mentioning big tech.
pub open spec fn spec_mentions_big_tech(title: Seq<char>) -> bool {
    contains_sub(title, "Apple"@) || contains_sub(title, "Microsoft"@) || contains_sub(
        title,
        "Facebook"@,
    ) || contains_sub(title, "Google"@)
}

/// Whether a story is flagged by the given filter.
pub open spec fn spec_flagged(k: FilterKind, story: &Story) -> bool {
    match k {
        FilterKind::AskHn => starts_with(story.title@, "Ask HN"@),
        FilterKind::ShowHn => starts_with(story.title@, "Show HN"@),
        FilterKind::LargeNewspaper => match story.kind {
            StoryKind::Url(url) => regex_match(newspaper_pattern(), url@),
            StoryKind::Text(_) => false,
        },
        FilterKind::BigTech => spec_mentions_big_tech(story.title@),
    }
}

/// A named, pure predicate over a story.
pub trait Filter {
    /// What the filter's flag decision is, as a predicate.
    spec fn spec_flag(&self, story: &Story) -> bool;

    /// The filter's name, as it appears in page names and storage columns.
    spec fn spec_name(&self) -> Seq<char>;

    /// Name of the filter group.
    fn name(&self) -> (r: &'static str)
        ensures
            r@ == self.spec_name(),
    ;

    /// Does the filter flag the given story?
    fn should_flag(&self, story: &Story) -> (r: bool)
        ensures
            r == self.spec_flag(story),
    ;

    /// Does the filter group apply to the given story? The same decision
    /// as [`Filter::should_flag`], under the name an earlier revision of
    /// the registry used.
    fn applies(&self, story: &Story) -> (r: bool)
        ensures
            r == self.spec_flag(story),
    ;
}

/// Flags stories whose title marks them as a question to the community.
pub struct AskHn;

/// Flags stories whose title marks them as a show-and-tell.
pub struct ShowHn;

/// Flags link submissions that point at a large newspaper's website.
pub struct LargeNewspaper;

/// Flags stories whose title mentions one of the big tech companies.
pub struct BigTech;

/// Flags link submissions that point at a major newspaper's website; an
/// earlier revision of [`LargeNewspaper`] with a smaller website list.
pub struct FromMajorNewspaper;

/// Flags stories whose title mentions one of the big tech companies; the
/// name an earlier revision of the registry used for [`BigTech`].
pub struct MentionsBigTech;

impl Filter for AskHn {
    open spec fn spec_flag(&self, story: &Story) -> bool {
        spec_flagged(FilterKind::AskHn, story)
    }

    open spec fn spec_name(&self) -> Seq<char> {
        kind_name(FilterKind::AskHn)
    }

    fn name(&self) -> (r: &'static str) {
        "askhn"
    }

    fn should_flag(&self, story: &Story) -> (r: bool) {
        str_starts_with(story.title.as_str(), "Ask HN")
    }

    fn applies(&self, story: &Story) -> (r: bool) {
        self.should_flag(story)
    }
}

impl Filter for ShowHn {
    open spec fn spec_flag(&self, story: &Story) -> bool {
        spec_flagged(FilterKind::ShowHn, story)
    }

    open spec fn spec_name(&self) -> Seq<char> {
        kind_name(FilterKind::ShowHn)
    }

    fn name(&self) -> (r: &'static str) {
        "showhn"
    }

    fn should_flag(&self, story: &Story) -> (r: bool) {
        str_starts_with(story.title.as_str(), "Show HN")
    }

    fn applies(&self, story: &Story) -> (r: bool) {
        self.should_flag(story)
    }
}

impl Filter for LargeNewspaper {
    open spec fn spec_flag(&self, story: &Story) -> bool {
        spec_flagged(FilterKind::LargeNewspaper, story)
    }

    open spec fn spec_name(&self) -> Seq<char> {
        kind_name(FilterKind::LargeNewspaper)
    }

    fn name(&self) -> (r: &'static str) {
        "bignews"
    }

    fn should_flag(&self, story: &Story) -> (r: bool) {
        match &story.kind {
            StoryKind::Url(url) => regex_is_match(
                "https?://(?:www\\.)?(?:bbc\\.co\\.uk|bbc\\.com|bloomberg\\.com|cnbc\\.com|forbes\\.com|latimes\\.com|nytimes\\.com|spectator\\.co\\.uk|theguardian\\.com|thehill\\.com|vice\\.com|wsj\\.com)",
                url.as_str(),
            ),
            StoryKind::Text(_) => false,
        }
    }

    fn applies(&self, story: &Story) -> (r: bool) {
        self.should_flag(story)
    }
}

impl Filter for BigTech {
    open spec fn spec_flag(&self, story: &Story) -> bool {
        spec_flagged(FilterKind::BigTech, story)
    }

    open spec fn spec_name(&self) -> Seq<char> {
        kind_name(FilterKind::BigTech)
    }

    fn name(&self) -> (r: &'static str) {
        "amfg"
    }

    fn should_flag(&self, story: &Story) -> (r: bool) {
        let t = story.title.as_str();
        str_contains(t, "Apple") || str_contains(t, "Microsoft") || str_contains(t, "Facebook")
            || str_contains(t, "Google")
    }

    fn applies(&self, story: &Story) -> (r: bool) {
        self.should_flag(story)
    }
}

impl Filter for FromMajorNewspaper {
    open spec fn spec_flag(&self, story: &Story) -> bool {
        match story.kind {
            StoryKind::Url(url) => regex_match(major_newspaper_pattern(), url@),
            StoryKind::Text(_) => false,
        }
    }

    open spec fn spec_name(&self) -> Seq<char> {
        "bignews"@
    }

    fn name(&self) -> (r: &'static str) {
        "bignews"
    }

    fn should_flag(&self, story: &Story) -> (r: bool) {
        match &story.kind {
            StoryKind::Url(url) => regex_is_match(
                "https?://(?:www\\.)?(?:bbc\\.com|wsj\\.com|bloomberg\\.com|vice\\.com|theguardian\\.com|cnbc\\.com|forbes\\.com)",
                url.as_str(),
            ),
            StoryKind::Text(_) => false,
        }
    }

    fn applies(&self, story: &Story) -> (r: bool) {
        self.should_flag(story)
    }
}

impl Filter for MentionsBigTech {
    open spec fn spec_flag(&self, story: &Story) -> bool {
        spec_mentions_big_tech(story.title@)
    }

    open spec fn spec_name(&self) -> Seq<char> {
        "amfg"@
    }

    fn name(&self) -> (r: &'static str) {
        "amfg"
    }

    fn should_flag(&self, story: &Story) -> (r: bool) {
        let t = story.title.as_str();
        str_contains(t, "Apple") || str_contains(t, "Microsoft") || str_contains(t, "Facebook")
            || str_contains(t, "Google")
    }

    fn applies(&self, story: &Story) -> (r: bool) {
        self.should_flag(story)
    }
}

impl Filter for FilterKind {
    open spec fn spec_flag(&self, story: &Story) -> bool {
        spec_flagged(*self, story)
    }

    open spec fn spec_name(&self) -> Seq<char> {
        kind_name(*self)
    }

    fn name(&self) -> (r: &'static str) {
        match self {
            FilterKind::AskHn => AskHn.name(),
            FilterKind::ShowHn => ShowHn.name(),
            FilterKind::LargeNewspaper => LargeNewspaper.name(),
            FilterKind::BigTech => BigTech.name(),
        }
    }

    fn should_flag(&self, story: &Story) -> (r: bool) {
        match self {
            FilterKind::AskHn => AskHn.should_flag(story),
            FilterKind::ShowHn => ShowHn.should_flag(story),
            FilterKind::LargeNewspaper => LargeNewspaper.should_flag(story),
            FilterKind::BigTech => BigTech.should_flag(story),
        }
    }

    fn applies(&self, story: &Story) -> (r: bool) {
        self.should_flag(story)
    }
}

/// Every registered filter, in the name-sorted enumeration order that
/// storage and page naming rely on.
pub open spec fn all_kinds() -> Seq<FilterKind> {
    seq![FilterKind::BigTech, FilterKind::AskHn, FilterKind::LargeNewspaper, FilterKind::ShowHn]
}

/// Holds of a filter that flags the given story.
pub open spec fn flag_pred(story: &Story) -> spec_fn(FilterKind) -> bool {
    |k: FilterKind| spec_flagged(k, story)
}

/// The filters that flag a story, in the enumeration order of the registry.
pub open spec fn spec_flagged_kinds(story: &Story) -> Seq<FilterKind> {
    all_kinds().filter(flag_pred(story))
}

/// Applies every registered filter to one story; the result lists exactly
/// the filters that flagged it, in registry order.
pub fn flagged_kinds(story: &Story) -> (r: Vec<FilterKind>)
    ensures
        r@ == spec_flagged_kinds(story),
{
    let mut r: Vec<FilterKind> = Vec::new();
    proof {
        reveal(Seq::filter);
        assert(all_kinds() =~= Seq::<FilterKind>::empty().push(FilterKind::BigTech).push(
            FilterKind::AskHn,
        ).push(FilterKind::LargeNewspaper).push(FilterKind::ShowHn));
        lemma_filter_push(
            Seq::<FilterKind>::empty().push(FilterKind::BigTech).push(FilterKind::AskHn).push(
                FilterKind::LargeNewspaper,
            ),
            flag_pred(story),
            FilterKind::ShowHn,
        );
        lemma_filter_push(
            Seq::<FilterKind>::empty().push(FilterKind::BigTech).push(FilterKind::AskHn),
            flag_pred(story),
            FilterKind::LargeNewspaper,
        );
        lemma_filter_push(
            Seq::<FilterKind>::empty().push(FilterKind::BigTech),
            flag_pred(story),
            FilterKind::AskHn,
        );
        lemma_filter_push(
            Seq::<FilterKind>::empty(),
            flag_pred(story),
            FilterKind::BigTech,
        );
    }
    if BigTech.should_flag(story) {
        r.push(FilterKind::BigTech);
    }
    if AskHn.should_flag(story) {
        r.push(FilterKind::AskHn);
    }
    if LargeNewspaper.should_flag(story) {
        r.push(FilterKind::LargeNewspaper);
    }
    if ShowHn.should_flag(story) {
        r.push(FilterKind::ShowHn);
    }
    r
}

/// The filter list encoded by the store's four flag columns, in the
/// column order of the store.
pub open spec fn spec_kinds_from_flags(
    amfg: bool,
    askhn: bool,
    showhn: bool,
    bignews: bool,
) -> Seq<FilterKind> {
    (if amfg {
        seq![FilterKind::BigTech]
    } else {
        Seq::empty()
    }) + (if askhn {
        seq![FilterKind::AskHn]
    } else {
        Seq::empty()
    }) + (if showhn {
        seq![FilterKind::ShowHn]
    } else {
        Seq::empty()
    }) + (if bignews {
        seq![FilterKind::LargeNewspaper]
    } else {
        Seq::empty()
    })
}

/// Decodes the store's per-filter flag columns back into the list of
/// filters that flagged a story: exactly the filters whose flag is set.
pub fn kinds_from_flags(amfg: bool, askhn: bool, showhn: bool, bignews: bool) -> (r: Vec<
    FilterKind,
>)
    ensures
        r@ == spec_kinds_from_flags(amfg, askhn, showhn, bignews),
{
    let mut r: Vec<FilterKind> = Vec::new();
    if amfg {
        r.push(FilterKind::BigTech);
    }
    if askhn {
        r.push(FilterKind::AskHn);
    }
    if showhn {
        r.push(FilterKind::ShowHn);
    }
    if bignews {
        r.push(FilterKind::LargeNewspaper);
    }
    proof {
        assert(r@ =~= spec_kinds_from_flags(amfg, askhn, showhn, bignews));
    }
    r
}

/// Classifies every story: one output entry per input story, in input
/// order, pairing the story id with the filters that flagged the story.
pub fn for_stories(stories: &Vec<Story>) -> (r: Vec<StoryFilters>)
    ensures
        r@.len() == stories@.len(),
        forall|i: int|
            0 <= i < stories@.len() ==> (#[trigger] r@[i]).0 == stories@[i].id && r@[i].1@
                == spec_flagged_kinds(&stories@[i]),
{
    let mut r: Vec<StoryFilters> = Vec::new();
    let mut i: usize = 0;
    while i < stories.len()
        invariant
            0 <= i <= stories@.len(),
            r@.len() == i,
            forall|j: int|
                0 <= j < i ==> (#[trigger] r@[j]).0 == stories@[j].id && r@[j].1@
                    == spec_flagged_kinds(&stories@[j]),
        decreases stories@.len() - i,
    {
        let story = &stories[i];
        let kinds = flagged_kinds(story);
        r.push((story.id, kinds));
        i = i + 1;
    }
    r
}

} // verus!
