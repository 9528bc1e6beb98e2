//! Data model: stories, the filter enumeration, page modifiers and themes.

use vstd::prelude::*;
use vstd::string::StringExecFns;

verus! {

/// Identifier a story carries from the external source.
pub type StoryId = i64;

/// Supported filters. The enumeration is kept sorted by filter name
/// (`amfg` < `askhn` < `bignews` < `showhn`) through [`kind_rank`], which
/// keeps page names and stored filter lists deterministic.
#[derive(Copy, Clone, Debug, PartialEq, Eq, Hash, Structural)]
pub enum FilterKind {
    AskHn,
    ShowHn,
    LargeNewspaper,
    BigTech,
}

/// Position of a filter in the name-sorted enumeration of all filters.
pub open spec fn kind_rank(k: FilterKind) -> int {
    match k {
        FilterKind::BigTech => 0,
        FilterKind::AskHn => 1,
        FilterKind::LargeNewspaper => 2,
        FilterKind::ShowHn => 3,
    }
}

/// Short name of a filter, used both as a storage column key and as a
/// display token inside page names.
pub open spec fn kind_name(k: FilterKind) -> Seq<char> {
    match k {
        FilterKind::AskHn => "askhn"@,
        FilterKind::ShowHn => "showhn"@,
        FilterKind::LargeNewspaper => "bignews"@,
        FilterKind::BigTech => "amfg"@,
    }
}

/// A story submission: either a link (`Url`) or inline text (`Text`),
/// never both.
#[derive(Debug)]
pub enum StoryKind {
    Url(String),
    Text(String),
}

/// A story as fetched from the external source.
#[derive(Debug)]
pub struct Story {
    pub id: StoryId,
    pub title: String,
    /// Optional url to an archived snapshot of the submission.
    pub archive_url: Option<String>,
    pub kind: StoryKind,
}

/// A story id together with the filters that flagged the story.
pub type StoryFilters = (StoryId, Vec<FilterKind>);

/// A story as resolved from the store, together with the set of filters
/// that flagged it.
#[derive(Debug)]
pub struct StoryWithFilters {
    pub id: StoryId,
    pub title: String,
    pub url: String,
    pub archive_url: Option<String>,
    pub filters: Vec<FilterKind>,
}

/// Mathematical model of a [`StoryWithFilters`] value.
pub struct StoryData {
    pub id: StoryId,
    pub title: Seq<char>,
    pub url: Seq<char>,
    pub archive_url: Option<Seq<char>>,
    pub filters: Seq<FilterKind>,
}

impl View for StoryWithFilters {
    type V = StoryData;

    open spec fn view(&self) -> StoryData {
        StoryData {
            id: self.id,
            title: self.title@,
            url: self.url@,
            archive_url: match self.archive_url {
                Option::Some(u) => Option::Some(u@),
                Option::None => Option::None,
            },
            filters: self.filters@,
        }
    }
}

impl Clone for StoryWithFilters {
    fn clone(&self) -> (r: Self)
        ensures
            r@ == self@,
    {
        let r = StoryWithFilters {
            id: self.id,
            title: self.title.clone(),
            url: self.url.clone(),
            archive_url: match &self.archive_url {
                Option::Some(u) => Option::Some(u.clone()),
                Option::None => Option::None,
            },
            filters: self.filters.clone(),
        };
        proof {
            assert(r.filters@ =~= self.filters@);
            assert(r@ =~= self@);
        }
        r
    }
}

/// One inclusion (`With`) or exclusion (`Without`) constraint of a page
/// definition.
#[derive(Copy, Clone, Debug, PartialEq, Eq, Structural)]
pub enum Modifier {
    With(FilterKind),
    Without(FilterKind),
}

/// The filter a modifier constrains, whichever way around.
pub open spec fn modifier_kind(m: Modifier) -> FilterKind {
    match m {
        Modifier::With(f) => f,
        Modifier::Without(f) => f,
    }
}

/// Position of a modifier in the name-sorted order of modifiers; ties
/// between `With` and `Without` over the same filter are not broken.
pub open spec fn modifier_rank(m: Modifier) -> int {
    kind_rank(modifier_kind(m))
}

impl Modifier {
    /// The filter this modifier constrains, whichever way around.
    pub fn inner_filter(&self) -> (r: FilterKind)
        ensures
            r == modifier_kind(*self),
    {
        match self {
            Modifier::With(f) => *f,
            Modifier::Without(f) => *f,
        }
    }
}

/// Presentation variant a page is rendered with.
#[derive(Copy, Clone, Debug)]
pub enum Theme {
    Dark,
    Light,
}

/// Object-store path of a page rendered with a given theme: the dark
/// theme is the default and keeps the bare object name, the light theme
/// is stored under a `light/` prefix.
pub open spec fn spec_object_path(t: Theme, object_name: Seq<char>) -> Seq<char> {
    match t {
        Theme::Dark => object_name,
        Theme::Light => "light/"@ + object_name,
    }
}

impl Theme {
    /// Given an object name, returns the path where the object should be
    /// stored.
    pub fn object_path(&self, object_name: &str) -> (r: String)
        ensures
            r@ == spec_object_path(*self, object_name@),
    {
        match self {
            Theme::Dark => object_name.to_owned(),
            Theme::Light => {
                let mut p = String::new();
                p.append("light/");
                p.append(object_name);
                p
            },
        }
    }

    pub fn as_str(&self) -> (r: &'static str)
        ensures
            (*self is Dark) ==> r@ == "dark"@,
            (*self is Light) ==> r@ == "light"@,
    {
        match self {
            Theme::Dark => "dark",
            Theme::Light => "light",
        }
    }
}

} // verus!
