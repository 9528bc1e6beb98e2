//! Pages: named, capacity-bounded collections of stories selected by
//! inclusion/exclusion modifiers, and the populator that streams ranked
//! stories into every page of the fixed catalogue.

use vstd::prelude::*;

use crate::filters::Filter;
use crate::models::{
    kind_name, modifier_rank, FilterKind, Modifier, StoryData, StoryWithFilters,
};
use crate::seqs::{
    lemma_filter_push, lemma_filter_subsequence, lemma_subsequence_trans, lemma_take_of_add,
    lemma_take_subsequence, subsequence_of,
};

verus! {

// ---------------------------------------------------------------------------
// Sorting modifiers by filter name
// ---------------------------------------------------------------------------
/// Holds of a modifier whose filter sits at position `r` of the name-sorted
/// filter enumeration.
pub open spec fn rank_pred(r: int) -> spec_fn(Modifier) -> bool {
    |m: Modifier| modifier_rank(m) == r
}

/// The modifiers of rank `r`, in input order.
pub open spec fn rank_filter(s: Seq<Modifier>, r: int) -> Seq<Modifier> {
    s.filter(rank_pred(r))
}

/// The modifiers stably sorted by the name of their filter: the ranks are
/// gathered in ascending order, ties keeping input order.
pub open spec fn sorted_mods(s: Seq<Modifier>) -> Seq<Modifier> {
    rank_filter(s, 0) + rank_filter(s, 1) + rank_filter(s, 2) + rank_filter(s, 3)
}

/// Sorting keeps exactly the input modifiers: every modifier has one of
/// the four ranks, so the rank buckets partition the input.
pub proof fn lemma_sorted_mods_len(s: Seq<Modifier>)
    ensures
        sorted_mods(s).len() == s.len(),
    decreases s.len(),
{
    reveal(Seq::filter);
    if s.len() > 0 {
        lemma_sorted_mods_len(s.drop_last());
        assert(0 <= modifier_rank(s.last()) <= 3);
    }
}

/// The rank of this modifier's filter in the name-sorted enumeration.
fn rank_of(m: &Modifier) -> (r: u8)
    ensures
        r as int == modifier_rank(*m),
{
    let f = m.inner_filter();
    match f {
        FilterKind::BigTech => 0,
        FilterKind::AskHn => 1,
        FilterKind::LargeNewspaper => 2,
        FilterKind::ShowHn => 3,
    }
}

/// Appends to `out` the modifiers of rank `r`, keeping their input order.
fn append_rank(out: &mut Vec<Modifier>, mods: &Vec<Modifier>, r: u8)
    ensures
        final(out)@ == old(out)@ + rank_filter(mods@, r as int),
{
    let ghost base: Seq<Modifier> = out@;
    let mut j: usize = 0;
    proof {
        reveal(Seq::filter);
        assert(mods@.take(0) =~= Seq::<Modifier>::empty());
        assert(out@ =~= base + rank_filter(mods@.take(0), r as int));
    }
    while j < mods.len()
        invariant
            0 <= j <= mods@.len(),
            out@ == base + rank_filter(mods@.take(j as int), r as int),
        decreases mods@.len() - j,
    {
        let m = mods[j];
        proof {
            assert(mods@.take(j + 1) =~= mods@.take(j as int).push(m));
            lemma_filter_push(mods@.take(j as int), rank_pred(r as int), m);
        }
        if rank_of(&m) == r {
            out.push(m);
            proof {
                assert(out@ =~= base + rank_filter(mods@.take(j + 1), r as int));
            }
        }
        j = j + 1;
    }
    proof {
        assert(mods@.take(mods@.len() as int) =~= mods@);
    }
}

/// Stably sorts modifiers by the name of their filter.
fn sort_modifiers(mods: &Vec<Modifier>) -> (out: Vec<Modifier>)
    ensures
        out@ == sorted_mods(mods@),
{
    let mut out: Vec<Modifier> = Vec::new();
    append_rank(&mut out, mods, 0);
    append_rank(&mut out, mods, 1);
    append_rank(&mut out, mods, 2);
    append_rank(&mut out, mods, 3);
    proof {
        assert(out@ =~= sorted_mods(mods@));
    }
    out
}

// ---------------------------------------------------------------------------
// Page names
// ---------------------------------------------------------------------------
/// Display token of one modifier: the filter name behind `+` for an
/// inclusion and `-` for an exclusion.
pub open spec fn mod_token(m: Modifier) -> Seq<char> {
    match m {
        Modifier::With(f) => "+"@ + kind_name(f),
        Modifier::Without(f) => "-"@ + kind_name(f),
    }
}

/// Concatenation of the modifier tokens, in sequence order.
pub open spec fn concat_tokens(s: Seq<Modifier>) -> Seq<char>
    decreases s.len(),
{
    if s.len() == 0 {
        Seq::empty()
    } else {
        concat_tokens(s.drop_last()) + mod_token(s.last())
    }
}

/// Name of a page: the sentinel token for an empty modifier set, otherwise
/// the tokens of the modifiers sorted by filter name, with no separator.
/// Two pages with the same modifier set get the same name, whatever order
/// the modifiers were listed in.
pub open spec fn page_name(mods: Seq<Modifier>) -> Seq<char> {
    if mods.len() == 0 {
        "+all"@
    } else {
        concat_tokens(sorted_mods(mods))
    }
}

/// No two modifiers in the list constrain filters of the same name.
pub open spec fn distinct_ranks(s: Seq<Modifier>) -> bool {
    forall|i: int, j: int|
        0 <= i < j < s.len() ==> modifier_rank(#[trigger] s[i]) != modifier_rank(#[trigger] s[j])
}

/// With pairwise distinct filters, at most one modifier has a given rank.
proof fn lemma_rank_filter_short(s: Seq<Modifier>, r: int)
    requires
        distinct_ranks(s),
    ensures
        rank_filter(s, r).len() <= 1,
    decreases s.len(),
{
    reveal(Seq::filter);
    if s.len() > 0 {
        lemma_rank_filter_short(s.drop_last(), r);
        if rank_pred(r)(s.last()) {
            let fd = rank_filter(s.drop_last(), r);
            if fd.len() > 0 {
                assert(rank_pred(r)(fd[0])) by {
                    broadcast use vstd::seq_lib::group_filter_ensures;

                }
                assert(fd.contains(fd[0]));
                crate::seqs::lemma_filter_element_of(s.drop_last(), rank_pred(r), fd[0]);
                let i = choose|i: int| 0 <= i < s.drop_last().len() && s.drop_last()[i] == fd[0];
                assert(modifier_rank(s[i]) == modifier_rank(s[s.len() - 1]));
                assert(false);
            }
        }
    }
}

/// Two modifier lists with the same members, each over pairwise distinct
/// filters, have the same modifiers of every rank.
proof fn lemma_rank_filter_same(s1: Seq<Modifier>, s2: Seq<Modifier>, r: int)
    requires
        distinct_ranks(s1),
        distinct_ranks(s2),
        forall|m: Modifier| s1.contains(m) <==> s2.contains(m),
    ensures
        rank_filter(s1, r) == rank_filter(s2, r),
{
    broadcast use vstd::seq_lib::group_filter_ensures;

    lemma_rank_filter_short(s1, r);
    lemma_rank_filter_short(s2, r);
    let f1 = rank_filter(s1, r);
    let f2 = rank_filter(s2, r);
    if f1.len() > 0 {
        let x = f1[0];
        assert(f1.contains(x));
        assert(rank_pred(r)(x));
        crate::seqs::lemma_filter_element_of(s1, rank_pred(r), x);
        assert(s2.contains(x));
        let i = choose|i: int| 0 <= i < s2.len() && s2[i] == x;
        assert(f2.contains(s2[i]));
        assert(f2[0] == x);
    }
    if f2.len() > 0 {
        let x = f2[0];
        assert(f2.contains(x));
        assert(rank_pred(r)(x));
        crate::seqs::lemma_filter_element_of(s2, rank_pred(r), x);
        assert(s1.contains(x));
        let i = choose|i: int| 0 <= i < s1.len() && s1[i] == x;
        assert(f1.contains(s1[i]));
        assert(f1[0] == x);
    }
    assert(f1 =~= f2);
}

/// A page's name is a pure, order-independent function of its modifier
/// set: two modifier lists over the same set of modifiers, each listing
/// pairwise distinct filters, derive the same page name.
pub proof fn lemma_page_name_order_independent(s1: Seq<Modifier>, s2: Seq<Modifier>)
    requires
        distinct_ranks(s1),
        distinct_ranks(s2),
        forall|m: Modifier| s1.contains(m) <==> s2.contains(m),
    ensures
        page_name(s1) == page_name(s2),
{
    if s1.len() == 0 {
        if s2.len() > 0 {
            assert(s2.contains(s2[0]));
            assert(s1.contains(s2[0]));
        }
    } else {
        assert(s2.contains(s1[0]));
        assert(s2.len() > 0);
        lemma_rank_filter_same(s1, s2, 0);
        lemma_rank_filter_same(s1, s2, 1);
        lemma_rank_filter_same(s1, s2, 2);
        lemma_rank_filter_same(s1, s2, 3);
        assert(sorted_mods(s1) == sorted_mods(s2));
    }
}

// ---------------------------------------------------------------------------
// Acceptance
// ---------------------------------------------------------------------------
/// Whether this modifier vetoes a story flagged by the given filters.
pub open spec fn modifier_excludes(m: Modifier, fs: Seq<FilterKind>) -> bool {
    match m {
        Modifier::Without(f) => fs.contains(f),
        Modifier::With(_) => false,
    }
}

/// Whether this modifier admits a story flagged by the given filters.
pub open spec fn modifier_includes(m: Modifier, fs: Seq<FilterKind>) -> bool {
    match m {
        Modifier::With(f) => fs.contains(f),
        Modifier::Without(_) => false,
    }
}

/// Some `Without` modifier's filter flagged the story: every exclusion
/// acts as an independent veto.
pub open spec fn excluded(mods: Seq<Modifier>, fs: Seq<FilterKind>) -> bool {
    exists|i: int| 0 <= i < mods.len() && modifier_excludes(#[trigger] mods[i], fs)
}

/// The page has at least one `With` modifier.
pub open spec fn has_inclusion(mods: Seq<Modifier>) -> bool {
    exists|i: int| 0 <= i < mods.len() && (#[trigger] mods[i]) is With
}

/// Some `With` modifier's filter flagged the story: inclusions are
/// disjunctive.
pub open spec fn included(mods: Seq<Modifier>, fs: Seq<FilterKind>) -> bool {
    exists|i: int| 0 <= i < mods.len() && modifier_includes(#[trigger] mods[i], fs)
}

/// A story flagged by the filters `fs` passes a page with modifiers
/// `mods` iff it survives every exclusion and, where any inclusion is
/// present, matches at least one of them.
pub open spec fn accepts(mods: Seq<Modifier>, fs: Seq<FilterKind>) -> bool {
    !excluded(mods, fs) && (!has_inclusion(mods) || included(mods, fs))
}

/// An empty modifier set accepts every story.
pub proof fn lemma_empty_modifiers_accept_all(fs: Seq<FilterKind>)
    ensures
        accepts(Seq::<Modifier>::empty(), fs),
{
}

/// Exclusion vetoes regardless of inclusion: a story flagged by the filter
/// of any `Without` modifier is rejected, even if it also matches a `With`
/// modifier of the same page.
pub proof fn lemma_exclusion_vetoes(mods: Seq<Modifier>, fs: Seq<FilterKind>, f: FilterKind)
    requires
        mods.contains(Modifier::Without(f)),
        fs.contains(f),
    ensures
        !accepts(mods, fs),
{
    let i = choose|i: int| 0 <= i < mods.len() && mods[i] == Modifier::Without(f);
    assert(modifier_excludes(mods[i], fs));
}

/// Sorting the modifiers keeps exactly the same members.
pub proof fn lemma_sorted_mods_membership(s: Seq<Modifier>, m: Modifier)
    ensures
        sorted_mods(s).contains(m) <==> s.contains(m),
{
    broadcast use vstd::seq_lib::group_filter_ensures;

    if sorted_mods(s).contains(m) {
        let k = choose|k: int| 0 <= k < sorted_mods(s).len() && sorted_mods(s)[k] == m;
        let f0 = rank_filter(s, 0);
        let f1 = rank_filter(s, 1);
        let f2 = rank_filter(s, 2);
        let f3 = rank_filter(s, 3);
        if k < f0.len() {
            assert(f0.contains(m)) by { assert(f0[k] == m); }
            crate::seqs::lemma_filter_element_of(s, rank_pred(0), m);
        } else if k < f0.len() + f1.len() {
            assert(f1.contains(m)) by { assert(f1[k - f0.len()] == m); }
            crate::seqs::lemma_filter_element_of(s, rank_pred(1), m);
        } else if k < f0.len() + f1.len() + f2.len() {
            assert(f2.contains(m)) by { assert(f2[k - f0.len() - f1.len()] == m); }
            crate::seqs::lemma_filter_element_of(s, rank_pred(2), m);
        } else {
            assert(f3.contains(m)) by { assert(f3[k - f0.len() - f1.len() - f2.len()] == m); }
            crate::seqs::lemma_filter_element_of(s, rank_pred(3), m);
        }
    }
    if s.contains(m) {
        let i = choose|i: int| 0 <= i < s.len() && s[i] == m;
        let r = modifier_rank(m);
        assert(rank_pred(r)(s[i]));
        assert(rank_filter(s, r).contains(m));
        let f = rank_filter(s, r);
        let k = choose|k: int| 0 <= k < f.len() && f[k] == m;
        let f0 = rank_filter(s, 0);
        let f1 = rank_filter(s, 1);
        let f2 = rank_filter(s, 2);
        let f3 = rank_filter(s, 3);
        if r == 0 {
            assert(sorted_mods(s)[k] == m);
        } else if r == 1 {
            assert(sorted_mods(s)[f0.len() + k] == m);
        } else if r == 2 {
            assert(sorted_mods(s)[f0.len() + f1.len() + k] == m);
        } else {
            assert(sorted_mods(s)[f0.len() + f1.len() + f2.len() + k] == m);
        }
    }
}

/// A page accepts a story under its sorted modifier list exactly when it
/// would under the modifier list it was defined with.
pub proof fn lemma_accepts_sorted(mods: Seq<Modifier>, fs: Seq<FilterKind>)
    ensures
        accepts(sorted_mods(mods), fs) == accepts(mods, fs),
{
    assert forall|m: Modifier| sorted_mods(mods).contains(m) <==> mods.contains(m) by {
        lemma_sorted_mods_membership(mods, m);
    }
    lemma_accepts_membership(sorted_mods(mods), mods, fs);
}

/// Acceptance depends only on which modifiers are present, not on their
/// order or multiplicity.
pub proof fn lemma_accepts_membership(
    mods1: Seq<Modifier>,
    mods2: Seq<Modifier>,
    fs: Seq<FilterKind>,
)
    requires
        forall|m: Modifier| mods1.contains(m) <==> mods2.contains(m),
    ensures
        accepts(mods1, fs) == accepts(mods2, fs),
{
    assert(excluded(mods1, fs) == excluded(mods2, fs)) by {
        if excluded(mods1, fs) {
            let i = choose|i: int| 0 <= i < mods1.len() && modifier_excludes(mods1[i], fs);
            assert(mods2.contains(mods1[i]));
            let j = choose|j: int| 0 <= j < mods2.len() && mods2[j] == mods1[i];
            assert(modifier_excludes(mods2[j], fs));
        }
        if excluded(mods2, fs) {
            let j = choose|j: int| 0 <= j < mods2.len() && modifier_excludes(mods2[j], fs);
            assert(mods1.contains(mods2[j]));
            let i = choose|i: int| 0 <= i < mods1.len() && mods1[i] == mods2[j];
            assert(modifier_excludes(mods1[i], fs));
        }
    }
    assert(has_inclusion(mods1) == has_inclusion(mods2)) by {
        if has_inclusion(mods1) {
            let i = choose|i: int| 0 <= i < mods1.len() && mods1[i] is With;
            assert(mods2.contains(mods1[i]));
            let j = choose|j: int| 0 <= j < mods2.len() && mods2[j] == mods1[i];
            assert(mods2[j] is With);
        }
        if has_inclusion(mods2) {
            let j = choose|j: int| 0 <= j < mods2.len() && mods2[j] is With;
            assert(mods1.contains(mods2[j]));
            let i = choose|i: int| 0 <= i < mods1.len() && mods1[i] == mods2[j];
            assert(mods1[i] is With);
        }
    }
    assert(included(mods1, fs) == included(mods2, fs)) by {
        if included(mods1, fs) {
            let i = choose|i: int| 0 <= i < mods1.len() && modifier_includes(mods1[i], fs);
            assert(mods2.contains(mods1[i]));
            let j = choose|j: int| 0 <= j < mods2.len() && mods2[j] == mods1[i];
            assert(modifier_includes(mods2[j], fs));
        }
        if included(mods2, fs) {
            let j = choose|j: int| 0 <= j < mods2.len() && modifier_includes(mods2[j], fs);
            assert(mods1.contains(mods2[j]));
            let i = choose|i: int| 0 <= i < mods1.len() && mods1[i] == mods2[j];
            assert(modifier_includes(mods1[i], fs));
        }
    }
}

/// Whether a filter list contains the given filter.
pub fn contains_kind(fs: &Vec<FilterKind>, f: FilterKind) -> (b: bool)
    ensures
        b == fs@.contains(f),
{
    let mut i: usize = 0;
    while i < fs.len()
        invariant
            0 <= i <= fs@.len(),
            forall|m: int| 0 <= m < i ==> fs@[m] != f,
        decreases fs@.len() - i,
    {
        if fs[i] == f {
            assert(fs@[i as int] == f);
            return true;
        }
        i = i + 1;
    }
    false
}

// ---------------------------------------------------------------------------
// Page
// ---------------------------------------------------------------------------
/// A page of the front page catalogue: its modifiers (sorted by filter
/// name), its derived name, and the stories accepted so far in rank order.
#[derive(Debug)]
pub struct Page {
    pub modifiers: Vec<Modifier>,
    pub name: String,
    pub stories: Vec<StoryWithFilters>,
}

impl Page {
    /// The accepted stories, as their mathematical models, in rank order.
    pub open spec fn stories_view(&self) -> Seq<StoryData> {
        self.stories@.map_values(|s: StoryWithFilters| s@)
    }

    /// Creates an empty page from a modifier list. The page keeps the
    /// modifiers sorted by filter name and derives its name from them.
    pub fn new(modifiers: Vec<Modifier>) -> (p: Page)
        ensures
            p.modifiers@ == sorted_mods(modifiers@),
            p.name@ == page_name(modifiers@),
            p.stories@ == Seq::<StoryWithFilters>::empty(),
    {
        let sorted = sort_modifiers(&modifiers);
        let mut name = String::new();
        if modifiers.len() == 0 {
            name.append("+all");
            proof {
                assert(name@ =~= "+all"@);
            }
        } else {
            proof {
                lemma_sorted_mods_len(modifiers@);
            }
            let mut i: usize = 0;
            proof {
                assert(sorted@.take(0) =~= Seq::<Modifier>::empty());
            }
            while i < sorted.len()
                invariant
                    0 <= i <= sorted@.len(),
                    name@ == concat_tokens(sorted@.take(i as int)),
                decreases sorted@.len() - i,
            {
                let m = sorted[i];
                match m {
                    Modifier::With(f) => {
                        name.append("+");
                        name.append(f.name());
                    },
                    Modifier::Without(f) => {
                        name.append("-");
                        name.append(f.name());
                    },
                }
                proof {
                    assert(sorted@.take(i + 1).drop_last() =~= sorted@.take(i as int));
                    assert(sorted@.take(i + 1).last() == sorted@[i as int]);
                    assert(name@ =~= concat_tokens(sorted@.take(i as int)) + mod_token(
                        sorted@[i as int],
                    ));
                }
                i = i + 1;
            }
            proof {
                assert(sorted@.take(sorted@.len() as int) =~= sorted@);
            }
        }
        Page { modifiers: sorted, name, stories: Vec::new() }
    }

    /// The page over every story: no modifier constrains it, and its name
    /// is the fixed sentinel token. It accepts every story.
    pub fn all() -> (p: Page)
        ensures
            p.modifiers@ == sorted_mods(Seq::<Modifier>::empty()),
            p.name@ == "+all"@,
            p.stories@ == Seq::<StoryWithFilters>::empty(),
            forall|fs: Seq<FilterKind>| accepts(p.modifiers@, fs),
    {
        let p = Page::new(Vec::new());
        proof {
            reveal(Seq::filter);
            assert(p.modifiers@ =~= Seq::<Modifier>::empty());
        }
        p
    }

    pub fn ask_hn() -> (p: Page)
        ensures
            p.modifiers@ == sorted_mods(seq![Modifier::With(FilterKind::AskHn)]),
            p.name@ == page_name(seq![Modifier::With(FilterKind::AskHn)]),
            p.stories@ == Seq::<StoryWithFilters>::empty(),
    {
        let mut mods: Vec<Modifier> = Vec::new();
        mods.push(Modifier::With(FilterKind::AskHn));
        proof {
            assert(mods@ =~= seq![Modifier::With(FilterKind::AskHn)]);
        }
        Page::new(mods)
    }

    pub fn no_ask_hn() -> (p: Page)
        ensures
            p.modifiers@ == sorted_mods(seq![Modifier::Without(FilterKind::AskHn)]),
            p.name@ == page_name(seq![Modifier::Without(FilterKind::AskHn)]),
            p.stories@ == Seq::<StoryWithFilters>::empty(),
    {
        let mut mods: Vec<Modifier> = Vec::new();
        mods.push(Modifier::Without(FilterKind::AskHn));
        proof {
            assert(mods@ =~= seq![Modifier::Without(FilterKind::AskHn)]);
        }
        Page::new(mods)
    }

    pub fn show_hn() -> (p: Page)
        ensures
            p.modifiers@ == sorted_mods(seq![Modifier::With(FilterKind::ShowHn)]),
            p.name@ == page_name(seq![Modifier::With(FilterKind::ShowHn)]),
            p.stories@ == Seq::<StoryWithFilters>::empty(),
    {
        let mut mods: Vec<Modifier> = Vec::new();
        mods.push(Modifier::With(FilterKind::ShowHn));
        proof {
            assert(mods@ =~= seq![Modifier::With(FilterKind::ShowHn)]);
        }
        Page::new(mods)
    }

    pub fn no_show_hn() -> (p: Page)
        ensures
            p.modifiers@ == sorted_mods(seq![Modifier::Without(FilterKind::ShowHn)]),
            p.name@ == page_name(seq![Modifier::Without(FilterKind::ShowHn)]),
            p.stories@ == Seq::<StoryWithFilters>::empty(),
    {
        let mut mods: Vec<Modifier> = Vec::new();
        mods.push(Modifier::Without(FilterKind::ShowHn));
        proof {
            assert(mods@ =~= seq![Modifier::Without(FilterKind::ShowHn)]);
        }
        Page::new(mods)
    }

    pub fn bignews() -> (p: Page)
        ensures
            p.modifiers@ == sorted_mods(seq![Modifier::With(FilterKind::LargeNewspaper)]),
            p.name@ == page_name(seq![Modifier::With(FilterKind::LargeNewspaper)]),
            p.stories@ == Seq::<StoryWithFilters>::empty(),
    {
        let mut mods: Vec<Modifier> = Vec::new();
        mods.push(Modifier::With(FilterKind::LargeNewspaper));
        proof {
            assert(mods@ =~= seq![Modifier::With(FilterKind::LargeNewspaper)]);
        }
        Page::new(mods)
    }

    pub fn no_bignews() -> (p: Page)
        ensures
            p.modifiers@ == sorted_mods(seq![Modifier::Without(FilterKind::LargeNewspaper)]),
            p.name@ == page_name(seq![Modifier::Without(FilterKind::LargeNewspaper)]),
            p.stories@ == Seq::<StoryWithFilters>::empty(),
    {
        let mut mods: Vec<Modifier> = Vec::new();
        mods.push(Modifier::Without(FilterKind::LargeNewspaper));
        proof {
            assert(mods@ =~= seq![Modifier::Without(FilterKind::LargeNewspaper)]);
        }
        Page::new(mods)
    }

    pub fn bigtech() -> (p: Page)
        ensures
            p.modifiers@ == sorted_mods(seq![Modifier::With(FilterKind::BigTech)]),
            p.name@ == page_name(seq![Modifier::With(FilterKind::BigTech)]),
            p.stories@ == Seq::<StoryWithFilters>::empty(),
    {
        let mut mods: Vec<Modifier> = Vec::new();
        mods.push(Modifier::With(FilterKind::BigTech));
        proof {
            assert(mods@ =~= seq![Modifier::With(FilterKind::BigTech)]);
        }
        Page::new(mods)
    }

    pub fn no_bigtech() -> (p: Page)
        ensures
            p.modifiers@ == sorted_mods(seq![Modifier::Without(FilterKind::BigTech)]),
            p.name@ == page_name(seq![Modifier::Without(FilterKind::BigTech)]),
            p.stories@ == Seq::<StoryWithFilters>::empty(),
    {
        let mut mods: Vec<Modifier> = Vec::new();
        mods.push(Modifier::Without(FilterKind::BigTech));
        proof {
            assert(mods@ =~= seq![Modifier::Without(FilterKind::BigTech)]);
        }
        Page::new(mods)
    }

    pub fn no_bignews_no_bigtech() -> (p: Page)
        ensures
            p.modifiers@ == sorted_mods(
                seq![
                    Modifier::Without(FilterKind::LargeNewspaper),
                    Modifier::Without(FilterKind::BigTech),
                ],
            ),
            p.name@ == page_name(
                seq![
                    Modifier::Without(FilterKind::LargeNewspaper),
                    Modifier::Without(FilterKind::BigTech),
                ],
            ),
            p.stories@ == Seq::<StoryWithFilters>::empty(),
    {
        let mut mods: Vec<Modifier> = Vec::new();
        mods.push(Modifier::Without(FilterKind::LargeNewspaper));
        mods.push(Modifier::Without(FilterKind::BigTech));
        proof {
            assert(mods@ =~= seq![
                Modifier::Without(FilterKind::LargeNewspaper),
                Modifier::Without(FilterKind::BigTech),
            ]);
        }
        Page::new(mods)
    }

    pub fn ask_show_hn() -> (p: Page)
        ensures
            p.modifiers@ == sorted_mods(
                seq![Modifier::With(FilterKind::AskHn), Modifier::With(FilterKind::ShowHn)],
            ),
            p.name@ == page_name(
                seq![Modifier::With(FilterKind::AskHn), Modifier::With(FilterKind::ShowHn)],
            ),
            p.stories@ == Seq::<StoryWithFilters>::empty(),
    {
        let mut mods: Vec<Modifier> = Vec::new();
        mods.push(Modifier::With(FilterKind::AskHn));
        mods.push(Modifier::With(FilterKind::ShowHn));
        proof {
            assert(mods@ =~= seq![
                Modifier::With(FilterKind::AskHn),
                Modifier::With(FilterKind::ShowHn),
            ]);
        }
        Page::new(mods)
    }

    /// Returns the name of the page, under which the rendered page is
    /// published.
    pub fn name(&self) -> (r: &str)
        ensures
            r@ == self.name@,
    {
        self.name.as_str()
    }

    /// The accepted stories, in rank order.
    pub fn stories(&self) -> (r: &Vec<StoryWithFilters>)
        ensures
            r@ == self.stories@,
    {
        &self.stories
    }

    /// How many stories the page has accepted so far.
    pub fn len(&self) -> (n: usize)
        ensures
            n == self.stories@.len(),
    {
        self.stories.len()
    }

    /// If the story's filters pass this page's modifiers, appends it to
    /// the page; otherwise leaves the page unchanged.
    pub fn push(&mut self, story: StoryWithFilters)
        ensures
            final(self).modifiers == old(self).modifiers,
            final(self).name == old(self).name,
            accepts(old(self).modifiers@, story.filters@) ==> final(self).stories@ == old(
                self,
            ).stories@.push(story),
            !accepts(old(self).modifiers@, story.filters@) ==> final(self).stories@ == old(
                self,
            ).stories@,
    {
        let mut vetoed = false;
        let mut has_with = false;
        let mut matched = false;
        let mut i: usize = 0;
        while i < self.modifiers.len()
            invariant
                *self == *old(self),
                0 <= i <= self.modifiers@.len(),
                vetoed == excluded(self.modifiers@.take(i as int), story.filters@),
                has_with == has_inclusion(self.modifiers@.take(i as int)),
                matched == included(self.modifiers@.take(i as int), story.filters@),
            decreases self.modifiers@.len() - i,
        {
            let m = self.modifiers[i];
            proof {
                assert(self.modifiers@.take(i + 1).drop_last() =~= self.modifiers@.take(i as int));
                assert(forall|k: int|
                    0 <= k < i ==> self.modifiers@.take(i + 1)[k] == self.modifiers@.take(
                        i as int,
                    )[k]);
                assert(self.modifiers@.take(i + 1)[i as int] == m);
            }
            match m {
                Modifier::Without(f) => {
                    if contains_kind(&story.filters, f) {
                        vetoed = true;
                        proof {
                            assert(modifier_excludes(self.modifiers@.take(i + 1)[i as int], story.filters@));
                        }
                    }
                },
                Modifier::With(f) => {
                    has_with = true;
                    if contains_kind(&story.filters, f) {
                        matched = true;
                        proof {
                            assert(modifier_includes(self.modifiers@.take(i + 1)[i as int], story.filters@));
                        }
                    }
                },
            }
            proof {
                let pre = self.modifiers@.take(i as int);
                let cur = self.modifiers@.take(i + 1);
                assert(excluded(cur, story.filters@) == (excluded(pre, story.filters@)
                    || modifier_excludes(m, story.filters@))) by {
                    if excluded(cur, story.filters@) {
                        let k = choose|k: int|
                            0 <= k < cur.len() && modifier_excludes(cur[k], story.filters@);
                        if k < i {
                            assert(modifier_excludes(pre[k], story.filters@));
                        }
                    }
                    if excluded(pre, story.filters@) {
                        let k = choose|k: int|
                            0 <= k < pre.len() && modifier_excludes(pre[k], story.filters@);
                        assert(modifier_excludes(cur[k], story.filters@));
                    }
                    if modifier_excludes(m, story.filters@) {
                        assert(modifier_excludes(cur[i as int], story.filters@));
                    }
                }
                assert(has_inclusion(cur) == (has_inclusion(pre) || m is With)) by {
                    if has_inclusion(cur) {
                        let k = choose|k: int| 0 <= k < cur.len() && cur[k] is With;
                        if k < i {
                            assert(pre[k] is With);
                        }
                    }
                    if has_inclusion(pre) {
                        let k = choose|k: int| 0 <= k < pre.len() && pre[k] is With;
                        assert(cur[k] is With);
                    }
                    if m is With {
                        assert(cur[i as int] is With);
                    }
                }
                assert(included(cur, story.filters@) == (included(pre, story.filters@)
                    || modifier_includes(m, story.filters@))) by {
                    if included(cur, story.filters@) {
                        let k = choose|k: int|
                            0 <= k < cur.len() && modifier_includes(cur[k], story.filters@);
                        if k < i {
                            assert(modifier_includes(pre[k], story.filters@));
                        }
                    }
                    if included(pre, story.filters@) {
                        let k = choose|k: int|
                            0 <= k < pre.len() && modifier_includes(pre[k], story.filters@);
                        assert(modifier_includes(cur[k], story.filters@));
                    }
                    if modifier_includes(m, story.filters@) {
                        assert(modifier_includes(cur[i as int], story.filters@));
                    }
                }
            }
            i = i + 1;
        }
        proof {
            assert(self.modifiers@.take(self.modifiers@.len() as int) =~= self.modifiers@);
        }
        if !vetoed && (!has_with || matched) {
            self.stories.push(story);
        }
    }
}

// ---------------------------------------------------------------------------
// The page catalogue and the populator
// ---------------------------------------------------------------------------
/// The fixed catalogue of page definitions, one modifier list per page,
/// in the order [`list`] creates them.
pub open spec fn catalogue() -> Seq<Seq<Modifier>> {
    seq![
        Seq::<Modifier>::empty(),
        seq![Modifier::With(FilterKind::AskHn)],
        seq![Modifier::With(FilterKind::AskHn), Modifier::With(FilterKind::ShowHn)],
        seq![Modifier::With(FilterKind::LargeNewspaper)],
        seq![Modifier::With(FilterKind::BigTech)],
        seq![Modifier::Without(FilterKind::AskHn)],
        seq![
            Modifier::Without(FilterKind::LargeNewspaper),
            Modifier::Without(FilterKind::BigTech),
        ],
        seq![Modifier::Without(FilterKind::LargeNewspaper)],
        seq![Modifier::Without(FilterKind::BigTech)],
        seq![Modifier::Without(FilterKind::ShowHn)],
        seq![Modifier::With(FilterKind::ShowHn)],
    ]
}

/// An empty page built from the given modifier list.
pub open spec fn page_fresh(p: Page, mods: Seq<Modifier>) -> bool {
    &&& p.modifiers@ == sorted_mods(mods)
    &&& p.name@ == page_name(mods)
    &&& p.stories@ == Seq::<StoryWithFilters>::empty()
}

/// Creates the full catalogue of pages, each empty.
pub fn list() -> (pages: Vec<Page>)
    ensures
        pages@.len() == catalogue().len(),
        forall|k: int| 0 <= k < catalogue().len() ==> page_fresh(#[trigger] pages@[k], catalogue()[k]),
{
    let mut pages: Vec<Page> = Vec::new();
    pages.push(Page::all());
    pages.push(Page::ask_hn());
    pages.push(Page::ask_show_hn());
    pages.push(Page::bignews());
    pages.push(Page::bigtech());
    pages.push(Page::no_ask_hn());
    pages.push(Page::no_bignews_no_bigtech());
    pages.push(Page::no_bignews());
    pages.push(Page::no_bigtech());
    pages.push(Page::no_show_hn());
    pages.push(Page::show_hn());
    proof {
        assert(page_name(Seq::<Modifier>::empty()) == "+all"@);
        assert forall|k: int| 0 <= k < catalogue().len() implies page_fresh(
            #[trigger] pages@[k],
            catalogue()[k],
        ) by {
            assert(pages@.len() == 11);
        }
    }
    pages
}

/// Holds of the model of a story that the page's modifiers accept.
pub open spec fn accept_pred(mods: Seq<Modifier>) -> spec_fn(StoryData) -> bool {
    |sv: StoryData| accepts(mods, sv.filters)
}

/// The models of a story list, in list order.
pub open spec fn views_of(stories: Seq<StoryWithFilters>) -> Seq<StoryData> {
    stories.map_values(|s: StoryWithFilters| s@)
}

/// What a page with modifiers `mods` and capacity `limit` holds after the
/// whole story stream `svs` ran through it: the accepted stories in stream
/// order, cut off at the capacity.
pub open spec fn accepted_prefix(mods: Seq<Modifier>, svs: Seq<StoryData>, limit: int) -> Seq<
    StoryData,
> {
    let f = svs.filter(accept_pred(mods));
    f.take(
        if limit <= f.len() {
            limit
        } else {
            f.len() as int
        },
    )
}

/// How one page changes when one story runs through it under a capacity.
pub open spec fn page_step(pre: Page, post: Page, sv: StoryData, limit: int) -> bool {
    &&& post.modifiers == pre.modifiers
    &&& post.name == pre.name
    &&& post.stories_view() == if pre.stories@.len() < limit && accepts(
        pre.modifiers@,
        sv.filters,
    ) {
        pre.stories_view().push(sv)
    } else {
        pre.stories_view()
    }
}

/// Offers one story to every page that is still below the capacity, in
/// catalogue order; pages at or above the capacity are left unchanged.
pub fn push_to_pages(pages: &mut Vec<Page>, story: &StoryWithFilters, limit: usize)
    ensures
        final(pages)@.len() == old(pages)@.len(),
        forall|k: int|
            0 <= k < old(pages)@.len() ==> page_step(
                old(pages)@[k],
                #[trigger] final(pages)@[k],
                story@,
                limit as int,
            ),
{
    let mut k: usize = 0;
    while k < pages.len()
        invariant
            0 <= k <= pages@.len(),
            pages@.len() == old(pages)@.len(),
            forall|m: int|
                0 <= m < k ==> page_step(
                    old(pages)@[m],
                    #[trigger] pages@[m],
                    story@,
                    limit as int,
                ),
            forall|m: int| k <= m < pages@.len() ==> pages@[m] == old(pages)@[m],
        decreases pages@.len() - k,
    {
        let ghost pre = pages@[k as int];
        if pages[k].len() < limit {
            let s = story.clone();
            let pg = &mut pages[k];
            pg.push(s);
            proof {
                let post = pages@[k as int];
                if accepts(pre.modifiers@, story@.filters) {
                    assert(post.stories@ == pre.stories@.push(s));
                    assert(post.stories_view() =~= pre.stories_view().push(story@));
                } else {
                    assert(post.stories_view() =~= pre.stories_view());
                }
            }
        }
        k = k + 1;
    }
}

/// Whether every page has reached the capacity: once this holds, no page
/// can accept another story and the population pass can stop.
pub open spec fn spec_all_full(pages: Seq<Page>, limit: int) -> bool {
    forall|k: int| 0 <= k < pages.len() ==> (#[trigger] pages[k]).stories@.len() >= limit
}

/// Whether every page holds at least `limit` stories.
pub fn all_pages_full(pages: &Vec<Page>, limit: usize) -> (b: bool)
    ensures
        b == spec_all_full(pages@, limit as int),
{
    let mut k: usize = 0;
    while k < pages.len()
        invariant
            0 <= k <= pages@.len(),
            forall|m: int| 0 <= m < k ==> (#[trigger] pages@[m]).stories@.len() >= limit,
        decreases pages@.len() - k,
    {
        if pages[k].len() < limit {
            return false;
        }
        k = k + 1;
    }
    true
}

/// Extending the story stream by one story extends a page's accepted
/// prefix exactly when the page still has room and accepts the story.
proof fn lemma_accepted_prefix_step(mods: Seq<Modifier>, svs: Seq<StoryData>, j: int, limit: int)
    requires
        0 <= j < svs.len(),
        0 <= limit,
    ensures
        accepted_prefix(mods, svs.take(j + 1), limit) == if accepts(mods, svs[j].filters)
            && accepted_prefix(mods, svs.take(j), limit).len() < limit {
            accepted_prefix(mods, svs.take(j), limit).push(svs[j])
        } else {
            accepted_prefix(mods, svs.take(j), limit)
        },
{
    assert(svs.take(j + 1) =~= svs.take(j).push(svs[j]));
    lemma_filter_push(svs.take(j), accept_pred(mods), svs[j]);
    let f = svs.take(j).filter(accept_pred(mods));
    if accept_pred(mods)(svs[j]) {
        if f.len() < limit {
            assert(f.push(svs[j]).take(f.len() as int + 1) =~= f.take(f.len() as int).push(svs[j]));
        } else {
            assert(f.push(svs[j]).take(limit) =~= f.take(limit));
        }
    }
}

/// Once a page's accepted prefix has reached the capacity, the rest of
/// the story stream cannot change it.
proof fn lemma_accepted_prefix_stable(mods: Seq<Modifier>, svs: Seq<StoryData>, j: int, limit: int)
    requires
        0 <= j <= svs.len(),
        0 <= limit,
        accepted_prefix(mods, svs.take(j), limit).len() >= limit,
    ensures
        accepted_prefix(mods, svs, limit) == accepted_prefix(mods, svs.take(j), limit),
{
    let fj = svs.take(j).filter(accept_pred(mods));
    assert(fj.len() >= limit);
    assert(svs =~= svs.take(j) + svs.skip(j));
    Seq::filter_distributes_over_add(svs.take(j), svs.skip(j), accept_pred(mods));
    let f = svs.filter(accept_pred(mods));
    assert(f == fj + svs.skip(j).filter(accept_pred(mods)));
    lemma_take_of_add(fj, svs.skip(j).filter(accept_pred(mods)), limit);
    assert(accepted_prefix(mods, svs.take(j), limit) =~= fj.take(limit));
}

/// Streams the ranked stories into every page of the catalogue, in rank
/// order, never filling a page past the capacity, and stopping early once
/// every page is full. Each returned page holds exactly the first
/// stories the page accepts, up to the capacity, in rank order.
pub fn populate(stories: &Vec<StoryWithFilters>, page_limit: usize) -> (pages: Vec<Page>)
    ensures
        pages@.len() == catalogue().len(),
        forall|k: int|
            0 <= k < catalogue().len() ==> {
                let p = #[trigger] pages@[k];
                &&& p.modifiers@ == sorted_mods(catalogue()[k])
                &&& p.name@ == page_name(catalogue()[k])
                &&& p.stories_view() == accepted_prefix(
                    p.modifiers@,
                    views_of(stories@),
                    page_limit as int,
                )
                &&& p.stories@.len() <= page_limit
            },
{
    let ghost all_svs = views_of(stories@);
    let mut pages = list();
    let mut j: usize = 0;
    let mut done = all_pages_full(&pages, page_limit);
    proof {
        reveal(Seq::filter);
        assert(all_svs.take(0) =~= Seq::<StoryData>::empty());
        assert forall|k: int| 0 <= k < catalogue().len() implies (#[trigger] pages@[k]).stories_view() == accepted_prefix(
            pages@[k].modifiers@,
            all_svs.take(0),
            page_limit as int,
        ) by {
            assert(pages@[k].stories_view() =~= Seq::<StoryData>::empty());
            assert(accepted_prefix(pages@[k].modifiers@, all_svs.take(0), page_limit as int)
                =~= Seq::<StoryData>::empty());
        }
    }
    while j < stories.len() && !done
        invariant
            0 <= j <= stories@.len(),
            all_svs == views_of(stories@),
            pages@.len() == catalogue().len(),
            forall|k: int|
                0 <= k < catalogue().len() ==> {
                    let p = #[trigger] pages@[k];
                    &&& p.modifiers@ == sorted_mods(catalogue()[k])
                    &&& p.name@ == page_name(catalogue()[k])
                    &&& p.stories_view() == accepted_prefix(
                        p.modifiers@,
                        all_svs.take(j as int),
                        page_limit as int,
                    )
                },
            done == spec_all_full(pages@, page_limit as int),
        decreases stories@.len() - j,
    {
        let ghost pre_pages = pages@;
        push_to_pages(&mut pages, &stories[j], page_limit);
        proof {
            assert(stories@[j as int]@ == all_svs[j as int]);
            assert forall|k: int| 0 <= k < catalogue().len() implies (#[trigger] pages@[k]).stories_view() == accepted_prefix(
                pages@[k].modifiers@,
                all_svs.take(j + 1),
                page_limit as int,
            ) by {
                let pre = pre_pages[k];
                lemma_accepted_prefix_step(pre.modifiers@, all_svs, j as int, page_limit as int);
                assert(pre.stories@.len() == pre.stories_view().len());
            }
        }
        j = j + 1;
        done = all_pages_full(&pages, page_limit);
    }
    proof {
        if done {
            assert forall|k: int| 0 <= k < catalogue().len() implies (#[trigger] pages@[k]).stories_view() == accepted_prefix(
                pages@[k].modifiers@,
                all_svs,
                page_limit as int,
            ) by {
                assert(pages@[k].stories@.len() >= page_limit);
                assert(pages@[k].stories_view().len() >= page_limit);
                lemma_accepted_prefix_stable(
                    pages@[k].modifiers@,
                    all_svs,
                    j as int,
                    page_limit as int,
                );
            }
        } else {
            assert(j == stories@.len());
            assert(all_svs.take(j as int) =~= all_svs);
        }
        assert forall|k: int| 0 <= k < catalogue().len() implies (#[trigger] pages@[k]).stories@.len() <= page_limit by {
            assert(pages@[k].stories@.len() == pages@[k].stories_view().len());
        }
    }
    pages
}

/// The page without modifiers accepts every story up to the capacity: a
/// population pass leaves it with exactly the first `limit` stories of
/// the stream (or the whole stream, where it is shorter).
pub proof fn lemma_all_page_takes_prefix(svs: Seq<StoryData>, limit: int)
    requires
        0 <= limit,
    ensures
        accepted_prefix(Seq::<Modifier>::empty(), svs, limit) == svs.take(
            if limit <= svs.len() {
                limit
            } else {
                svs.len() as int
            },
        ),
{
    assert forall|i: int| 0 <= i < svs.len() implies accept_pred(Seq::<Modifier>::empty())(
        #[trigger] svs[i],
    ) by {
        lemma_empty_modifiers_accept_all(svs[i].filters);
    }
    crate::seqs::lemma_filter_all_true(svs, accept_pred(Seq::<Modifier>::empty()));
}

/// Population preserves rank order: what a page holds after a population
/// pass is a subsequence of the story stream, so any two stories on the
/// same page stand in the order the stream ranked them.
pub proof fn lemma_rank_order_preserved(mods: Seq<Modifier>, svs: Seq<StoryData>, limit: int)
    requires
        0 <= limit,
    ensures
        subsequence_of(accepted_prefix(mods, svs, limit), svs),
{
    let f = svs.filter(accept_pred(mods));
    lemma_filter_subsequence(svs, accept_pred(mods));
    let m: int = if limit <= f.len() {
        limit
    } else {
        f.len() as int
    };
    lemma_take_subsequence(f, m);
    lemma_subsequence_trans(f.take(m), f, svs);
}

/// A story never appears twice in the same page: where the story stream
/// carries pairwise distinct ids, every page a population pass fills holds
/// pairwise distinct ids too.
pub proof fn lemma_no_story_twice(mods: Seq<Modifier>, svs: Seq<StoryData>, limit: int)
    requires
        0 <= limit,
        crate::seqs::distinct_by(svs, story_id_of()),
    ensures
        crate::seqs::distinct_by(accepted_prefix(mods, svs, limit), story_id_of()),
{
    lemma_rank_order_preserved(mods, svs, limit);
    crate::seqs::lemma_subsequence_distinct_by(accepted_prefix(mods, svs, limit), svs, story_id_of());
}

/// The id of a story model.
pub open spec fn story_id_of() -> spec_fn(StoryData) -> i64 {
    |sv: StoryData| sv.id
}

} // verus!
