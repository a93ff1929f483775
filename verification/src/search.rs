//! Fuzzy search over the items, done by the `nucleo` matcher, and the
//! filter applied to its results.
use vstd::prelude::*;

use nucleo::Nucleo;

use crate::models::{FilterMode, ItemView, LauncherItem, admits, copy_items, view_items};
use crate::text::{copy_string, trim, trim_str};

verus! {

#[verifier::external_type_specification]
#[verifier::external_body]
#[verifier::reject_recursive_types(T)]
pub struct ExNucleo<T: Sync + Send + 'static>(Nucleo<T>);

/// The items a matcher holds, in the order they were pushed.
pub uninterp spec fn matcher_items(m: Nucleo<LauncherItem>) -> Seq<ItemView>;

/// The texts the matcher matches an item by: its title, and its subtitle
/// (empty when it has none).
pub fn match_columns(item: &LauncherItem) -> (r: (String, String))
    ensures
        r.0@ == item@.title,
        r.1@ == match item@.subtitle {
            Some(s) => s,
            None => Seq::empty(),
        },
{
    let sub = match &item.subtitle {
        Some(s) => copy_string(s),
        None => String::new(),
    };
    (copy_string(&item.title), sub)
}

/// How many match columns a matcher has.
pub uninterp spec fn matcher_columns(m: Nucleo<LauncherItem>) -> nat;

/// The text that the pattern of a matcher's first column was last parsed from.
pub uninterp spec fn matcher_pattern(m: Nucleo<LauncherItem>) -> Seq<char>;

/// `Nucleo::new` with the default configuration, a notifier that does
/// nothing, one worker per hardware thread and two match columns. Claimed:
/// the new matcher holds no items and has two columns.
#[verifier::external_body]
fn new_matcher() -> (m: Nucleo<LauncherItem>)
    ensures
        matcher_items(m) == Seq::<ItemView>::empty(),
        matcher_columns(m) == 2,
{
    Nucleo::new(nucleo::Config::DEFAULT, std::sync::Arc::new(|| {}), None, 2)
}

/// `Nucleo::restart(true)`: removes all items and clears the snapshot.
/// Claimed: the matcher holds no items afterwards; its columns and its
/// pattern are unchanged.
#[verifier::external_body]
fn clear_matcher(m: &mut Nucleo<LauncherItem>)
    ensures
        matcher_items(*final(m)) == Seq::<ItemView>::empty(),
        matcher_columns(*final(m)) == matcher_columns(*old(m)),
        matcher_pattern(*final(m)) == matcher_pattern(*old(m)),
{
    m.restart(true);
}

/// `Injector::push` on an injector taken from the matcher (`Nucleo::injector`):
/// appends `item`, matched by the columns `match_columns` gives (the fill
/// writes two columns, so the matcher must have two). Claimed: the matcher's
/// items gain `item` at the end; its columns and pattern are unchanged.
#[verifier::external_body]
fn push_item(m: &mut Nucleo<LauncherItem>, item: LauncherItem)
    requires
        matcher_columns(*old(m)) == 2,
    ensures
        matcher_items(*final(m)) == matcher_items(*old(m)).push(item@),
        matcher_columns(*final(m)) == matcher_columns(*old(m)),
        matcher_pattern(*final(m)) == matcher_pattern(*old(m)),
{
    m.injector().push(item, |it, cols| {
        let (title, sub) = match_columns(it);
        cols[0] = title.into();
        cols[1] = sub.into();
    });
}

/// `MultiPattern::reparse` of the matcher's first column (which must
/// exist) with `query`, smart case matching and smart normalisation, not as
/// an append. Claimed: the first column's pattern is now parsed from
/// `query`; the items and columns are unchanged.
#[verifier::external_body]
fn set_pattern(m: &mut Nucleo<LauncherItem>, query: &str)
    requires
        matcher_columns(*old(m)) == 2,
    ensures
        matcher_items(*final(m)) == matcher_items(*old(m)),
        matcher_columns(*final(m)) == matcher_columns(*old(m)),
        matcher_pattern(*final(m)) == query@,
{
    m.pattern.reparse(
        0,
        query,
        nucleo::pattern::CaseMatching::Smart,
        nucleo::pattern::Normalization::Smart,
        false,
    );
}

/// `Nucleo::tick(10)`: lets the workers match for up to 10 ms and takes a
/// snapshot of their results. Claimed: the items, columns and pattern are
/// unchanged. Which matches the snapshot then holds depends on timing and
/// is not stated.
#[verifier::external_body]
fn tick(m: &mut Nucleo<LauncherItem>)
    ensures
        matcher_items(*final(m)) == matcher_items(*old(m)),
        matcher_columns(*final(m)) == matcher_columns(*old(m)),
        matcher_pattern(*final(m)) == matcher_pattern(*old(m)),
{
    m.tick(10);
}

/// `Snapshot::matched_items(..)` of `Nucleo::snapshot`: copies of the
/// matched items, best first. Claimed: each is one of the matcher's items.
/// Which items matched, and their order, is not stated.
#[verifier::external_body]
fn matched(m: &Nucleo<LauncherItem>) -> (r: Vec<LauncherItem>)
    ensures
        forall|i: int| 0 <= i < r@.len() ==> matcher_items(*m).contains(#[trigger] r@[i]@),
{
    m.snapshot().matched_items(..).map(|it| it.data.clone()).collect()
}

/// The items of `s` that the filter `f` lets through, in order.
pub open spec fn filter_items(s: Seq<ItemView>, f: FilterMode) -> Seq<ItemView>
    decreases s.len(),
{
    if s.len() == 0 {
        s
    } else {
        let k = filter_items(s.drop_last(), f);
        if admits(f, s.last()) {
            k.push(s.last())
        } else {
            k
        }
    }
}

/// The items of `results` that `filter` lets through, in order.
pub fn filter_results(results: &Vec<LauncherItem>, filter: FilterMode) -> (r: Vec<LauncherItem>)
    ensures
        view_items(r@) == filter_items(view_items(results@), filter),
{
    let ghost sv = view_items(results@);
    let mut r: Vec<LauncherItem> = Vec::new();
    for i in 0..results.len()
        invariant
            sv == view_items(results@),
            view_items(r@) == filter_items(sv.take(i as int), filter),
    {
        let item = &results[i];
        proof {
            assert(sv.take(i + 1 as int).drop_last() =~= sv.take(i as int));
            assert(sv[i as int] == item@);
        }
        let ghost before = view_items(r@);
        if filter.admits(item) {
            r.push(item.clone());
            assert(view_items(r@) =~= before.push(item@));
        }
    }
    assert(sv.take(sv.len() as int) =~= sv);
    r
}

/// The items, and the matcher that searches them.
pub struct SearchEngine {
    items: Vec<LauncherItem>,
    matcher: Nucleo<LauncherItem>,
    found: Ghost<Seq<ItemView>>,
}

impl SearchEngine {
    /// The items, as values.
    pub closed spec fn items_view(&self) -> Seq<ItemView> {
        view_items(self.items@)
    }

    /// What the last search returned (nothing before the first).
    pub closed spec fn last_found(&self) -> Seq<ItemView> {
        self.found@
    }

    /// The text the matcher's pattern was last parsed from.
    pub closed spec fn pattern_view(&self) -> Seq<char> {
        matcher_pattern(self.matcher)
    }

    /// The matcher holds exactly the items, in two columns.
    pub closed spec fn wf(&self) -> bool {
        &&& matcher_items(self.matcher) == view_items(self.items@)
        &&& matcher_columns(self.matcher) == 2
    }

    pub fn new() -> (r: Self)
        ensures
            r.wf(),
            r.items_view() == Seq::<ItemView>::empty(),
    {
        let r = SearchEngine { items: Vec::new(), matcher: new_matcher(), found: Ghost(Seq::empty()) };
        assert(view_items(r.items@) =~= Seq::<ItemView>::empty());
        r
    }

    /// Replaces the items by `items`, and the matcher's with them.
    pub fn set_items(&mut self, items: Vec<LauncherItem>)
        requires
            old(self).wf(),
        ensures
            final(self).wf(),
            final(self).items_view() == view_items(items@),
    {
        self.items = items;
        clear_matcher(&mut self.matcher);
        let ghost sv = view_items(self.items@);
        let ghost iv = self.items@;
        let n = self.items.len();
        for i in 0..n
            invariant
                n == iv.len(),
                iv == self.items@,
                sv == view_items(self.items@),
                matcher_items(self.matcher) == sv.take(i as int),
                matcher_columns(self.matcher) == 2,
        {
            let item = self.items[i].clone();
            push_item(&mut self.matcher, item);
            assert(sv.take(i + 1 as int) =~= sv.take(i as int).push(sv[i as int]));
        }
        assert(sv.take(sv.len() as int) =~= sv);
    }

    /// The items that match `query`: all of them, in order, when the query
    /// is blank; otherwise some of the items, as the matcher ranks them
    /// after its pattern is set to `query`.
    pub fn search(&mut self, query: &str) -> (r: Vec<LauncherItem>)
        requires
            old(self).wf(),
        ensures
            final(self).wf(),
            final(self).items_view() == old(self).items_view(),
            final(self).pattern_view() == if trim(query@).len() == 0 {
                old(self).pattern_view()
            } else {
                query@
            },
            final(self).last_found() == view_items(r@),
            trim(query@).len() == 0 ==> view_items(r@) == old(self).items_view(),
            forall|i: int|
                0 <= i < r@.len() ==> old(self).items_view().contains(#[trigger] r@[i]@),
    {
        let t = trim_str(query);
        if t.as_str().is_empty() {
            let r = copy_items(&self.items);
            proof {
                assert forall|i: int| 0 <= i < r@.len() implies self.items_view().contains(
                    #[trigger] r@[i]@,
                ) by {
                    assert(view_items(r@)[i] == r@[i]@);
                }
            }
            self.found = Ghost(view_items(r@));
            return r;
        }
        set_pattern(&mut self.matcher, query);
        tick(&mut self.matcher);
        let r = matched(&self.matcher);
        self.found = Ghost(view_items(r@));
        r
    }

    /// The results of `search` that `filter` lets through.
    pub fn search_filtered(&mut self, query: &str, filter: &FilterMode) -> (r: Vec<LauncherItem>)
        requires
            old(self).wf(),
        ensures
            final(self).wf(),
            final(self).items_view() == old(self).items_view(),
            final(self).pattern_view() == if trim(query@).len() == 0 {
                old(self).pattern_view()
            } else {
                query@
            },
            view_items(r@) == filter_items(final(self).last_found(), *filter),
            exists|found: Seq<ItemView>|
                #![trigger filter_items(found, *filter)]
                view_items(r@) == filter_items(found, *filter) && forall|i: int|
                    0 <= i < found.len() ==> old(self).items_view().contains(#[trigger] found[i]),
            trim(query@).len() == 0 ==> view_items(r@) == filter_items(
                old(self).items_view(),
                *filter,
            ),
            forall|i: int|
                0 <= i < r@.len() ==> old(self).items_view().contains(#[trigger] r@[i]@)
                    && admits(*filter, r@[i]@),
    {
        let results = self.search(query);
        let r = filter_results(&results, *filter);
        proof {
            lemma_filter_items(view_items(results@), *filter);
            assert forall|i: int| 0 <= i < r@.len() implies old(self).items_view().contains(
                #[trigger] r@[i]@,
            ) && admits(*filter, r@[i]@) by {
                assert(view_items(r@)[i] == r@[i]@);
                let k = choose|k: int|
                    0 <= k < results@.len() && view_items(results@)[k] == view_items(r@)[i];
                assert(view_items(results@)[k] == results@[k]@);
            }
        }
        r
    }

    /// All the items.
    pub fn get_all_items(&self) -> (r: &Vec<LauncherItem>)
        ensures
            view_items(r@) == self.items_view(),
    {
        &self.items
    }
}

/// Each item the filter keeps comes from the input and is admitted by the
/// filter; the filter `All` keeps everything.
pub proof fn lemma_filter_items(s: Seq<ItemView>, f: FilterMode)
    ensures
        forall|i: int|
            0 <= i < filter_items(s, f).len() ==> exists|k: int|
                0 <= k < s.len() && s[k] == #[trigger] filter_items(s, f)[i],
        forall|i: int|
            0 <= i < filter_items(s, f).len() ==> admits(f, #[trigger] filter_items(s, f)[i]),
        f == FilterMode::All ==> filter_items(s, f) == s,
    decreases s.len(),
{
    if s.len() > 0 {
        lemma_filter_items(s.drop_last(), f);
        let k = filter_items(s.drop_last(), f);
        assert forall|i: int| 0 <= i < filter_items(s, f).len() implies exists|m: int|
            0 <= m < s.len() && s[m] == #[trigger] filter_items(s, f)[i] by {
            if i < k.len() {
                let m = choose|m: int|
                    0 <= m < s.drop_last().len() && s.drop_last()[m] == #[trigger] k[i];
                assert(s[m] == s.drop_last()[m]);
            } else {
                assert(s[s.len() - 1] == s.last());
            }
        }
        if f == FilterMode::All {
            assert(s.drop_last().push(s.last()) =~= s);
        }
    }
}

} // verus!
