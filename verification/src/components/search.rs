//! Fuzzy search over item names, run by a `nucleo` matcher.
use std::sync::Arc;

use nucleo::pattern::{CaseMatching, Normalization};
use nucleo::{Config, Nucleo};
use vstd::prelude::*;

use crate::types::Item;

verus! {

#[verifier::external_type_specification]
#[verifier::external_body]
#[verifier::reject_recursive_types(T)]
pub struct ExNucleo<T: Sync + Send + 'static>(Nucleo<T>);

/// The entries injected into a matcher, in the order of injection: each one's
/// key and the text that is matched.
pub uninterp spec fn nucleo_entries(n: Nucleo<(usize, String)>) -> Seq<(usize, Seq<char>)>;

/// The keys of the entries that the matcher's last snapshot holds as matches,
/// best match first.
pub uninterp spec fn nucleo_matched(n: Nucleo<(usize, String)>) -> Seq<usize>;

/// The keys of the entries that fuzzy-match `query`, as the matcher lists
/// them: for a query with no atoms, every entry in the order of injection;
/// otherwise best match first (nucleo's scoring, with ties broken by shorter
/// text, then by earlier injection).
pub uninterp spec fn fuzzy_matches(entries: Seq<(usize, Seq<char>)>, query: Seq<char>) -> Seq<usize>;

/// No two entries share a key.
pub open spec fn keys_unique(e: Seq<(usize, Seq<char>)>) -> bool {
    forall|a: int, b: int| 0 <= a < b < e.len() ==> e[a].0 != e[b].0
}

/// `Nucleo::new` with the default configuration, one matched column and a
/// notifier that does nothing: a matcher with no entries and an empty
/// snapshot.
#[verifier::external_body]
fn nucleo_new() -> (n: Nucleo<(usize, String)>)
    ensures
        nucleo_entries(n) == Seq::<(usize, Seq<char>)>::empty(),
        nucleo_matched(n) == Seq::<usize>::empty(),
{
    Nucleo::new(Config::DEFAULT, Arc::new(|| {}), None, 1)
}

/// `Injector::push` on the matcher's injector: appends the entry `(key, text)`,
/// whose text fills the matched column; the snapshot is left as it was.
#[verifier::external_body]
fn nucleo_push(n: &mut Nucleo<(usize, String)>, key: usize, text: String)
    ensures
        nucleo_entries(*final(n)) == nucleo_entries(*old(n)).push((key, text@)),
        nucleo_matched(*final(n)) == nucleo_matched(*old(n)),
{
    n.injector().push((key, text), |(_, name), columns| columns[0] = name.clone().into());
}

/// `MultiPattern::reparse` of the single column with `query` (case ignored,
/// smart normalization), then `Nucleo::tick` until the matcher stops running.
/// The entries stay; the new snapshot holds the matches of the entries for
/// the query, which depend on the two alone and are named `fuzzy_matches`
/// (the crate's scoring is not restated); every match is an injected entry,
/// and no entry is matched twice.
#[verifier::external_body]
fn nucleo_search(n: &mut Nucleo<(usize, String)>, query: &str)
    ensures
        nucleo_entries(*final(n)) == nucleo_entries(*old(n)),
        nucleo_matched(*final(n)) == fuzzy_matches(nucleo_entries(*old(n)), query@),
        forall|i: int|
            0 <= i < nucleo_matched(*final(n)).len() ==> exists|p: int|
                0 <= p < nucleo_entries(*final(n)).len() && #[trigger] nucleo_matched(
                    *final(n),
                )[i] == nucleo_entries(*final(n))[p].0,
        keys_unique(nucleo_entries(*old(n))) ==> nucleo_matched(*final(n)).no_duplicates(),
{
    n.pattern.reparse(0, query, CaseMatching::Ignore, Normalization::Smart, false);
    while n.tick(10).running {}
}

/// `Snapshot::matched_items` over the whole snapshot, each item mapped to its key.
#[verifier::external_body]
fn nucleo_results(n: &Nucleo<(usize, String)>) -> (r: Vec<usize>)
    ensures
        r@ == nucleo_matched(*n),
{
    n.snapshot().matched_items(0..).map(|item| item.data.0).collect()
}

/// A fuzzy matcher over the names of items, keyed by their positions.
pub struct SearchEngine {
    nucleo: Nucleo<(usize, String)>,
}

impl SearchEngine {
    /// The entries of the engine: each key and name.
    pub closed spec fn entries(&self) -> Seq<(usize, Seq<char>)> {
        nucleo_entries(self.nucleo)
    }

    /// The keys matched by the last search, best first.
    pub closed spec fn matched(&self) -> Seq<usize> {
        nucleo_matched(self.nucleo)
    }

    pub fn new() -> (r: Self)
        ensures
            r.entries() == Seq::<(usize, Seq<char>)>::empty(),
            r.matched() == Seq::<usize>::empty(),
    {
        SearchEngine { nucleo: nucleo_new() }
    }

    /// Adds the names of `items`, each keyed by its position in `items`.
    pub fn add(&mut self, items: &[Item])
        ensures
            final(self).entries() == old(self).entries() + Seq::new(
                items@.len(),
                |i: int| (i as usize, items@[i].name@),
            ),
            final(self).matched() == old(self).matched(),
    {
        let ghost start = self.entries();
        let mut i: usize = 0;
        while i < items.len()
            invariant
                i <= items@.len(),
                self.entries() == start + Seq::new(i as nat, |j: int| (j as usize, items@[j].name@)),
                self.matched() == old(self).matched(),
            decreases items.len() - i,
        {
            nucleo_push(&mut self.nucleo, i, items[i].name.clone());
            i = i + 1;
            assert(self.entries() =~= start + Seq::new(
                i as nat,
                |j: int| (j as usize, items@[j].name@),
            ));
        }
    }

    /// Matches the names against `query`.
    pub fn search(&mut self, query: &str)
        ensures
            final(self).entries() == old(self).entries(),
            final(self).matched() == fuzzy_matches(old(self).entries(), query@),
            forall|i: int|
                0 <= i < final(self).matched().len() ==> exists|p: int|
                    0 <= p < final(self).entries().len() && #[trigger] final(self).matched()[i]
                        == final(self).entries()[p].0,
            keys_unique(old(self).entries()) ==> final(self).matched().no_duplicates(),
    {
        nucleo_search(&mut self.nucleo, query);
    }

    /// The keys matched by the last search, best first.
    pub fn results(&self) -> (r: Vec<usize>)
        ensures
            r@ == self.matched(),
    {
        nucleo_results(&self.nucleo)
    }
}

} // verus!
