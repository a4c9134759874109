//! The results list: all items, the ones the current input selects, the
//! highlighted row, and which items are pinned.
use vstd::prelude::*;

use crate::bangs::{bang_table, parse_bang, parsed_bang, search_url, spec_search_url};
use crate::components::search::{fuzzy_matches, keys_unique, SearchEngine};
use crate::text::{trim, trim_str};
use crate::types::{
    copy_items, copy_opt_string, items_view, opt_string_view, Item, ItemView, Kind,
};

verus! {

/// Asks the launcher to pin or unpin the item shown in a row.
pub struct ToggleFavoriteEvent(pub usize);

/// The index of the first item at `k` or later whose id is `id`.
pub open spec fn find_id_from(v: Seq<ItemView>, id: Seq<char>, k: int) -> Option<int>
    decreases v.len() - k,
{
    if k < 0 || k >= v.len() {
        None
    } else if v[k].id == id {
        Some(k)
    } else {
        find_id_from(v, id, k + 1)
    }
}

/// The item with its icon replaced.
pub open spec fn with_icon(i: ItemView, icon: Option<Seq<char>>) -> ItemView {
    ItemView {
        id: i.id,
        name: i.name,
        kind: i.kind,
        icon_path: icon,
        running_command: i.running_command,
    }
}

/// The first item whose id is `id`, if any, given the icon `icon`.
pub open spec fn set_icon(v: Seq<ItemView>, id: Seq<char>, icon: Option<Seq<char>>) -> Seq<
    ItemView,
> {
    match find_id_from(v, id, 0) {
        Some(k) => v.update(k, with_icon(v[k], icon)),
        None => v,
    }
}

/// Each `(id, icon)` pair applied in turn with `set_icon`.
pub open spec fn apply_icon_list(v: Seq<ItemView>, icons: Seq<(Seq<char>, Option<Seq<char>>)>) -> Seq<
    ItemView,
>
    decreases icons.len(),
{
    if icons.len() == 0 {
        v
    } else {
        set_icon(apply_icon_list(v, icons.drop_last()), icons.last().0, icons.last().1)
    }
}

/// The texts of a list of `(id, icon)` pairs.
pub open spec fn icons_view(icons: Seq<(String, Option<String>)>) -> Seq<
    (Seq<char>, Option<Seq<char>>),
> {
    icons.map_values(|p: (String, Option<String>)| (p.0@, opt_string_view(p.1)))
}

/// The virtual item that stands for a web search with bang `k` of the table
/// for `query`.
pub open spec fn search_item(k: int, query: Seq<char>) -> ItemView {
    ItemView {
        id: spec_search_url(bang_table()[k].url_template, query),
        name: "Search "@ + bang_table()[k].name + " for: "@ + query,
        kind: Kind::Search,
        icon_path: None,
        running_command: None,
    }
}

/// The items at the positions `keys`, in that order.
pub open spec fn items_at(items: Seq<ItemView>, keys: Seq<usize>) -> Seq<ItemView> {
    keys.map_values(|k: usize| items[k as int])
}

/// What the list shows for the input `input`, when it is no bang: every item
/// for a blank input, else the search's matches.
pub open spec fn filter_result(
    items: Seq<ItemView>,
    matched: Seq<usize>,
    input: Seq<char>,
) -> Seq<ItemView> {
    if trim(input).len() == 0 {
        items
    } else {
        items_at(items, matched)
    }
}

/// The rows for a non-blank input are the matched items in the matcher's
/// order: row `i` is the item keyed by the matcher's `i`-th result, so the
/// first row is its best match; a blank input lists every item as it is.
pub proof fn filtering_keeps_the_matcher_order(
    items: Seq<ItemView>,
    matched: Seq<usize>,
    input: Seq<char>,
)
    requires
        forall|j: int| 0 <= j < matched.len() ==> #[trigger] matched[j] < items.len(),
    ensures
        trim(input).len() == 0 ==> filter_result(items, matched, input) == items,
        trim(input).len() > 0 ==> filter_result(items, matched, input).len() == matched.len(),
        trim(input).len() > 0 ==> forall|i: int|
            0 <= i < matched.len() ==> #[trigger] filter_result(items, matched, input)[i]
                == items[matched[i] as int],
{
}

/// The row after `sel` in a list of `len` rows, wrapping to the first.
pub open spec fn next_index(sel: Option<usize>, len: nat) -> Option<usize> {
    if len == 0 {
        None
    } else {
        match sel {
            Some(ix) if ix + 1 < len => Some((ix + 1) as usize),
            _ => Some(0),
        }
    }
}

/// The row before `sel` in a list of `len` rows, wrapping to the last.
pub open spec fn prev_index(sel: Option<usize>, len: nat) -> Option<usize> {
    if len == 0 {
        None
    } else {
        match sel {
            Some(ix) if ix != 0 => Some((ix - 1) as usize),
            _ => Some((len - 1) as usize),
        }
    }
}

/// Moving down then up, or up then down, returns to the highlighted row.
pub proof fn next_then_prev_restores(ix: usize, len: nat)
    requires
        ix < len <= usize::MAX,
    ensures
        prev_index(next_index(Some(ix), len), len) == Some(ix),
        next_index(prev_index(Some(ix), len), len) == Some(ix),
{
}

/// Moving the highlight keeps it on a row, and a non-empty list always has a
/// highlighted row after a move.
pub proof fn moves_stay_in_range(sel: Option<usize>, len: nat)
    requires
        len <= usize::MAX,
        sel matches Some(i) ==> i < len,
    ensures
        next_index(sel, len) matches Some(i) ==> i < len,
        prev_index(sel, len) matches Some(i) ==> i < len,
        (len > 0) == (next_index(sel, len) is Some),
        (len > 0) == (prev_index(sel, len) is Some),
{
}

/// Applying icons changes nothing but icons: the same items, in the same
/// order, with the same ids, names, kinds and commands.
pub proof fn icons_change_only_icons(v: Seq<ItemView>, icons: Seq<(Seq<char>, Option<Seq<char>>)>)
    ensures
        apply_icon_list(v, icons).len() == v.len(),
        forall|k: int|
            0 <= k < v.len() ==> {
                let a = #[trigger] apply_icon_list(v, icons)[k];
                &&& a.id == v[k].id
                &&& a.name == v[k].name
                &&& a.kind == v[k].kind
                &&& a.running_command == v[k].running_command
            },
    decreases icons.len(),
{
    if icons.len() > 0 {
        icons_change_only_icons(v, icons.drop_last());
        let w = apply_icon_list(v, icons.drop_last());
        lemma_find_id_from(w, icons.last().0, 0);
    }
}

/// After icons are applied, the first item with each id that was given an
/// icon last carries that icon.
pub proof fn last_icon_given_is_shown(
    v: Seq<ItemView>,
    icons: Seq<(Seq<char>, Option<Seq<char>>)>,
)
    requires
        icons.len() > 0,
    ensures
        match find_id_from(v, icons.last().0, 0) {
            Some(k) => apply_icon_list(v, icons)[k].icon_path == icons.last().1,
            None => true,
        },
{
    let w = apply_icon_list(v, icons.drop_last());
    icons_change_only_icons(v, icons.drop_last());
    lemma_find_id_from(v, icons.last().0, 0);
    lemma_find_id_from(w, icons.last().0, 0);
    match find_id_from(v, icons.last().0, 0) {
        Some(k) => {
            if find_id_from(w, icons.last().0, 0) != Some(k) {
                match find_id_from(w, icons.last().0, 0) {
                    Some(j) => {
                        assert(w[j].id == v[j].id);
                        if j < k {
                            assert(v[j].id != icons.last().0);
                        } else {
                            assert(w[k].id != icons.last().0);
                        }
                    },
                    None => {
                        assert(w[k].id != icons.last().0);
                    },
                }
            }
        },
        None => {},
    }
}

pub struct LauncherList {
    pub items: Vec<Item>,
    pub filtered: Vec<Item>,
    pub selected_index: Option<usize>,
    pub favorite_ids: Vec<String>,
    pub search: SearchEngine,
}

impl LauncherList {
    /// The search engine holds the names of `items`, keyed by position, and
    /// the highlighted row is a row of the list.
    pub open spec fn wf(&self) -> bool {
        &&& self.search.entries() == Seq::new(
            self.items@.len(),
            |i: int| (i as usize, self.items@[i].name@),
        )
        &&& match self.selected_index {
            Some(ix) => ix < self.filtered@.len(),
            None => true,
        }
    }

    pub fn new(items: Vec<Item>) -> (r: Self)
        ensures
            r.wf(),
            items_view(r.items@) == items_view(items@),
            items_view(r.filtered@) == items_view(items@),
            r.selected_index is None,
            r.favorite_ids@.len() == 0,
    {
        let filtered = copy_items(&items);
        let mut search = SearchEngine::new();
        search.add(items.as_slice());
        assert(search.entries() =~= Seq::new(items@.len(), |i: int| (i as usize, items@[i].name@)));
        LauncherList { items, filtered, selected_index: None, favorite_ids: Vec::new(), search }
    }

    pub fn is_favorite(&self, item: &Item) -> (r: bool)
        ensures
            r == exists|k: int| 0 <= k < self.favorite_ids@.len() && #[trigger] self.favorite_ids@[k]@ == item.id@,
    {
        let mut k: usize = 0;
        while k < self.favorite_ids.len()
            invariant
                k <= self.favorite_ids@.len(),
                forall|j: int| 0 <= j < k ==> #[trigger] self.favorite_ids@[j]@ != item.id@,
            decreases self.favorite_ids.len() - k,
        {
            if self.favorite_ids[k] == item.id {
                return true;
            }
            k = k + 1;
        }
        false
    }

    /// Filters the list for `input`: a bang shows one web-search row, which
    /// is highlighted; other input shows the search's matches (every item when
    /// the input is blank), with the first row highlighted if there is one.
    pub fn update_filtered(&mut self, input: &str)
        requires
            old(self).wf(),
        ensures
            final(self).wf(),
            items_view(final(self).items@) == items_view(old(self).items@),
            final(self).favorite_ids@ == old(self).favorite_ids@,
            match parsed_bang(input@) {
                Some((k, q)) => {
                    &&& items_view(final(self).filtered@) == seq![search_item(k, q)]
                    &&& final(self).selected_index == Some(0usize)
                    &&& final(self).search.entries() == old(self).search.entries()
                    &&& final(self).search.matched() == old(self).search.matched()
                },
                None => {
                    &&& final(self).search.entries() == old(self).search.entries()
                    &&& final(self).search.matched() == fuzzy_matches(
                        old(self).search.entries(),
                        input@,
                    )
                    &&& final(self).search.matched().no_duplicates()
                    &&& forall|j: int|
                        0 <= j < final(self).search.matched().len() ==> #[trigger] final(self).search.matched()[j] < old(self).items@.len()
                    &&& items_view(final(self).filtered@) == filter_result(
                        items_view(old(self).items@),
                        final(self).search.matched(),
                        input@,
                    )
                    &&& trim(input@).len() == 0 ==> items_view(final(self).filtered@) == items_view(
                        old(self).items@,
                    )
                    &&& trim(input@).len() > 0 ==> final(self).filtered@.len()
                        == final(self).search.matched().len()
                    &&& trim(input@).len() > 0 ==> forall|i: int|
                        0 <= i < final(self).filtered@.len() ==> #[trigger] final(self).filtered@[i]@
                            == old(self).items@[final(self).search.matched()[i] as int]@
                    &&& final(self).selected_index == (if final(self).filtered@.len() == 0 {
                        None
                    } else {
                        Some(0usize)
                    })
                },
            },
    {
        if let Some((bang, bang_query)) = parse_bang(input) {
            let url = search_url(&bang, bang_query);
            let mut name = String::from_str("Search ");
            name.append(bang.name);
            name.append(" for: ");
            name.append(bang_query);
            let item = Item {
                id: url,
                name,
                kind: Kind::Search,
                icon_path: None,
                running_command: None,
            };
            self.filtered = vec![item];
            self.selected_index = Some(0);
            proof {
                reveal_strlit("Search ");
                reveal_strlit(" for: ");
                let found = parsed_bang(input@)->0;
                assert(items_view(self.filtered@) =~= seq![search_item(found.0, found.1)]);
            }
            return;
        }
        let n_items = self.items.len();
        proof {
            let e = self.search.entries();
            assert(e.len() == n_items);
            assert forall|a: int, b: int| 0 <= a < b < e.len() implies e[a].0 != e[b].0 by {
                assert(e[a].0 == a as usize && e[b].0 == b as usize);
            }
        }
        self.search.search(input);
        proof {
            assert forall|j: int| 0 <= j < self.search.matched().len() implies #[trigger]
                self.search.matched()[j] < self.items@.len() by {
                let p = choose|p: int|
                    0 <= p < self.search.entries().len() && self.search.matched()[j]
                        == self.search.entries()[p].0;
            }
        }
        let trimmed = trim_str(input);
        if trimmed.is_empty() {
            self.filtered = copy_items(&self.items);
        } else {
            let keys = self.search.results();
            let out = items_at_keys(&self.items, &keys);
            self.filtered = out;
            proof {
                assert(items_view(self.filtered@).len() == self.filtered@.len());
                assert(self.filtered@.len() == self.search.matched().len());
                assert forall|i: int| 0 <= i < self.filtered@.len() implies #[trigger] self.filtered@[i]@
                    == self.items@[self.search.matched()[i] as int]@ by {
                    assert(items_view(self.filtered@).len() == self.filtered@.len());
                    assert(items_view(self.filtered@).len() == keys@.len());
                    assert(keys@[i] == self.search.matched()[i]);
                    assert(keys@[i] < self.items@.len());
                    assert(items_view(self.filtered@)[i] == self.filtered@[i]@);
                    assert(items_view(self.items@)[self.search.matched()[i] as int]
                        == self.items@[self.search.matched()[i] as int]@);
                }
            }
        }
        self.selected_index = if self.filtered.len() == 0 {
            None
        } else {
            Some(0)
        };
    }

    pub fn select_next(&mut self)
        ensures
            old(self).wf() ==> final(self).wf(),
            final(self).selected_index == next_index(
                old(self).selected_index,
                old(self).filtered@.len(),
            ),
            final(self).items == old(self).items,
            final(self).filtered == old(self).filtered,
            final(self).favorite_ids == old(self).favorite_ids,
            final(self).search == old(self).search,
    {
        if self.filtered.len() == 0 {
            self.selected_index = None;
            return;
        }
        let next = match self.selected_index {
            Some(ix) => if ix < self.filtered.len() - 1 {
                ix + 1
            } else {
                0
            },
            None => 0,
        };
        self.selected_index = Some(next);
    }

    pub fn select_prev(&mut self)
        ensures
            old(self).wf() ==> final(self).wf(),
            final(self).selected_index == prev_index(
                old(self).selected_index,
                old(self).filtered@.len(),
            ),
            final(self).items == old(self).items,
            final(self).filtered == old(self).filtered,
            final(self).favorite_ids == old(self).favorite_ids,
            final(self).search == old(self).search,
    {
        if self.filtered.len() == 0 {
            self.selected_index = None;
            return;
        }
        let last = self.filtered.len() - 1;
        let prev = match self.selected_index {
            Some(ix) => if ix == 0 {
                last
            } else {
                ix - 1
            },
            None => last,
        };
        self.selected_index = Some(prev);
    }

    /// Batch-update icon paths after background icon extraction completes.
    /// Both `items` (master list) and `filtered` (current view) are updated
    /// so icons appear immediately and persist through search re-filtering.
    pub fn apply_icons(&mut self, icons: &[(String, Option<String>)])
        ensures
            old(self).wf() ==> final(self).wf(),
            items_view(final(self).items@) == apply_icon_list(
                items_view(old(self).items@),
                icons_view(icons@),
            ),
            items_view(final(self).filtered@) == apply_icon_list(
                items_view(old(self).filtered@),
                icons_view(icons@),
            ),
            final(self).selected_index == old(self).selected_index,
            final(self).favorite_ids == old(self).favorite_ids,
            final(self).search == old(self).search,
    {
        let mut i: usize = 0;
        while i < icons.len()
            invariant
                i <= icons@.len(),
                old(self).wf() ==> self.wf(),
                items_view(self.items@) == apply_icon_list(
                    items_view(old(self).items@),
                    icons_view(icons@.take(i as int)),
                ),
                items_view(self.filtered@) == apply_icon_list(
                    items_view(old(self).filtered@),
                    icons_view(icons@.take(i as int)),
                ),
                self.selected_index == old(self).selected_index,
                self.favorite_ids == old(self).favorite_ids,
                self.search == old(self).search,
            decreases icons.len() - i,
        {
            let (id, icon) = &icons[i];
            proof {
                assert(icons_view(icons@.take(i + 1)).drop_last() =~= icons_view(
                    icons@.take(i as int),
                ));
                assert(icons_view(icons@.take(i + 1)).last() == (id@, opt_string_view(*icon)));
            }
            let ghost before = self.items@;
            set_icon_in(&mut self.items, id, icon);
            set_icon_in(&mut self.filtered, id, icon);
            assert(Seq::new(self.items@.len(), |j: int| (j as usize, self.items@[j].name@)) =~= Seq::new(
                before.len(),
                |j: int| (j as usize, before[j].name@),
            ));
            i = i + 1;
        }
        assert(icons@.take(icons@.len() as int) =~= icons@);
    }
}

/// `find_id_from` finds the first position with the id, or none.
pub proof fn lemma_find_id_from(v: Seq<ItemView>, id: Seq<char>, k: int)
    requires
        0 <= k,
    ensures
        match find_id_from(v, id, k) {
            Some(j) => k <= j < v.len() && v[j].id == id && forall|m: int|
                k <= m < j ==> #[trigger] v[m].id != id,
            None => forall|m: int| k <= m < v.len() ==> #[trigger] v[m].id != id,
        },
    decreases v.len() - k,
{
    if k < v.len() && v[k].id != id {
        lemma_find_id_from(v, id, k + 1);
    }
}

/// The position of the first item of `v` whose id is `id`.
pub fn find_item_with_id(v: &Vec<Item>, id: &String) -> (r: Option<usize>)
    ensures
        match r {
            Some(k) => find_id_from(items_view(v@), id@, 0) == Some(k as int) && k < v@.len()
                && v@[k as int].id@ == id@,
            None => find_id_from(items_view(v@), id@, 0) is None,
        },
{
    proof {
        lemma_find_id_from(items_view(v@), id@, 0);
    }
    let ghost iv = items_view(v@);
    let mut k: usize = 0;
    while k < v.len()
        invariant
            iv == items_view(v@),
            k <= v@.len(),
            find_id_from(iv, id@, 0) == find_id_from(iv, id@, k as int),
        decreases v.len() - k,
    {
        if v[k].id == *id {
            return Some(k);
        }
        k = k + 1;
    }
    None
}

/// The items at the positions `keys`, in that order.
pub fn items_at_keys(items: &Vec<Item>, keys: &Vec<usize>) -> (out: Vec<Item>)
    requires
        forall|j: int| 0 <= j < keys@.len() ==> #[trigger] keys@[j] < items@.len(),
    ensures
        items_view(out@) == items_at(items_view(items@), keys@),
{
    let mut out: Vec<Item> = Vec::new();
    let mut i: usize = 0;
    while i < keys.len()
        invariant
            i <= keys@.len(),
            forall|j: int| 0 <= j < keys@.len() ==> #[trigger] keys@[j] < items@.len(),
            out@.len() == i,
            items_view(out@) == items_at(items_view(items@), keys@.take(i as int)),
        decreases keys.len() - i,
    {
        let key = keys[i];
        let ghost old_out = out@;
        out.push(items[key].clone());
        i = i + 1;
        assert forall|j: int| 0 <= j < i implies #[trigger] items_view(out@)[j] == items_at(
            items_view(items@),
            keys@.take(i as int),
        )[j] by {
            if j < i - 1 {
                assert(out@[j] == old_out[j]);
                assert(items_view(old_out)[j] == items_at(items_view(items@), keys@.take(i - 1))[j]);
            }
        }
        assert(items_view(out@) =~= items_at(items_view(items@), keys@.take(i as int)));
    }
    assert(keys@.take(keys@.len() as int) =~= keys@);
    out
}

/// Gives the first item of `v` whose id is `id` the icon `icon`.
pub fn set_icon_in(v: &mut Vec<Item>, id: &String, icon: &Option<String>)
    ensures
        items_view(final(v)@) == set_icon(items_view(old(v)@), id@, opt_string_view(*icon)),
        forall|k: int| 0 <= k < old(v)@.len() ==> #[trigger] final(v)@[k].name@ == old(v)@[k].name@,
        final(v)@.len() == old(v)@.len(),
{
    let ghost iv = items_view(v@);
    let mut k: usize = 0;
    while k < v.len()
        invariant
            v@ == old(v)@,
            iv == items_view(v@),
            k <= v@.len(),
            find_id_from(iv, id@, 0) == find_id_from(iv, id@, k as int),
        decreases v.len() - k,
    {
        if v[k].id == *id {
            let mut it = v[k].clone();
            it.icon_path = copy_opt_string(icon);
            v.set(k, it);
            assert(items_view(v@) =~= iv.update(k as int, with_icon(iv[k as int], opt_string_view(*icon))));
            return;
        }
        k = k + 1;
    }
}

} // verus!
