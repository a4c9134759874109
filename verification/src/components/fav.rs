//! The favorites bar: up to six pinned items, launched with `Ctrl+1`..`Ctrl+6`.
use vstd::prelude::*;

use crate::components::list::{find_id_from, find_item_with_id};
use crate::text::str_equal;
use crate::types::{copy_opt_string, items_view, opt_string_view, Item, ItemView};

verus! {

/// How many items can be pinned.
pub const MAX_FAVORITES: usize = 6;

/// The items left when those whose id is `id` are taken out, in order.
pub open spec fn without_id(v: Seq<ItemView>, id: Seq<char>) -> Seq<ItemView>
    decreases v.len(),
{
    if v.len() == 0 {
        v
    } else if v.last().id == id {
        without_id(v.drop_last(), id)
    } else {
        without_id(v.drop_last(), id).push(v.last())
    }
}

/// Some item of `v` has the id `id`.
pub open spec fn has_id(v: Seq<ItemView>, id: Seq<char>) -> bool {
    exists|k: int| 0 <= k < v.len() && #[trigger] v[k].id == id
}

/// No two items of `v` share an id.
pub open spec fn ids_unique(v: Seq<ItemView>) -> bool {
    forall|a: int, b: int| 0 <= a < b < v.len() ==> v[a].id != v[b].id
}

/// The favorite `f` with the icon of the first item of `fresh` that has its
/// id, if there is one.
pub open spec fn refreshed(f: ItemView, fresh: Seq<ItemView>) -> ItemView {
    match find_id_from(fresh, f.id, 0) {
        Some(k) => ItemView {
            id: f.id,
            name: f.name,
            kind: f.kind,
            icon_path: fresh[k].icon_path,
            running_command: f.running_command,
        },
        None => f,
    }
}

proof fn lemma_without_id_members(v: Seq<ItemView>, id: Seq<char>)
    ensures
        without_id(v, id).len() <= v.len(),
        forall|j: int|
            0 <= j < without_id(v, id).len() ==> #[trigger] without_id(v, id)[j].id != id
                && v.contains(without_id(v, id)[j]),
    decreases v.len(),
{
    if v.len() > 0 {
        lemma_without_id_members(v.drop_last(), id);
        let w = without_id(v.drop_last(), id);
        assert forall|j: int| 0 <= j < without_id(v, id).len() implies #[trigger] without_id(
            v,
            id,
        )[j].id != id && v.contains(without_id(v, id)[j]) by {
            if j < w.len() {
                assert(w[j].id != id);
                assert(v.drop_last().contains(w[j]));
                let i = choose|i: int| 0 <= i < v.drop_last().len() && v.drop_last()[i] == w[j];
                assert(v[i] == w[j]);
            } else {
                assert(v[v.len() - 1] == without_id(v, id)[j]);
            }
        }
    }
}

proof fn lemma_without_absent_id(v: Seq<ItemView>, id: Seq<char>)
    requires
        !has_id(v, id),
    ensures
        without_id(v, id) == v,
    decreases v.len(),
{
    if v.len() > 0 {
        assert(v[v.len() - 1].id != id);
        assert(!has_id(v.drop_last(), id)) by {
            if has_id(v.drop_last(), id) {
                let k = choose|k: int| 0 <= k < v.drop_last().len() && #[trigger] v.drop_last()[k].id == id;
                assert(v[k].id == id);
            }
        }
        lemma_without_absent_id(v.drop_last(), id);
        assert(v.drop_last().push(v.last()) =~= v);
    }
}

proof fn lemma_without_id_unique(v: Seq<ItemView>, id: Seq<char>)
    requires
        ids_unique(v),
    ensures
        ids_unique(without_id(v, id)),
    decreases v.len(),
{
    if v.len() > 0 {
        let d = v.drop_last();
        assert(ids_unique(d)) by {
            assert forall|a: int, b: int| 0 <= a < b < d.len() implies d[a].id != d[b].id by {
                assert(d[a] == v[a] && d[b] == v[b]);
            }
        }
        lemma_without_id_unique(d, id);
        lemma_without_id_members(d, id);
        let w = without_id(d, id);
        if v.last().id != id {
            assert forall|a: int, b: int|
                0 <= a < b < w.push(v.last()).len() implies w.push(v.last())[a].id != w.push(
                v.last(),
            )[b].id by {
                if b == w.len() {
                    assert(w[a].id != id);
                    assert(d.contains(w[a]));
                    let i = choose|i: int| 0 <= i < d.len() && d[i] == w[a];
                    assert(v[i] == w[a]);
                    assert(v[i].id != v[v.len() - 1].id);
                } else {
                    assert(w.push(v.last())[a] == w[a] && w.push(v.last())[b] == w[b]);
                }
            }
        }
    }
}

/// Pinning keeps the favorites within six and their ids distinct.
pub proof fn pinning_keeps_favorites_well_formed(favs: Seq<ItemView>, item: ItemView)
    requires
        favs.len() <= MAX_FAVORITES,
        ids_unique(favs),
    ensures
        ({
            let after = if favs.len() < MAX_FAVORITES && !has_id(favs, item.id) {
                favs.push(item)
            } else {
                favs
            };
            after.len() <= MAX_FAVORITES && ids_unique(after)
        }),
{
    if favs.len() < MAX_FAVORITES && !has_id(favs, item.id) {
        let after = favs.push(item);
        assert forall|a: int, b: int| 0 <= a < b < after.len() implies after[a].id
            != after[b].id by {
            if b == favs.len() {
                assert(after[a] == favs[a]);
                assert(favs[a].id != item.id);
            } else {
                assert(after[a] == favs[a] && after[b] == favs[b]);
            }
        }
    }
}

/// Unpinning an id leaves no favorite with it, never adds one, and keeps the
/// others' ids distinct.
pub proof fn unpinning_removes_the_id(favs: Seq<ItemView>, id: Seq<char>)
    ensures
        !has_id(without_id(favs, id), id),
        without_id(favs, id).len() <= favs.len(),
        ids_unique(favs) ==> ids_unique(without_id(favs, id)),
{
    lemma_without_id_members(favs, id);
    if ids_unique(favs) {
        lemma_without_id_unique(favs, id);
    }
}

/// Unpinning an id keeps every favorite with another id, in order, and
/// drops exactly those with that id.
pub proof fn unpinning_keeps_the_others(favs: Seq<ItemView>, id: Seq<char>)
    ensures
        without_id(favs, id) == favs.filter(|f: ItemView| f.id != id),
    decreases favs.len(),
{
    reveal_with_fuel(Seq::<_>::filter, 1);
    if favs.len() > 0 {
        unpinning_keeps_the_others(favs.drop_last(), id);
    }
}

/// Pinning an item that was not pinned and then unpinning it restores the
/// favorites.
pub proof fn pin_then_unpin_restores(favs: Seq<ItemView>, item: ItemView)
    requires
        !has_id(favs, item.id),
    ensures
        without_id(favs.push(item), item.id) == favs,
{
    assert(favs.push(item).drop_last() =~= favs);
    lemma_without_absent_id(favs, item.id);
}

pub struct Fav {
    pub favorites: Vec<Item>,
}

impl Fav {
    pub open spec fn view_items(&self) -> Seq<ItemView> {
        items_view(self.favorites@)
    }

    /// At most six favorites, no two with the same id.
    pub open spec fn wf(&self) -> bool {
        self.favorites@.len() <= MAX_FAVORITES && ids_unique(self.view_items())
    }

    /// The favorites read from disk, as they were saved.
    pub fn new(favorites: Vec<Item>) -> (r: Self)
        ensures
            r.view_items() == items_view(favorites@),
    {
        Fav { favorites }
    }

    /// Pins `item` unless six items are pinned or one with its id is; says
    /// whether it was pinned.
    pub fn add_favorite(&mut self, item: Item) -> (added: bool)
        ensures
            added == (old(self).favorites@.len() < MAX_FAVORITES && !has_id(
                old(self).view_items(),
                item.id@,
            )),
            added ==> final(self).view_items() == old(self).view_items().push(item@),
            !added ==> final(self).view_items() == old(self).view_items(),
    {
        if self.favorites.len() >= MAX_FAVORITES {
            return false;
        }
        if self.is_favorite(item.id.as_str()) {
            return false;
        }
        let ghost before = self.favorites@;
        self.favorites.push(item);
        proof {
            assert(items_view(self.favorites@) =~= items_view(before).push(item@));
        }
        true
    }

    pub fn is_favorite(&self, id: &str) -> (r: bool)
        ensures
            r == has_id(self.view_items(), id@),
    {
        let mut k: usize = 0;
        while k < self.favorites.len()
            invariant
                k <= self.favorites@.len(),
                forall|j: int| 0 <= j < k ==> #[trigger] self.favorites@[j].id@ != id@,
            decreases self.favorites.len() - k,
        {
            if str_equal(self.favorites[k].id.as_str(), id) {
                assert(self.view_items()[k as int].id == id@);
                return true;
            }
            k = k + 1;
        }
        assert forall|j: int| 0 <= j < self.view_items().len() implies #[trigger] self.view_items()[j].id
            != id@ by {
            assert(self.favorites@[j].id@ != id@);
        }
        false
    }

    /// Unpins every item whose id is `id`.
    pub fn remove_favorite(&mut self, id: &str)
        ensures
            final(self).view_items() == without_id(old(self).view_items(), id@),
            final(self).view_items() == old(self).view_items().filter(|f: ItemView| f.id != id@),
    {
        let ghost old_items = self.view_items();
        proof {
            unpinning_keeps_the_others(old_items, id@);
        }
        let mut kept: Vec<Item> = Vec::new();
        let mut i: usize = 0;
        while i < self.favorites.len()
            invariant
                i <= self.favorites@.len(),
                old_items == self.view_items(),
                items_view(kept@) == without_id(old_items.take(i as int), id@),
            decreases self.favorites.len() - i,
        {
            proof {
                assert(old_items.take(i + 1).drop_last() =~= old_items.take(i as int));
            }
            if !str_equal(self.favorites[i].id.as_str(), id) {
                let ghost before = kept@;
                kept.push(self.favorites[i].clone());
                assert(items_view(kept@) =~= items_view(before).push(old_items[i as int]));
            }
            i = i + 1;
        }
        assert(old_items.take(old_items.len() as int) =~= old_items);
        self.favorites = kept;
    }

    /// Gives each favorite the icon of the first item of `fresh` with its id;
    /// says whether any icon changed.
    pub fn refresh_icons(&mut self, fresh: &Vec<Item>) -> (changed: bool)
        ensures
            final(self).view_items() == old(self).view_items().map_values(
                |f: ItemView| refreshed(f, items_view(fresh@)),
            ),
            changed == exists|k: int|
                0 <= k < old(self).view_items().len() && #[trigger] refreshed(
                    old(self).view_items()[k],
                    items_view(fresh@),
                ).icon_path != old(self).view_items()[k].icon_path,
    {
        let ghost fv = items_view(fresh@);
        let ghost old_items = self.view_items();
        let mut changed = false;
        let mut i: usize = 0;
        while i < self.favorites.len()
            invariant
                i <= self.favorites@.len(),
                self.favorites@.len() == old_items.len(),
                fv == items_view(fresh@),
                forall|k: int|
                    0 <= k < i ==> #[trigger] self.view_items()[k] == refreshed(old_items[k], fv),
                forall|k: int| i <= k < old_items.len() ==> #[trigger] self.view_items()[k] == old_items[k],
                changed == exists|k: int|
                    0 <= k < i && #[trigger] refreshed(old_items[k], fv).icon_path
                        != old_items[k].icon_path,
            decreases self.favorites.len() - i,
        {
            assert(self.view_items()[i as int] == old_items[i as int]);
            let found = find_item_with_id(fresh, &self.favorites[i].id);
            if let Some(k) = found {
                assert(find_id_from(fv, old_items[i as int].id, 0) == Some(k as int));
                let same = opt_string_equal(&self.favorites[i].icon_path, &fresh[k].icon_path);
                if !same {
                    let ghost before = self.favorites@;
                    let mut f = self.favorites[i].clone();
                    f.icon_path = copy_opt_string(&fresh[k].icon_path);
                    self.favorites.set(i, f);
                    changed = true;
                    proof {
                        assert forall|j: int| 0 <= j < self.favorites@.len() && j != i implies #[trigger] self.view_items()[j]
                            == items_view(before)[j] by {
                            assert(self.favorites@[j] == before[j]);
                        }
                    }
                }
            } else {
                assert(find_id_from(fv, old_items[i as int].id, 0) is None);
            }
            proof {
                let ii = i as int;
                if changed {
                    if !(exists|k: int|
                        0 <= k < ii && #[trigger] refreshed(old_items[k], fv).icon_path
                            != old_items[k].icon_path) {
                        assert(refreshed(old_items[ii], fv).icon_path != old_items[ii].icon_path);
                    }
                } else {
                    assert(refreshed(old_items[ii], fv).icon_path == old_items[ii].icon_path);
                    assert forall|k: int| 0 <= k < ii + 1 implies !(#[trigger] refreshed(
                        old_items[k],
                        fv,
                    ).icon_path != old_items[k].icon_path) by {}
                }
            }
            i = i + 1;
        }
        assert(self.view_items() =~= old_items.map_values(|f: ItemView| refreshed(f, fv)));
        changed
    }
}

/// Whether two optional strings hold the same text.
pub fn opt_string_equal(a: &Option<String>, b: &Option<String>) -> (r: bool)
    ensures
        r == (opt_string_view(*a) == opt_string_view(*b)),
{
    match (a, b) {
        (Some(x), Some(y)) => *x == *y,
        (None, None) => true,
        _ => false,
    }
}

} // verus!
