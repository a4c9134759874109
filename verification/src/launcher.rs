//! The launcher window's state and the decisions behind its key bindings:
//! navigate, confirm, cancel, pin, toggle with the global hotkey.
use vstd::prelude::*;

use crate::bangs::{bang_table, parse_bang, parsed_bang, search_url, spec_search_url};
use crate::components::fav::{has_id, refreshed, without_id, Fav, MAX_FAVORITES};
use crate::components::list::{
    apply_icon_list, filter_result, icons_view, next_index, prev_index, search_item, LauncherList,
    ToggleFavoriteEvent,
};
use crate::components::search::fuzzy_matches;
use crate::scanner::{items_without_icons, without_icon, ScanEntry};
use crate::text::trim;
use crate::types::{items_view, strings_view, Item, ItemView, Kind, RunCommand};

verus! {

/// What the app does after `confirm`.
pub enum ConfirmAction {
    /// Nothing to do.
    Nothing,
    /// Open this URL in the default browser.
    OpenUrl(String),
    /// Spawn this command, then report with `finish_launch` whether it started.
    Launch(RunCommand),
}

/// The pinned items after the item `item` is pinned or unpinned: unpinned if
/// pinned, pinned if there is room, else left as they were.
pub open spec fn toggled(favs: Seq<ItemView>, item: ItemView) -> Seq<ItemView> {
    if has_id(favs, item.id) {
        without_id(favs, item.id)
    } else if favs.len() < MAX_FAVORITES {
        favs.push(item)
    } else {
        favs
    }
}

/// Toggling a pinned item removes exactly the favorites with its id and
/// keeps all the others in order; toggling an unpinned one appends it while
/// there is room, and otherwise changes nothing.
pub proof fn toggling_unpins_only_that_item(favs: Seq<ItemView>, item: ItemView)
    ensures
        has_id(favs, item.id) ==> toggled(favs, item) == favs.filter(|f: ItemView| f.id != item.id),
        !has_id(favs, item.id) && favs.len() < MAX_FAVORITES ==> toggled(favs, item) == favs.push(
            item,
        ),
        !has_id(favs, item.id) && favs.len() >= MAX_FAVORITES ==> toggled(favs, item) == favs,
{
    crate::components::fav::unpinning_keeps_the_others(favs, item.id);
}

/// The ids of items.
pub open spec fn ids_of(v: Seq<ItemView>) -> Seq<Seq<char>> {
    v.map_values(|i: ItemView| i.id)
}

/// The favorite slot that `Ctrl` with `key` launches: the digits 1 to 6.
pub open spec fn favorite_slot(ctrl: bool, key: Seq<char>) -> Option<int> {
    if ctrl && key.len() > 0 && '1' <= key[0] <= '6' {
        Some(key[0] as int - '1' as int)
    } else {
        None
    }
}

/// `Ctrl` with each of the keys `1` to `6` reaches its own slot, the first to
/// the sixth, whatever follows the digit; nothing else reaches a slot, and
/// every slot reached is one of the six.
pub proof fn ctrl_digits_reach_the_six_slots(rest: Seq<char>)
    ensures
        favorite_slot(true, seq!['1'] + rest) == Some(0int),
        favorite_slot(true, seq!['2'] + rest) == Some(1int),
        favorite_slot(true, seq!['3'] + rest) == Some(2int),
        favorite_slot(true, seq!['4'] + rest) == Some(3int),
        favorite_slot(true, seq!['5'] + rest) == Some(4int),
        favorite_slot(true, seq!['6'] + rest) == Some(5int),
        forall|ctrl: bool, key: Seq<char>|
            #[trigger] favorite_slot(ctrl, key) matches Some(s) ==> ctrl && 0 <= s < MAX_FAVORITES,
        forall|key: Seq<char>| #[trigger] favorite_slot(false, key) is None,
{
    assert((seq!['1'] + rest)[0] == '1');
    assert((seq!['2'] + rest)[0] == '2');
    assert((seq!['3'] + rest)[0] == '3');
    assert((seq!['4'] + rest)[0] == '4');
    assert((seq!['5'] + rest)[0] == '5');
    assert((seq!['6'] + rest)[0] == '6');
}

/// Pinning an unpinned item when there is room and then unpinning it, with
/// the same toggle, restores the favorites.
pub proof fn toggling_twice_restores(favs: Seq<ItemView>, item: ItemView)
    requires
        !has_id(favs, item.id),
        favs.len() < MAX_FAVORITES,
    ensures
        toggled(toggled(favs, item), item) == favs,
{
    assert(favs.push(item)[favs.len() as int].id == item.id);
    crate::components::fav::pin_then_unpin_restores(favs, item);
}

pub struct LauncherState {
    pub list: LauncherList,
    pub fav: Fav,
    pub is_visible: bool,
}

impl LauncherState {
    pub open spec fn wf(&self) -> bool {
        self.list.wf()
    }

    /// The pinned items.
    pub open spec fn favs(&self) -> Seq<ItemView> {
        self.fav.view_items()
    }

    /// The window starts shown, listing the scanned items without icons, with
    /// the favorites read from disk.
    pub fn new(scan_entries: &Vec<ScanEntry>, favorites: Vec<Item>) -> (r: Self)
        ensures
            r.wf(),
            r.is_visible,
            items_view(r.list.items@) == Seq::new(
                scan_entries@.len(),
                |i: int| without_icon(scan_entries@[i].item@),
            ),
            items_view(r.list.filtered@) == items_view(r.list.items@),
            r.list.selected_index is None,
            r.favs() == items_view(favorites@),
    {
        let items = items_without_icons(scan_entries);
        let list = LauncherList::new(items);
        let fav = Fav::new(favorites);
        LauncherState { list, fav, is_visible: true }
    }

    /// The row `ix` of the list, if there is one.
    pub fn get_item(&self, ix: usize) -> (r: Option<Item>)
        ensures
            match r {
                Some(it) => ix < self.list.filtered@.len() && it@ == self.list.filtered@[ix as int]@,
                None => ix >= self.list.filtered@.len(),
            },
    {
        if ix < self.list.filtered.len() {
            Some(self.list.filtered[ix].clone())
        } else {
            None
        }
    }

    pub fn select_next(&mut self)
        ensures
            old(self).wf() ==> final(self).wf(),
            final(self).list.selected_index == next_index(
                old(self).list.selected_index,
                old(self).list.filtered@.len(),
            ),
            final(self).list.filtered == old(self).list.filtered,
            final(self).fav == old(self).fav,
            final(self).is_visible == old(self).is_visible,
    {
        self.list.select_next();
    }

    pub fn select_prev(&mut self)
        ensures
            old(self).wf() ==> final(self).wf(),
            final(self).list.selected_index == prev_index(
                old(self).list.selected_index,
                old(self).list.filtered@.len(),
            ),
            final(self).list.filtered == old(self).list.filtered,
            final(self).fav == old(self).fav,
            final(self).is_visible == old(self).is_visible,
    {
        self.list.select_prev();
    }

    /// The command that launching `item` runs; an item without one cannot be
    /// launched.
    pub fn launch_command(item: &Item) -> (r: Option<RunCommand>)
        ensures
            match r {
                Some(c) => item.running_command matches Some(ic) && c@ == ic@,
                None => item.running_command is None,
            },
    {
        match &item.running_command {
            Some(c) => Some(c.clone()),
            None => None,
        }
    }

    /// `Enter`: with no row highlighted, a bang input opens its search and
    /// hides the window; a highlighted search row opens its URL and hides the
    /// window; a highlighted app row is launched.
    pub fn confirm(&mut self, input: &str) -> (r: ConfirmAction)
        ensures
            final(self).list == old(self).list,
            final(self).fav == old(self).fav,
            match old(self).list.selected_index {
                None => match parsed_bang(input@) {
                    Some((k, q)) => {
                        &&& r matches ConfirmAction::OpenUrl(u) && u@ == spec_search_url(
                            bang_table()[k].url_template,
                            q,
                        )
                        &&& !final(self).is_visible
                    },
                    None => r is Nothing && final(self).is_visible == old(self).is_visible,
                },
                Some(ix) => if ix < old(self).list.filtered@.len() {
                    let it = old(self).list.filtered@[ix as int]@;
                    if it.kind == Kind::Search {
                        &&& r matches ConfirmAction::OpenUrl(u) && u@ == it.id
                        &&& !final(self).is_visible
                    } else {
                        &&& final(self).is_visible == old(self).is_visible
                        &&& match it.running_command {
                            Some(c) => r matches ConfirmAction::Launch(cmd) && cmd@ == c,
                            None => r is Nothing,
                        }
                    }
                } else {
                    r is Nothing && final(self).is_visible == old(self).is_visible
                },
            },
    {
        match self.list.selected_index {
            None => {
                if let Some((bang, query)) = parse_bang(input) {
                    let url = search_url(&bang, query);
                    self.is_visible = false;
                    ConfirmAction::OpenUrl(url)
                } else {
                    ConfirmAction::Nothing
                }
            },
            Some(ix) => {
                if ix >= self.list.filtered.len() {
                    return ConfirmAction::Nothing;
                }
                let item = &self.list.filtered[ix];
                if item.kind == Kind::Search {
                    self.is_visible = false;
                    ConfirmAction::OpenUrl(item.id.clone())
                } else {
                    match Self::launch_command(item) {
                        Some(c) => ConfirmAction::Launch(c),
                        None => ConfirmAction::Nothing,
                    }
                }
            },
        }
    }

    /// A click on row `ix` of the list highlights it; a search row opens its
    /// URL, an app row is launched. The click hides the window itself, so the
    /// launcher's visibility flag is left as it was.
    pub fn click_row(&mut self, ix: usize) -> (r: ConfirmAction)
        ensures
            (old(self).wf() && ix < old(self).list.filtered@.len()) ==> final(self).wf(),
            final(self).list.selected_index == Some(ix),
            final(self).list.items == old(self).list.items,
            final(self).list.filtered == old(self).list.filtered,
            final(self).list.search == old(self).list.search,
            final(self).list.favorite_ids == old(self).list.favorite_ids,
            final(self).fav == old(self).fav,
            final(self).is_visible == old(self).is_visible,
            ix < old(self).list.filtered@.len() ==> ({
                let it = old(self).list.filtered@[ix as int]@;
                if it.kind == Kind::Search {
                    r matches ConfirmAction::OpenUrl(u) && u@ == it.id
                } else {
                    match it.running_command {
                        Some(c) => r matches ConfirmAction::Launch(cmd) && cmd@ == c,
                        None => r is Nothing,
                    }
                }
            }),
            ix >= old(self).list.filtered@.len() ==> r is Nothing,
    {
        self.list.selected_index = Some(ix);
        if ix >= self.list.filtered.len() {
            return ConfirmAction::Nothing;
        }
        let item = &self.list.filtered[ix];
        if item.kind == Kind::Search {
            ConfirmAction::OpenUrl(item.id.clone())
        } else {
            match Self::launch_command(item) {
                Some(c) => ConfirmAction::Launch(c),
                None => ConfirmAction::Nothing,
            }
        }
    }

    /// Reports whether a launched command started; the window hides if it did.
    pub fn finish_launch(&mut self, started: bool)
        ensures
            final(self).list == old(self).list,
            final(self).fav == old(self).fav,
            final(self).is_visible == (old(self).is_visible && !started),
    {
        if started {
            self.is_visible = false;
        }
    }

    /// `Escape`: hides the window.
    pub fn cancel(&mut self)
        ensures
            final(self).list == old(self).list,
            final(self).fav == old(self).fav,
            !final(self).is_visible,
    {
        self.is_visible = false;
    }

    /// The global hotkey: hides a shown window, shows a hidden one; says
    /// whether it is now shown.
    pub fn toggle_visibility(&mut self) -> (shown: bool)
        ensures
            final(self).list == old(self).list,
            final(self).fav == old(self).fav,
            final(self).is_visible == !old(self).is_visible,
            shown == final(self).is_visible,
    {
        self.is_visible = !self.is_visible;
        self.is_visible
    }

    /// The list marks as pinned exactly the favorites' ids.
    pub fn sync_favorite_ids(&mut self)
        ensures
            final(self).wf() == old(self).wf(),
            strings_view(final(self).list.favorite_ids@) == ids_of(final(self).favs()),
            final(self).list.items == old(self).list.items,
            final(self).list.filtered == old(self).list.filtered,
            final(self).list.selected_index == old(self).list.selected_index,
            final(self).list.search == old(self).list.search,
            final(self).fav == old(self).fav,
            final(self).is_visible == old(self).is_visible,
    {
        let mut ids: Vec<String> = Vec::new();
        let mut i: usize = 0;
        while i < self.fav.favorites.len()
            invariant
                i <= self.fav.favorites@.len(),
                ids@.len() == i,
                strings_view(ids@) == ids_of(self.favs()).take(i as int),
            decreases self.fav.favorites.len() - i,
        {
            let ghost before = ids@;
            ids.push(self.fav.favorites[i].id.clone());
            i = i + 1;
            assert forall|j: int| 0 <= j < i implies #[trigger] strings_view(ids@)[j] == ids_of(
                self.favs(),
            )[j] by {
                if j < i - 1 {
                    assert(ids@[j] == before[j]);
                    assert(strings_view(before)[j] == ids_of(self.favs()).take(i - 1)[j]);
                }
            }
            assert(strings_view(ids@) =~= ids_of(self.favs()).take(i as int));
        }
        assert(ids_of(self.favs()).take(i as int) =~= ids_of(self.favs()));
        self.list.favorite_ids = ids;
    }

    /// Pins the row `ix` of the list; says whether it was pinned.
    pub fn add_to_favorite_by_index(&mut self, ix: usize) -> (added: bool)
        ensures
            final(self).list == old(self).list,
            final(self).is_visible == old(self).is_visible,
            added == (ix < old(self).list.filtered@.len() && old(self).favs().len() < MAX_FAVORITES
                && !has_id(old(self).favs(), old(self).list.filtered@[ix as int].id@)),
            added ==> final(self).favs() == old(self).favs().push(old(self).list.filtered@[ix as int]@),
            !added ==> final(self).favs() == old(self).favs(),
    {
        let item = match self.get_item(ix) {
            Some(item) => item,
            None => return false,
        };
        self.fav.add_favorite(item)
    }

    /// Unpins every item whose id is `id`.
    pub fn remove_from_favorite_by_id(&mut self, id: &str)
        ensures
            final(self).list == old(self).list,
            final(self).is_visible == old(self).is_visible,
            final(self).favs() == without_id(old(self).favs(), id@),
            final(self).favs() == old(self).favs().filter(|f: ItemView| f.id != id@),
    {
        self.fav.remove_favorite(id);
        proof {
            crate::components::fav::unpinning_keeps_the_others(old(self).favs(), id@);
        }
    }

    /// `Ctrl+D`: pins the highlighted row, or unpins it if it is pinned; the
    /// list's pinned marks follow. Says whether the favorites are to be saved.
    pub fn toggle_favorite(&mut self) -> (save: bool)
        ensures
            final(self).wf() == old(self).wf(),
            final(self).list.filtered == old(self).list.filtered,
            final(self).list.selected_index == old(self).list.selected_index,
            final(self).is_visible == old(self).is_visible,
            match old(self).list.selected_index {
                None => !save && final(self).fav == old(self).fav && final(self).list
                    == old(self).list,
                Some(ix) => if ix < old(self).list.filtered@.len() {
                    let it = old(self).list.filtered@[ix as int]@;
                    &&& final(self).favs() == toggled(old(self).favs(), it)
                    &&& has_id(old(self).favs(), it.id) ==> final(self).favs() == old(
                        self,
                    ).favs().filter(|f: ItemView| f.id != it.id)
                    &&& save == (has_id(old(self).favs(), it.id) || old(self).favs().len()
                        < MAX_FAVORITES)
                    &&& save ==> strings_view(final(self).list.favorite_ids@) == ids_of(
                        final(self).favs(),
                    )
                    &&& !save ==> final(self).list == old(self).list
                } else {
                    !save && final(self).fav == old(self).fav && final(self).list == old(self).list
                },
            },
    {
        let selected_index = match self.list.selected_index {
            Some(ix) => ix,
            None => return false,
        };
        if selected_index >= self.list.filtered.len() {
            return false;
        }
        let id = self.list.filtered[selected_index].id.clone();
        if !self.fav.is_favorite(id.as_str()) {
            let added = self.add_to_favorite_by_index(selected_index);
            if added {
                self.sync_favorite_ids();
            }
            added
        } else {
            self.remove_from_favorite_by_id(id.as_str());
            self.sync_favorite_ids();
            true
        }
    }

    /// The star button of row `ix`: pins or unpins that row's item, then the
    /// list's pinned marks follow the favorites. Says whether the favorites
    /// are to be saved.
    pub fn on_toggle_favorite_event(&mut self, event: ToggleFavoriteEvent) -> (save: bool)
        ensures
            final(self).wf() == old(self).wf(),
            final(self).list.filtered == old(self).list.filtered,
            final(self).list.selected_index == old(self).list.selected_index,
            final(self).is_visible == old(self).is_visible,
            event.0 < old(self).list.filtered@.len() ==> {
                let it = old(self).list.filtered@[event.0 as int]@;
                &&& final(self).favs() == toggled(old(self).favs(), it)
                &&& has_id(old(self).favs(), it.id) ==> final(self).favs() == old(
                    self,
                ).favs().filter(|f: ItemView| f.id != it.id)
                &&& save == (has_id(old(self).favs(), it.id) || old(self).favs().len()
                    < MAX_FAVORITES)
                &&& strings_view(final(self).list.favorite_ids@) == ids_of(final(self).favs())
            },
            event.0 >= old(self).list.filtered@.len() ==> !save && final(self).fav == old(
                self,
            ).fav && final(self).list == old(self).list,
    {
        let ix = event.0;
        let item = match self.get_item(ix) {
            Some(item) => item,
            None => return false,
        };
        let save = if self.fav.is_favorite(item.id.as_str()) {
            proof {
                crate::components::fav::unpinning_keeps_the_others(self.favs(), item.id@);
            }
            self.fav.remove_favorite(item.id.as_str());
            true
        } else {
            self.fav.add_favorite(item)
        };
        self.sync_favorite_ids();
        save
    }

    /// `Ctrl+1`..`Ctrl+6`: the command of the favorite in that slot.
    pub fn favorite_launch_for_key(&self, ctrl: bool, key: &str) -> (r: Option<RunCommand>)
        ensures
            ctrl && key@.len() > 0 && '1' <= key@[0] <= '6' && (key@[0] as int - '1' as int)
                < self.favs().len() ==> match self.favs()[key@[0] as int - '1' as int].running_command {
                Some(c) => r matches Some(cmd) && cmd@ == c,
                None => r is None,
            },
            match favorite_slot(ctrl, key@) {
                Some(s) => if s < self.favs().len() {
                    match self.favs()[s].running_command {
                        Some(c) => r matches Some(cmd) && cmd@ == c,
                        None => r is None,
                    }
                } else {
                    r is None
                },
                None => r is None,
            },
    {
        if !ctrl {
            return None;
        }
        let chars = crate::text::chars_of(key);
        if chars.len() == 0 {
            return None;
        }
        let c = chars[0];
        if !('1' <= c && c <= '6') {
            return None;
        }
        let slot = (c as u32 - '1' as u32) as usize;
        self.favorite_launch_for_click(slot)
    }

    /// A click on the favorite in slot `ix` of the favorites bar: the command
    /// of that favorite.
    pub fn favorite_launch_for_click(&self, ix: usize) -> (r: Option<RunCommand>)
        ensures
            if ix < self.favs().len() {
                match self.favs()[ix as int].running_command {
                    Some(c) => r matches Some(cmd) && cmd@ == c,
                    None => r is None,
                }
            } else {
                r is None
            },
    {
        if ix < self.fav.favorites.len() {
            Self::launch_command(&self.fav.favorites[ix])
        } else {
            None
        }
    }

    /// Filters the list for the search input.
    pub fn update_filtered(&mut self, input: &str)
        requires
            old(self).wf(),
        ensures
            final(self).wf(),
            final(self).fav == old(self).fav,
            final(self).is_visible == old(self).is_visible,
            items_view(final(self).list.items@) == items_view(old(self).list.items@),
            final(self).list.favorite_ids@ == old(self).list.favorite_ids@,
            match parsed_bang(input@) {
                Some((k, q)) => {
                    &&& items_view(final(self).list.filtered@) == seq![search_item(k, q)]
                    &&& final(self).list.selected_index == Some(0usize)
                },
                None => {
                    &&& final(self).list.search.matched() == fuzzy_matches(
                        old(self).list.search.entries(),
                        input@,
                    )
                    &&& final(self).list.search.matched().no_duplicates()
                    &&& forall|j: int|
                        0 <= j < final(self).list.search.matched().len() ==> #[trigger] final(self).list.search.matched()[j] < old(self).list.items@.len()
                    &&& items_view(final(self).list.filtered@) == filter_result(
                        items_view(old(self).list.items@),
                        final(self).list.search.matched(),
                        input@,
                    )
                    &&& trim(input@).len() == 0 ==> items_view(final(self).list.filtered@)
                        == items_view(old(self).list.items@)
                    &&& trim(input@).len() > 0 ==> final(self).list.filtered@.len()
                        == final(self).list.search.matched().len()
                    &&& trim(input@).len() > 0 ==> forall|i: int|
                        0 <= i < final(self).list.filtered@.len() ==> #[trigger] final(
                        self).list.filtered@[i]@ == old(self).list.items@[final(
                        self).list.search.matched()[i] as int]@
                    &&& final(self).list.selected_index == (if final(self).list.filtered@.len()
                        == 0 {
                        None
                    } else {
                        Some(0usize)
                    })
                },
            },
    {
        self.list.update_filtered(input);
    }

    /// The extracted icons reach the list and then the favorites; says
    /// whether a favorite's icon changed, so that the favorites are saved.
    pub fn apply_icons(&mut self, icons: &[(String, Option<String>)]) -> (changed: bool)
        ensures
            old(self).wf() ==> final(self).wf(),
            items_view(final(self).list.items@) == apply_icon_list(
                items_view(old(self).list.items@),
                icons_view(icons@),
            ),
            items_view(final(self).list.filtered@) == apply_icon_list(
                items_view(old(self).list.filtered@),
                icons_view(icons@),
            ),
            final(self).favs() == old(self).favs().map_values(
                |f: ItemView| refreshed(f, items_view(final(self).list.items@)),
            ),
            changed == exists|k: int|
                0 <= k < old(self).favs().len() && #[trigger] refreshed(
                    old(self).favs()[k],
                    items_view(final(self).list.items@),
                ).icon_path != old(self).favs()[k].icon_path,
            final(self).is_visible == old(self).is_visible,
    {
        self.list.apply_icons(icons);
        self.fav.refresh_icons(&self.list.items)
    }
}

/// A run of hotkey presses on a new launcher: it starts shown and each press
/// flips whether it is shown, so after `i` presses it is shown exactly when
/// `i` is even.
pub proof fn hotkey_presses_alternate(states: Seq<LauncherState>)
    requires
        states.len() > 0,
        states[0].is_visible,
        forall|i: int| 0 <= i < states.len() - 1 ==> #[trigger] states[i + 1].is_visible == !states[i].is_visible,
    ensures
        forall|i: int| 0 <= i < states.len() ==> #[trigger] states[i].is_visible == (i % 2 == 0),
{
    assert forall|i: int| 0 <= i < states.len() implies #[trigger] states[i].is_visible == (i % 2 == 0) by {
        lemma_presses_alternate(states, i);
    }
}

proof fn lemma_presses_alternate(states: Seq<LauncherState>, i: int)
    requires
        0 <= i < states.len(),
        states[0].is_visible,
        forall|j: int| 0 <= j < states.len() - 1 ==> #[trigger] states[j + 1].is_visible == !states[j].is_visible,
    ensures
        states[i].is_visible == (i % 2 == 0),
    decreases i,
{
    if i > 0 {
        lemma_presses_alternate(states, i - 1);
        assert(states[(i - 1) + 1].is_visible == !states[i - 1].is_visible);
    }
}

} // verus!
