//! A simpler results list that filters items by a case-insensitive
//! substring of their names.
use vstd::prelude::*;

use crate::components::list::{next_index, prev_index};
use crate::text::{chars_of, contains, contains_str, lowercase, to_lowercase, trim, trim_str};
use crate::types::{copy_items, items_view, Item, ItemView};

verus! {

/// The items whose lower-cased names contain `query`, in order.
pub open spec fn name_filter(items: Seq<ItemView>, query: Seq<char>) -> Seq<ItemView>
    decreases items.len(),
{
    if items.len() == 0 {
        items
    } else if contains(lowercase(items.last().name), query) {
        name_filter(items.drop_last(), query).push(items.last())
    } else {
        name_filter(items.drop_last(), query)
    }
}

/// What the list shows for `input`: all items for a blank query, else the
/// items whose lower-cased names contain the lower-cased, trimmed input.
pub open spec fn filtered_for(items: Seq<ItemView>, input: Seq<char>) -> Seq<ItemView> {
    let query = lowercase(trim(input));
    if query.len() == 0 {
        items
    } else {
        name_filter(items, query)
    }
}

pub struct LauncherList {
    pub items: Vec<Item>,
    pub filtered: Vec<Item>,
    pub selected_index: Option<usize>,
}

impl LauncherList {
    /// The highlighted row is a row of the list.
    pub open spec fn wf(&self) -> bool {
        match self.selected_index {
            Some(ix) => ix < self.filtered@.len(),
            None => true,
        }
    }

    pub fn new(items: Vec<Item>) -> (r: Self)
        ensures
            r.wf(),
            items_view(r.items@) == items_view(items@),
            items_view(r.filtered@) == items_view(items@),
            r.selected_index is None,
    {
        let filtered = copy_items(&items);
        LauncherList { items, filtered, selected_index: None }
    }

    /// Filters the items by the input; no row is highlighted afterwards.
    pub fn update_filtered(&mut self, input: &str)
        ensures
            final(self).wf(),
            final(self).items == old(self).items,
            items_view(final(self).filtered@) == filtered_for(items_view(old(self).items@), input@),
            final(self).selected_index is None,
    {
        let trimmed = trim_str(input);
        let query = to_lowercase(trimmed);
        let qv = chars_of(query.as_str());
        if qv.len() == 0 {
            self.filtered = copy_items(&self.items);
        } else {
            let ghost iv = items_view(self.items@);
            let mut out: Vec<Item> = Vec::new();
            let mut i: usize = 0;
            while i < self.items.len()
                invariant
                    i <= self.items@.len(),
                    iv == items_view(self.items@),
                    qv@ == lowercase(trim(input@)),
                    items_view(out@) == name_filter(iv.take(i as int), qv@),
                decreases self.items.len() - i,
            {
                let name = to_lowercase(self.items[i].name.as_str());
                let nv = chars_of(name.as_str());
                proof {
                    assert(iv.take(i + 1).drop_last() =~= iv.take(i as int));
                    assert(iv.take(i + 1).last() == iv[i as int]);
                }
                if contains_str(&nv, &qv) {
                    let ghost before = out@;
                    out.push(self.items[i].clone());
                    assert(items_view(out@) =~= items_view(before).push(iv[i as int]));
                }
                i = i + 1;
            }
            assert(iv.take(iv.len() as int) =~= iv);
            self.filtered = out;
        }
        self.selected_index = None;
    }

    pub fn select_next(&mut self)
        ensures
            old(self).wf() ==> final(self).wf(),
            final(self).selected_index == next_index(
                old(self).selected_index,
                old(self).filtered@.len(),
            ),
            final(self).items == old(self).items,
            final(self).filtered == old(self).filtered,
    {
        if self.filtered.len() == 0 {
            self.selected_index = None;
            return;
        }
        let next = match self.selected_index {
            Some(ix) => if ix < self.filtered.len() - 1 {
                ix + 1
            } else {
                0
            },
            None => 0,
        };
        self.selected_index = Some(next);
    }

    pub fn select_prev(&mut self)
        ensures
            old(self).wf() ==> final(self).wf(),
            final(self).selected_index == prev_index(
                old(self).selected_index,
                old(self).filtered@.len(),
            ),
            final(self).items == old(self).items,
            final(self).filtered == old(self).filtered,
    {
        if self.filtered.len() == 0 {
            self.selected_index = None;
            return;
        }
        let last = self.filtered.len() - 1;
        let prev = match self.selected_index {
            Some(ix) => if ix == 0 {
                last
            } else {
                ix - 1
            },
            None => last,
        };
        self.selected_index = Some(prev);
    }
}

} // verus!
