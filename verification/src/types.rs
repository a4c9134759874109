//! The items that the launcher lists, launches and pins.
use vstd::prelude::*;

verus! {

/// A program to run, with its arguments.
#[derive(Debug)]
pub struct RunCommand {
    pub command: String,
    pub args: Vec<String>,
}

/// One entry of the launcher: an app, a command, or a virtual web search.
#[derive(Debug)]
pub struct Item {
    pub id: String,
    pub name: String,
    pub kind: Kind,
    /// Where the item's icon image is cached, once it has been extracted.
    pub icon_path: Option<String>,
    pub running_command: Option<RunCommand>,
}

/// A run command as text.
pub struct RunCommandView {
    pub command: Seq<char>,
    pub args: Seq<Seq<char>>,
}

/// An item as text.
pub struct ItemView {
    pub id: Seq<char>,
    pub name: Seq<char>,
    pub kind: Kind,
    pub icon_path: Option<Seq<char>>,
    pub running_command: Option<RunCommandView>,
}

/// The texts of a list of strings.
pub open spec fn strings_view(v: Seq<String>) -> Seq<Seq<char>> {
    v.map_values(|s: String| s@)
}

/// The view of an optional string.
pub open spec fn opt_string_view(s: Option<String>) -> Option<Seq<char>> {
    match s {
        Some(x) => Some(x@),
        None => None,
    }
}

impl View for RunCommand {
    type V = RunCommandView;

    open spec fn view(&self) -> RunCommandView {
        RunCommandView { command: self.command@, args: strings_view(self.args@) }
    }
}

/// The view of an optional run command.
pub open spec fn opt_command_view(c: Option<RunCommand>) -> Option<RunCommandView> {
    match c {
        Some(x) => Some(x@),
        None => None,
    }
}

impl View for Item {
    type V = ItemView;

    open spec fn view(&self) -> ItemView {
        ItemView {
            id: self.id@,
            name: self.name@,
            kind: self.kind,
            icon_path: opt_string_view(self.icon_path),
            running_command: opt_command_view(self.running_command),
        }
    }
}

/// The views of a list of items.
pub open spec fn items_view(v: Seq<Item>) -> Seq<ItemView> {
    v.map_values(|i: Item| i@)
}

#[derive(Clone, Copy, Debug, PartialEq, Eq, Structural)]
pub enum Kind {
    Command,
    App,
    /// Virtual item for a bang search shortcut (e.g. `!g query`)
    Search,
}

/// A copy of a list of strings.
pub fn copy_strings(v: &Vec<String>) -> (r: Vec<String>)
    ensures
        r@ == v@,
{
    let mut r: Vec<String> = Vec::new();
    let mut i: usize = 0;
    while i < v.len()
        invariant
            i <= v.len(),
            r@ == v@.take(i as int),
        decreases v.len() - i,
    {
        r.push(v[i].clone());
        i = i + 1;
        assert(r@ =~= v@.take(i as int));
    }
    assert(v@.take(v.len() as int) =~= v@);
    r
}

/// A copy of an optional string.
pub fn copy_opt_string(s: &Option<String>) -> (r: Option<String>)
    ensures
        r == *s,
{
    match s {
        Some(x) => Some(x.clone()),
        None => None,
    }
}

impl Clone for RunCommand {
    fn clone(&self) -> (r: Self)
        ensures
            r@ == self@,
    {
        RunCommand { command: self.command.clone(), args: copy_strings(&self.args) }
    }
}

impl Clone for Item {
    fn clone(&self) -> (r: Self)
        ensures
            r@ == self@,
    {
        let running_command = match &self.running_command {
            Some(c) => Some(c.clone()),
            None => None,
        };
        Item {
            id: self.id.clone(),
            name: self.name.clone(),
            kind: self.kind,
            icon_path: copy_opt_string(&self.icon_path),
            running_command,
        }
    }
}

/// A copy of a list of items.
pub fn copy_items(v: &Vec<Item>) -> (r: Vec<Item>)
    ensures
        items_view(r@) == items_view(v@),
{
    let mut r: Vec<Item> = Vec::new();
    let mut i: usize = 0;
    while i < v.len()
        invariant
            i <= v.len(),
            r@.len() == i,
            items_view(r@) == items_view(v@.take(i as int)),
        decreases v.len() - i,
    {
        let ghost old_r = r@;
        let x = v[i].clone();
        r.push(x);
        i = i + 1;
        assert forall|k: int| 0 <= k < i implies #[trigger] items_view(r@)[k] == items_view(
            v@.take(i as int),
        )[k] by {
            if k < i - 1 {
                assert(r@[k] == old_r[k]);
                assert(items_view(old_r)[k] == items_view(v@.take(i - 1))[k]);
            }
        }
        assert(items_view(r@) =~= items_view(v@.take(i as int)));
    }
    assert(v@.take(v.len() as int) =~= v@);
    r
}

} // verus!
