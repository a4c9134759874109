//! What the app scan finds, and the rules by which scanned entries become items.
use std::collections::hash_map::DefaultHasher;
use std::hash::{Hash, Hasher};

use vstd::prelude::*;

use crate::text::{
    chars_of, hex16, hex_digits, parse_i32, parse_i32_str, string_from_chars, to_lowercase, trim,
    trim_str,
};
use crate::types::{items_view, Item, ItemView, Kind, RunCommand};

verus! {

/// Holds a scanned app item along with the data needed to extract its icon later.
pub struct ScanEntry {
    pub item: Item,
    pub icon_location: String,
    pub icon_index: i32,
}

/// An item shown before its icon has been extracted.
pub open spec fn without_icon(i: ItemView) -> ItemView {
    ItemView {
        id: i.id,
        name: i.name,
        kind: i.kind,
        icon_path: None,
        running_command: i.running_command,
    }
}

/// The items of scanned entries, each without an icon.
pub fn items_without_icons(entries: &Vec<ScanEntry>) -> (r: Vec<Item>)
    ensures
        items_view(r@) == Seq::new(entries@.len(), |i: int| without_icon(entries@[i].item@)),
{
    let mut r: Vec<Item> = Vec::new();
    let mut i: usize = 0;
    while i < entries.len()
        invariant
            i <= entries@.len(),
            r@.len() == i,
            items_view(r@) == Seq::new(i as nat, |j: int| without_icon(entries@[j].item@)),
        decreases entries.len() - i,
    {
        let ghost before = r@;
        let mut it = entries[i].item.clone();
        it.icon_path = None;
        r.push(it);
        i = i + 1;
        assert forall|j: int| 0 <= j < i implies #[trigger] items_view(r@)[j] == without_icon(
            entries@[j].item@,
        ) by {
            if j < i - 1 {
                assert(r@[j] == before[j]);
                assert(items_view(before)[j] == without_icon(entries@[j].item@));
            }
        }
        assert(items_view(r@) =~= Seq::new(i as nat, |j: int| without_icon(entries@[j].item@)));
    }
    r
}

/// A Start Menu shortcut that points at an executable.
pub struct ScannedApp {
    pub id: String,
    pub name: String,
    pub target: String,
    pub icon_location: String,
    pub icon_index: i32,
}

/// A shortcut becomes an app when its target is an executable: named after
/// the shortcut's file, running the target, with the shortcut's icon or else
/// the target's.
pub fn scanned_app_from_link(
    id: String,
    file_stem: String,
    target: String,
    target_is_exe: bool,
    icon_location: Option<String>,
    icon_index: i32,
) -> (r: Option<ScannedApp>)
    ensures
        target_is_exe <==> r is Some,
        r matches Some(app) ==> {
            &&& app.id@ == id@
            &&& app.name@ == file_stem@
            &&& app.target@ == target@
            &&& app.icon_location@ == (match icon_location {
                Some(l) => l@,
                None => target@,
            })
            &&& app.icon_index == icon_index
        },
{
    if !target_is_exe {
        return None;
    }
    let icon_location = match icon_location {
        Some(l) => l,
        None => target.clone(),
    };
    Some(ScannedApp { id, name: file_stem, target, icon_location, icon_index })
}

/// The digest that a fresh `DefaultHasher` gives after hashing
/// `Path::new(path)`.
pub uninterp spec fn path_hash(path: Seq<char>) -> u64;

/// The digest that a fresh `DefaultHasher` gives after hashing the three
/// strings in turn.
pub uninterp spec fn reg_hash(display_icon: Seq<char>, install_location: Seq<char>, name: Seq<char>) -> u64;

/// The digest that a fresh `DefaultHasher` gives after hashing
/// `Path::new(path)` and then `index`.
pub uninterp spec fn icon_hash(path: Seq<char>, index: i32) -> u64;

/// `DefaultHasher::new()`, `Path::new(path).hash(..)`, `finish()`. A new
/// `DefaultHasher` always starts from the same keys (it is not seeded per
/// process), so the digest is a function of the path alone; which number it
/// is (SipHash over the path's components, in this platform's path syntax) is
/// left unsaid.
#[verifier::external_body]
fn hash_path(path: &str) -> (h: u64)
    ensures
        h == path_hash(path@),
{
    let mut state = DefaultHasher::new();
    std::path::Path::new(path).hash(&mut state);
    state.finish()
}

/// `DefaultHasher::new()`, then `Hash::hash` of each string slice in turn,
/// then `finish()`. The digest is a function of the three strings; its value
/// is left unsaid.
#[verifier::external_body]
fn hash_strs(display_icon: &str, install_location: &str, name: &str) -> (h: u64)
    ensures
        h == reg_hash(display_icon@, install_location@, name@),
{
    let mut state = DefaultHasher::new();
    display_icon.hash(&mut state);
    install_location.hash(&mut state);
    name.hash(&mut state);
    state.finish()
}

/// `DefaultHasher::new()`, `Path::new(path).hash(..)`, `index.hash(..)`,
/// `finish()`. The digest is a function of the path and the index (an `i32`
/// is hashed in this machine's byte order); its value is left unsaid.
#[verifier::external_body]
fn hash_path_and_index(path: &str, index: i32) -> (h: u64)
    ensures
        h == icon_hash(path@, index),
{
    let mut state = DefaultHasher::new();
    std::path::Path::new(path).hash(&mut state);
    index.hash(&mut state);
    state.finish()
}

/// Make an ID for a scanned app from its path: the path's hash as sixteen
/// hexadecimal digits.
pub fn make_id(path: &str) -> (id: String)
    ensures
        id@ == hex_digits(path_hash(path@) as nat, 16),
{
    hex16(hash_path(path))
}

/// The ID of an app found in the registry: `reg-` and sixteen hexadecimal
/// digits of the hash of its display icon, install location and name.
pub fn make_registry_id(display_icon: &str, install_location: &str, name: &str) -> (id: String)
    ensures
        id@ == "reg-"@ + hex_digits(reg_hash(display_icon@, install_location@, name@) as nat, 16),
{
    let digits = hex16(hash_strs(display_icon, install_location, name));
    let mut id = String::from_str("reg-");
    id.append(digits.as_str());
    id
}

/// The name of the cached icon image of the icon `index` in the file at
/// `path`: the hash of both in hexadecimal, then `.png`.
pub fn icon_cache_file_name(path: &str, index: i32) -> (name: String)
    ensures
        name@ == crate::text::hex_minimal(icon_hash(path@, index) as nat) + ".png"@,
{
    let mut name = crate::text::hex_lower_string(hash_path_and_index(path, index));
    name.append(".png");
    name
}

/// The position of the last `c` in `s`.
pub open spec fn last_index_of(s: Seq<char>, c: char) -> Option<int>
    decreases s.len(),
{
    if s.len() == 0 {
        None
    } else if s.last() == c {
        Some(s.len() - 1)
    } else {
        last_index_of(s.drop_last(), c)
    }
}

proof fn lemma_last_index_of(s: Seq<char>, c: char)
    ensures
        match last_index_of(s, c) {
            Some(k) => 0 <= k < s.len() && s[k] == c,
            None => true,
        },
    decreases s.len(),
{
    if s.len() > 0 && s.last() != c {
        lemma_last_index_of(s.drop_last(), c);
    }
}

/// The icon file and index that a `DisplayIcon` value names (after its
/// environment variables are expanded): `file,index` when the text after the
/// last comma is an integer, else the whole value with index 0; both parts
/// trimmed.
pub open spec fn display_icon_parts(e: Seq<char>) -> (Seq<char>, i32) {
    match last_index_of(e, ',') {
        Some(c) => match parse_i32(trim(e.skip(c + 1))) {
            Some(i) => (trim(e.take(c)), i),
            None => (trim(e), 0),
        },
        None => (trim(e), 0),
    }
}

/// Parse a `DisplayIcon` registry value like `C:\app.exe,0` or
/// `C:\Windows\system32\imageres.dll,-12`, given with its environment
/// variables already expanded.
pub fn parse_display_icon(expanded: &str) -> (r: (String, i32))
    ensures
        (r.0@, r.1) == display_icon_parts(expanded@),
{
    let v = chars_of(expanded);
    let n = v.len();
    let mut k: usize = n;
    assert(expanded@.take(n as int) =~= expanded@);
    while k > 0 && v[k - 1] != ','
        invariant
            v@ == expanded@,
            n == v@.len(),
            k <= n,
            last_index_of(expanded@, ',') == last_index_of(expanded@.take(k as int), ','),
        decreases k,
    {
        proof {
            assert(expanded@.take(k as int).drop_last() =~= expanded@.take(k - 1));
        }
        k = k - 1;
    }
    proof {
        if k > 0 {
            assert(expanded@.take(k as int).last() == ',');
        } else {
            assert(expanded@.take(0) =~= Seq::<char>::empty());
        }
    }
    if k > 0 {
        let comma = k - 1;
        let after = expanded.substring_char(comma + 1, n);
        let head = expanded.substring_char(0, comma);
        assert(after@ =~= expanded@.skip(comma + 1));
        assert(head@ =~= expanded@.take(comma as int));
        if let Some(index) = parse_i32_str(trim_str(after)) {
            return (trim_str(head).to_owned(), index);
        }
    }
    (trim_str(expanded).to_owned(), 0)
}

/// What `Path::new(path).extension()` gives, as text.
pub uninterp spec fn path_extension_of(path: Seq<char>) -> Option<Seq<char>>;

/// `Path::extension` of `path`: the part of its file name after the last
/// dot, if any. It depends on the path alone; where the file name starts and
/// which dots count is the platform's path syntax and is left unsaid.
#[verifier::external_body]
fn path_extension(path: &str) -> (r: Option<String>)
    ensures
        opt_view(r) == path_extension_of(path@),
{
    match std::path::Path::new(path).extension() {
        Some(e) => Some(e.to_string_lossy().into_owned()),
        None => None,
    }
}

/// `e` is `exe` up to ASCII case.
pub open spec fn is_exe_extension(e: Seq<char>) -> bool {
    &&& e.len() == 3
    &&& (e[0] == 'e' || e[0] == 'E')
    &&& (e[1] == 'x' || e[1] == 'X')
    &&& (e[2] == 'e' || e[2] == 'E')
}

/// `path` names an executable: its extension is `exe` in any ASCII case.
pub open spec fn names_exe(path: Seq<char>) -> bool {
    match path_extension_of(path) {
        Some(e) => is_exe_extension(e),
        None => false,
    }
}

/// Whether `path` names an executable: its extension is `exe`, compared
/// without regard to ASCII case.
pub fn is_exe_path(path: &str) -> (r: bool)
    ensures
        r == names_exe(path@),
{
    match path_extension(path) {
        Some(e) => {
            let v = chars_of(e.as_str());
            v.len() == 3 && (v[0] == 'e' || v[0] == 'E') && (v[1] == 'x' || v[1] == 'X') && (
            v[2] == 'e' || v[2] == 'E')
        },
        None => false,
    }
}

/// The launch target that a `DisplayIcon` value gives (after its
/// environment variables are expanded): the icon file it names, when that
/// file is an executable.
pub open spec fn display_icon_launch_target(expanded: Seq<char>) -> Option<Seq<char>> {
    let file = display_icon_parts(expanded).0;
    if names_exe(file) {
        Some(file)
    } else {
        None
    }
}

/// The first way of finding what an uninstall entry launches: the file that
/// its `DisplayIcon` names, if that is an `.exe`.
pub fn display_icon_target(expanded: &str) -> (r: Option<String>)
    ensures
        opt_view(r) == display_icon_launch_target(expanded@),
{
    let (file, _index) = parse_display_icon(expanded);
    if is_exe_path(file.as_str()) {
        Some(file)
    } else {
        None
    }
}

/// The display name under which an uninstall entry is listed: its trimmed
/// `DisplayName`, unless that is missing or blank, the entry is a system
/// component, or it is an update of another product.
pub open spec fn accepted_name(
    display_name: Option<Seq<char>>,
    system_component: Option<u32>,
    has_parent: bool,
) -> Option<Seq<char>> {
    match display_name {
        None => None,
        Some(n) => if trim(n).len() == 0 || (match system_component {
            Some(v) => v != 0,
            None => false,
        }) || has_parent {
            None
        } else {
            Some(trim(n))
        },
    }
}

/// Filters an uninstall entry by its `DisplayName`, `SystemComponent` and
/// whether it has a `ParentDisplayName`.
pub fn accept_uninstall_entry(
    display_name: Option<&str>,
    system_component: Option<u32>,
    has_parent: bool,
) -> (r: Option<String>)
    ensures
        opt_view(r) == accepted_name(
            match display_name {
                Some(n) => Some(n@),
                None => None,
            },
            system_component,
            has_parent,
        ),
{
    let name = match display_name {
        Some(n) => n,
        None => return None,
    };
    let trimmed = trim_str(name);
    if trimmed.is_empty() {
        return None;
    }
    let is_system = match system_component {
        Some(v) => v,
        None => 0,
    };
    if is_system != 0 {
        return None;
    }
    if has_parent {
        return None;
    }
    Some(trimmed.to_owned())
}

/// The view of an optional string.
pub open spec fn opt_view(s: Option<String>) -> Option<Seq<char>> {
    crate::types::opt_string_view(s)
}

/// The executable names probed in an install location for an app called
/// `name`: `<name>.exe`, then `<name without spaces>.exe`.
pub fn exe_candidates(name: &str) -> (r: Vec<String>)
    ensures
        r@.len() == 2,
        r@[0]@ == name@ + ".exe"@,
        r@[1]@ == name@.filter(|c: char| c != ' ') + ".exe"@,
{
    let mut first = String::from_str(name);
    first.append(".exe");
    let v = chars_of(name);
    let mut kept: Vec<char> = Vec::new();
    let mut i: usize = 0;
    while i < v.len()
        invariant
            v@ == name@,
            i <= v@.len(),
            kept@ == name@.take(i as int).filter(|c: char| c != ' '),
        decreases v.len() - i,
    {
        proof {
            reveal_with_fuel(Seq::<_>::filter, 1);
            assert(name@.take(i + 1).drop_last() =~= name@.take(i as int));
        }
        if v[i] != ' ' {
            kept.push(v[i]);
        }
        i = i + 1;
    }
    assert(name@.take(v@.len() as int) =~= name@);
    let mut second = string_from_chars(kept);
    second.append(".exe");
    vec![first, second]
}

/// The lower-cased names already listed, so that an app is listed once.
pub struct NameSet {
    pub names: Vec<String>,
}

impl NameSet {
    pub open spec fn contents(&self) -> Seq<Seq<char>> {
        crate::types::strings_view(self.names@)
    }

    pub fn new() -> (r: Self)
        ensures
            r.contents() == Seq::<Seq<char>>::empty(),
    {
        NameSet { names: Vec::new() }
    }

    /// Records `name` lower-cased; says whether it was new.
    pub fn insert_lowercase(&mut self, name: &str) -> (added: bool)
        requires
            old(self).contents().no_duplicates(),
        ensures
            final(self).contents().no_duplicates(),
            added == !old(self).contents().contains(crate::text::lowercase(name@)),
            added ==> final(self).contents() == old(self).contents().push(crate::text::lowercase(name@)),
            !added ==> final(self).contents() == old(self).contents(),
    {
        let lower = to_lowercase(name);
        let mut k: usize = 0;
        while k < self.names.len()
            invariant
                k <= self.names@.len(),
                self.contents() == old(self).contents(),
                old(self).contents().no_duplicates(),
                lower@ == crate::text::lowercase(name@),
                forall|j: int| 0 <= j < k ==> #[trigger] self.contents()[j] != lower@,
            decreases self.names.len() - k,
        {
            if self.names[k] == lower {
                assert(self.contents()[k as int] == lower@);
                return false;
            }
            k = k + 1;
        }
        let ghost before = self.contents();
        self.names.push(lower);
        assert(self.contents() =~= before.push(crate::text::lowercase(name@)));
        true
    }
}

/// The item of a Start Menu app: an app that runs its shortcut's target.
pub open spec fn start_menu_item(app_id: Seq<char>, name: Seq<char>, target: Seq<char>) -> ItemView {
    ItemView {
        id: app_id,
        name: name,
        kind: Kind::App,
        icon_path: None,
        running_command: Some(crate::types::RunCommandView { command: target, args: Seq::empty() }),
    }
}

/// The scan entry of a Start Menu app: its item, and the icon named by the
/// shortcut.
pub fn start_menu_entry(app: &ScannedApp) -> (e: ScanEntry)
    ensures
        e.item@ == start_menu_item(app.id@, app.name@, app.target@),
        e.icon_location@ == app.icon_location@,
        e.icon_index == app.icon_index,
{
    let args: Vec<String> = Vec::new();
    assert(crate::types::strings_view(args@) =~= Seq::<Seq<char>>::empty());
    ScanEntry {
        item: Item {
            id: app.id.clone(),
            name: app.name.clone(),
            kind: Kind::App,
            icon_path: None,
            running_command: Some(RunCommand { command: app.target.clone(), args }),
        },
        icon_location: app.icon_location.clone(),
        icon_index: app.icon_index,
    }
}

/// The entries of the Start Menu apps, in order; each app's lower-cased name
/// is recorded so that the registry does not list it again.
pub fn start_menu_entries(apps: &Vec<ScannedApp>, names: &mut NameSet) -> (r: Vec<ScanEntry>)
    requires
        old(names).contents().no_duplicates(),
    ensures
        final(names).contents().no_duplicates(),
        r@.len() == apps@.len(),
        forall|k: int|
            0 <= k < apps@.len() ==> #[trigger] r@[k].item@ == start_menu_item(
                apps@[k].id@,
                apps@[k].name@,
                apps@[k].target@,
            ) && r@[k].icon_location@ == apps@[k].icon_location@ && r@[k].icon_index
                == apps@[k].icon_index,
        forall|k: int|
            0 <= k < apps@.len() ==> final(names).contents().contains(
                crate::text::lowercase(#[trigger] apps@[k].name@),
            ),
        forall|n: Seq<char>| old(names).contents().contains(n) ==> final(names).contents().contains(n),
{
    let mut r: Vec<ScanEntry> = Vec::new();
    let mut i: usize = 0;
    while i < apps.len()
        invariant
            i <= apps@.len(),
            names.contents().no_duplicates(),
            r@.len() == i,
            forall|k: int|
                0 <= k < i ==> #[trigger] r@[k].item@ == start_menu_item(
                    apps@[k].id@,
                    apps@[k].name@,
                    apps@[k].target@,
                ) && r@[k].icon_location@ == apps@[k].icon_location@ && r@[k].icon_index
                    == apps@[k].icon_index,
            forall|k: int|
                0 <= k < i ==> names.contents().contains(
                    crate::text::lowercase(#[trigger] apps@[k].name@),
                ),
            forall|n: Seq<char>| old(names).contents().contains(n) ==> names.contents().contains(n),
        decreases apps.len() - i,
    {
        let ghost before = names.contents();
        names.insert_lowercase(apps[i].name.as_str());
        proof {
            assert forall|n: Seq<char>| before.contains(n) implies names.contents().contains(n) by {
                if names.contents() != before {
                    let j = choose|j: int| 0 <= j < before.len() && before[j] == n;
                    assert(names.contents()[j] == n);
                }
            }
            if names.contents() != before {
                assert(names.contents()[before.len() as int] == crate::text::lowercase(apps@[i as int].name@));
            }
        }
        r.push(start_menu_entry(&apps[i]));
        i = i + 1;
    }
    r
}

/// The scan entry of an app from the registry: an app that runs
/// `launch_target`, whose icon is the one its `DisplayIcon` names (given
/// expanded), or else the first icon of the target.
pub fn registry_entry(
    id: String,
    display_name: String,
    launch_target: String,
    display_icon: Option<&str>,
) -> (e: ScanEntry)
    ensures
        e.item@ == start_menu_item(id@, display_name@, launch_target@),
        match display_icon {
            Some(v) => (e.icon_location@, e.icon_index) == display_icon_parts(v@),
            None => e.icon_location@ == launch_target@ && e.icon_index == 0,
        },
{
    let (icon_location, icon_index) = match display_icon {
        Some(v) => parse_display_icon(v),
        None => (launch_target.clone(), 0),
    };
    let args: Vec<String> = Vec::new();
    assert(crate::types::strings_view(args@) =~= Seq::<Seq<char>>::empty());
    ScanEntry {
        item: Item {
            id,
            name: display_name,
            kind: Kind::App,
            icon_path: None,
            running_command: Some(RunCommand { command: launch_target, args }),
        },
        icon_location,
        icon_index,
    }
}

/// The ID of a registry app: `reg-` and the hash of its raw `DisplayIcon`,
/// its `InstallLocation` (each empty when missing) and its display name.
pub open spec fn registry_id(
    display_icon: Option<Seq<char>>,
    install_location: Option<Seq<char>>,
    name: Seq<char>,
) -> Seq<char> {
    "reg-"@ + hex_digits(
        reg_hash(
            match display_icon {
                Some(v) => v,
                None => ""@,
            },
            match install_location {
                Some(v) => v,
                None => ""@,
            },
            name,
        ) as nat,
        16,
    )
}

/// The view of an optional string slice.
pub open spec fn opt_str_view(s: Option<&str>) -> Option<Seq<char>> {
    match s {
        Some(v) => Some(v@),
        None => None,
    }
}

/// One accepted uninstall entry, once its launch target has been looked
/// for: without a target nothing happens; otherwise its name is recorded
/// lower-cased, and only a name not listed before adds an entry, which runs
/// the target and carries the icon that the expanded `DisplayIcon` names.
pub fn add_registry_record(
    results: &mut Vec<ScanEntry>,
    names: &mut NameSet,
    display_name: String,
    launch_target: Option<String>,
    display_icon: Option<&str>,
    install_location: Option<&str>,
    expanded_icon: Option<&str>,
) -> (added: bool)
    requires
        old(names).contents().no_duplicates(),
    ensures
        final(names).contents().no_duplicates(),
        launch_target is None ==> !added && final(names).contents() == old(names).contents(),
        added == (launch_target is Some && !old(names).contents().contains(
            crate::text::lowercase(display_name@),
        )),
        launch_target is Some && added ==> final(names).contents() == old(names).contents().push(
            crate::text::lowercase(display_name@),
        ),
        launch_target is Some && !added ==> final(names).contents() == old(names).contents(),
        !added ==> final(results)@ == old(results)@,
        added ==> {
            &&& final(results)@.len() == old(results)@.len() + 1
            &&& final(results)@.take(old(results)@.len() as int) == old(results)@
            &&& final(results)@.last().item@ == start_menu_item(
                registry_id(opt_str_view(display_icon), opt_str_view(install_location), display_name@),
                display_name@,
                launch_target->0@,
            )
            &&& match expanded_icon {
                Some(v) => (final(results)@.last().icon_location@, final(results)@.last().icon_index)
                    == display_icon_parts(v@),
                None => final(results)@.last().icon_location@ == launch_target->0@
                    && final(results)@.last().icon_index == 0,
            }
        },
{
    let target = match launch_target {
        Some(t) => t,
        None => return false,
    };
    if !names.insert_lowercase(display_name.as_str()) {
        return false;
    }
    let id = make_registry_id(
        match display_icon {
            Some(v) => v,
            None => "",
        },
        match install_location {
            Some(v) => v,
            None => "",
        },
        display_name.as_str(),
    );
    let entry = registry_entry(id, display_name, target, expanded_icon);
    let ghost before = results@;
    results.push(entry);
    assert(results@.take(before.len() as int) =~= before);
    true
}

} // verus!
