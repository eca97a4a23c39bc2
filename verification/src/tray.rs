//! The tray menu: its layout, and what a click on one of its items asks for.
use vstd::prelude::*;

use crate::ids::{read_uuid, uuid_parse, uuid_text, write_uuid};
use crate::text::{concat_text, same_text, starts_with_text};
use vstd::string::StrSliceExecFns;

verus! {

/// What a click on a tray menu item asks for.
#[derive(Clone, Copy, Debug, PartialEq, Eq, Structural)]
pub enum MenuAction {
    /// Show the window, or hide it if it is visible.
    ToggleWindow,
    /// Quit the application.
    Exit,
    /// Connect the tunnel, or disconnect it if it is connected.
    ToggleTunnel(u128),
    /// An item the application does not know: nothing happens.
    Nothing,
}

/// The id of the show/hide item.
pub open spec fn toggle_window_text() -> Seq<char> {
    "toggle-window"@
}

/// The id of the exit item.
pub open spec fn exit_text() -> Seq<char> {
    "exit"@
}

/// The prefix of a tunnel item's id, which the tunnel's identifier follows.
pub open spec fn tunnel_prefix_text() -> Seq<char> {
    "tunnel:"@
}

/// The action a menu item id stands for.
pub open spec fn menu_action_of(id: Seq<char>) -> MenuAction {
    let prefix = tunnel_prefix_text();
    if id == toggle_window_text() {
        MenuAction::ToggleWindow
    } else if id == exit_text() {
        MenuAction::Exit
    } else if prefix.len() <= id.len() && id.subrange(0, prefix.len() as int) == prefix {
        match uuid_parse(id.subrange(prefix.len() as int, id.len() as int)) {
            Some(tunnel) => MenuAction::ToggleTunnel(tunnel),
            None => MenuAction::Nothing,
        }
    } else {
        MenuAction::Nothing
    }
}

/// The action the menu item with id `id` stands for.
pub fn menu_action(id: &str) -> (action: MenuAction)
    ensures
        action == menu_action_of(id@),
{
    proof {
        reveal_strlit("toggle-window");
        reveal_strlit("exit");
        reveal_strlit("tunnel:");
    }
    if same_text(id, "toggle-window") {
        MenuAction::ToggleWindow
    } else if same_text(id, "exit") {
        MenuAction::Exit
    } else if starts_with_text(id, "tunnel:") {
        let rest = id.substring_char(7, id.unicode_len());
        match read_uuid(rest) {
            Some(tunnel) => MenuAction::ToggleTunnel(tunnel),
            None => MenuAction::Nothing,
        }
    } else {
        MenuAction::Nothing
    }
}

/// The id of the menu item of tunnel `tunnel_id`. A click on it toggles that tunnel.
pub fn tunnel_menu_id(tunnel_id: u128) -> (id: String)
    ensures
        id@ == tunnel_prefix_text() + uuid_text(tunnel_id),
        menu_action_of(id@) == MenuAction::ToggleTunnel(tunnel_id),
{
    let text = write_uuid(tunnel_id);
    let id = concat_text("tunnel:", text.as_str());
    proof {
        reveal_strlit("toggle-window");
        reveal_strlit("exit");
        reveal_strlit("tunnel:");
        let prefix = tunnel_prefix_text();
        assert(id@[1] == 'u');
        assert(toggle_window_text()[1] == 'o');
        assert(id@[0] == 't');
        assert(exit_text()[0] == 'e');
        assert(id@.subrange(0, prefix.len() as int) =~= prefix);
        assert(id@.subrange(prefix.len() as int, id@.len() as int) =~= uuid_text(tunnel_id));
    }
    id
}

/// A tunnel as the tray lists it.
#[derive(Debug)]
pub struct TrayTunnel {
    pub id: u128,
    pub name: String,
    pub connected: bool,
}

/// One entry of the tray menu.
#[derive(Debug)]
pub enum MenuEntry {
    /// A plain item.
    Item { id: String, label: String },
    /// An item with a check mark.
    Check { id: String, label: String, checked: bool },
    /// A separator line.
    Separator,
}

/// The value of a `MenuEntry`.
pub enum MenuEntrySpec {
    Item { id: Seq<char>, label: Seq<char> },
    Check { id: Seq<char>, label: Seq<char>, checked: bool },
    Separator,
}

impl View for MenuEntry {
    type V = MenuEntrySpec;

    open spec fn view(&self) -> MenuEntrySpec {
        match self {
            MenuEntry::Item { id, label } => MenuEntrySpec::Item { id: id@, label: label@ },
            MenuEntry::Check { id, label, checked } => MenuEntrySpec::Check { id: id@, label: label@, checked: *checked },
            MenuEntry::Separator => MenuEntrySpec::Separator,
        }
    }
}

/// The values of a list of menu entries.
pub open spec fn entry_specs(es: Seq<MenuEntry>) -> Seq<MenuEntrySpec> {
    es.map_values(|e: MenuEntry| e@)
}

/// The checked item of one tunnel: its id, its name, checked while it is connected.
pub open spec fn tunnel_entry(t: TrayTunnel) -> MenuEntrySpec {
    MenuEntrySpec::Check { id: tunnel_prefix_text() + uuid_text(t.id), label: t.name@, checked: t.connected }
}

/// The tray menu: show/hide and a separator; then one checked item per tunnel and a
/// separator, where there are tunnels; then exit.
pub open spec fn menu_layout(tunnels: Seq<TrayTunnel>) -> Seq<MenuEntrySpec> {
    let head = seq![
        MenuEntrySpec::Item { id: toggle_window_text(), label: "Show/Hide"@ },
        MenuEntrySpec::Separator,
    ];
    let middle = if tunnels.len() == 0 {
        Seq::empty()
    } else {
        tunnels.map_values(|t: TrayTunnel| tunnel_entry(t)).push(MenuEntrySpec::Separator)
    };
    head + middle + seq![MenuEntrySpec::Item { id: exit_text(), label: "Exit"@ }]
}

/// The entries of the tray menu for `tunnels`, in order.
pub fn tray_menu(tunnels: &Vec<TrayTunnel>) -> (menu: Vec<MenuEntry>)
    ensures
        entry_specs(menu@) == menu_layout(tunnels@),
        menu@.len() == if tunnels@.len() == 0 { 3 } else { tunnels@.len() + 4 },
        forall|i: int| 0 <= i < tunnels@.len() ==> #[trigger] menu@[2 + i]@ == (MenuEntrySpec::Check {
            id: tunnel_prefix_text() + uuid_text(tunnels@[i].id),
            label: tunnels@[i].name@,
            checked: tunnels@[i].connected,
        }),
{
    let mut menu: Vec<MenuEntry> = Vec::new();
    menu.push(MenuEntry::Item { id: "toggle-window".to_owned(), label: "Show/Hide".to_owned() });
    menu.push(MenuEntry::Separator);
    let n = tunnels.len();
    let ghost head = entry_specs(menu@);
    assert(head =~= seq![
        MenuEntrySpec::Item { id: toggle_window_text(), label: "Show/Hide"@ },
        MenuEntrySpec::Separator,
    ]);
    for i in 0..n
        invariant
            n == tunnels@.len(),
            menu@.len() == 2 + i,
            entry_specs(menu@) == head + tunnels@.take(i as int).map_values(|t: TrayTunnel| tunnel_entry(t)),
    {
        let t = &tunnels[i];
        let entry = MenuEntry::Check { id: tunnel_menu_id(t.id), label: t.name.clone(), checked: t.connected };
        let ghost prev = menu@;
        menu.push(entry);
        assert(entry_specs(menu@) =~= entry_specs(prev).push(tunnel_entry(tunnels@[i as int])));
        assert(tunnels@.take(i + 1).map_values(|t: TrayTunnel| tunnel_entry(t)) =~= tunnels@.take(i as int).map_values(
            |t: TrayTunnel| tunnel_entry(t),
        ).push(tunnel_entry(tunnels@[i as int])));
    }
    assert(tunnels@.take(n as int) == tunnels@);
    let ghost mapped = tunnels@.map_values(|t: TrayTunnel| tunnel_entry(t));
    let ghost middle = if n == 0 { Seq::<MenuEntrySpec>::empty() } else { mapped.push(MenuEntrySpec::Separator) };
    if n > 0 {
        let ghost prev = menu@;
        menu.push(MenuEntry::Separator);
        assert(entry_specs(menu@) =~= entry_specs(prev).push(MenuEntrySpec::Separator));
    }
    assert(entry_specs(menu@) =~= head + middle);
    let ghost prev = menu@;
    let exit = MenuEntry::Item { id: "exit".to_owned(), label: "Exit".to_owned() };
    assert(exit@ == MenuEntrySpec::Item { id: exit_text(), label: "Exit"@ });
    menu.push(exit);
    assert(entry_specs(menu@) =~= entry_specs(prev).push(exit@));
    assert(entry_specs(menu@) =~= menu_layout(tunnels@));
    proof {
        lemma_one_item_per_tunnel(tunnels@);
        assert forall|i: int| 0 <= i < tunnels@.len() implies #[trigger] menu@[2 + i]@ == (MenuEntrySpec::Check {
            id: tunnel_prefix_text() + uuid_text(tunnels@[i].id),
            label: tunnels@[i].name@,
            checked: tunnels@[i].connected,
        }) by {
            assert(entry_specs(menu@)[2 + i] == menu@[2 + i]@);
        }
    }
    menu
}

/// The tray menu has one checked item per tunnel, in the tunnels' order, between
/// show/hide and exit: the item of tunnel `i` is at `2 + i`, named by the tunnel's id,
/// labelled with its name and checked while it is connected.
pub proof fn lemma_one_item_per_tunnel(tunnels: Seq<TrayTunnel>)
    ensures
        menu_layout(tunnels).len() == if tunnels.len() == 0 { 3 } else { tunnels.len() + 4 },
        menu_layout(tunnels)[0] == (MenuEntrySpec::Item { id: toggle_window_text(), label: "Show/Hide"@ }),
        menu_layout(tunnels)[1] == MenuEntrySpec::Separator,
        forall|i: int| 0 <= i < tunnels.len() ==> #[trigger] menu_layout(tunnels)[2 + i] == (MenuEntrySpec::Check {
            id: tunnel_prefix_text() + uuid_text(tunnels[i].id),
            label: tunnels[i].name@,
            checked: tunnels[i].connected,
        }),
        tunnels.len() > 0 ==> menu_layout(tunnels)[tunnels.len() + 2int] == MenuEntrySpec::Separator,
        menu_layout(tunnels).last() == (MenuEntrySpec::Item { id: exit_text(), label: "Exit"@ }),
{
    let n = tunnels.len();
    let m = menu_layout(tunnels);
    let mapped = tunnels.map_values(|t: TrayTunnel| tunnel_entry(t));
    assert forall|i: int| 0 <= i < n implies #[trigger] m[2 + i] == (MenuEntrySpec::Check {
        id: tunnel_prefix_text() + uuid_text(tunnels[i].id),
        label: tunnels[i].name@,
        checked: tunnels[i].connected,
    }) by {
        assert(mapped[i] == tunnel_entry(tunnels[i]));
    }
}

} // verus!
