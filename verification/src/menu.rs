//! The tray-menu plan: a caption for the favorites section, one
//! interactive item per classified mode, separators, and a quit item.
//!
//! The plan is plain data. The binary walks it and adds one tray entry
//! per element; each interactive item carries the command its activation
//! must send, with the mode captured by value at build time.

use vstd::prelude::*;
use crate::label::{format_label, label_of};
use crate::modes::{Command, DisplayMode};

verus! {

/// One entry of the tray menu plan.
#[derive(Debug, PartialEq, Eq)]
pub enum MenuEntry {
    /// A non-interactive caption.
    Caption(String),
    /// A visual separator.
    Separator,
    /// An interactive item: its label and the command its activation
    /// sends to the control loop.
    Item(String, Command),
}

/// Whether `e` is a caption reading `text`.
pub open spec fn is_caption(e: MenuEntry, text: Seq<char>) -> bool {
    e matches MenuEntry::Caption(l) && l@ == text
}

/// Whether `e` is the interactive item for mode `m`: labelled
/// `"{width}x{height}@{refreshRate}"` and bound to switch to exactly `m`.
pub open spec fn is_mode_item(e: MenuEntry, m: DisplayMode) -> bool {
    e matches MenuEntry::Item(l, c) && l@ == label_of(m.width, m.height, m.refresh_rate)
        && c == Command::SwitchTo(m)
}

/// Whether `e` is the quit item.
pub open spec fn is_quit_item(e: MenuEntry) -> bool {
    e matches MenuEntry::Item(l, c) && l@ == "Quit"@ && c == Command::Quit
}

/// Builds the menu plan for the two classified buckets: the "Favorites"
/// caption, one item per favorite mode, a separator, one item per other
/// mode, a trailing separator, and the "Quit" item. Empty buckets are
/// valid and still yield a well-formed menu.
pub fn build_menu(favorites: &Vec<DisplayMode>, others: &Vec<DisplayMode>) -> (menu: Vec<
    MenuEntry,
>)
    ensures
        menu@.len() == favorites@.len() + others@.len() + 4,
        is_caption(menu@[0], "Favorites"@),
        forall|i: int|
            0 <= i < favorites@.len() ==> is_mode_item(#[trigger] menu@[1 + i], favorites@[i]),
        menu@[1 + favorites@.len() as int] is Separator,
        forall|i: int|
            0 <= i < others@.len() ==> is_mode_item(
                #[trigger] menu@[2 + favorites@.len() + i],
                others@[i],
            ),
        menu@[menu@.len() - 2] is Separator,
        is_quit_item(menu@[menu@.len() - 1]),
{
    let mut menu: Vec<MenuEntry> = Vec::new();
    menu.push(MenuEntry::Caption("Favorites".to_owned()));
    let mut i: usize = 0;
    while i < favorites.len()
        invariant
            i <= favorites.len(),
            menu@.len() == 1 + i,
            is_caption(menu@[0], "Favorites"@),
            forall|j: int| 0 <= j < i ==> is_mode_item(#[trigger] menu@[1 + j], favorites@[j]),
        decreases favorites.len() - i,
    {
        let m = favorites[i];
        let lbl = format_label(m.width, m.height, m.refresh_rate);
        menu.push(MenuEntry::Item(lbl, Command::SwitchTo(m)));
        i += 1;
    }
    menu.push(MenuEntry::Separator);
    let mut k: usize = 0;
    while k < others.len()
        invariant
            k <= others.len(),
            menu@.len() == 2 + favorites@.len() + k,
            is_caption(menu@[0], "Favorites"@),
            forall|j: int|
                0 <= j < favorites@.len() ==> is_mode_item(#[trigger] menu@[1 + j], favorites@[j]),
            menu@[1 + favorites@.len() as int] is Separator,
            forall|j: int|
                0 <= j < k ==> is_mode_item(#[trigger] menu@[2 + favorites@.len() + j], others@[j]),
        decreases others.len() - k,
    {
        let m = others[k];
        let lbl = format_label(m.width, m.height, m.refresh_rate);
        menu.push(MenuEntry::Item(lbl, Command::SwitchTo(m)));
        k += 1;
    }
    menu.push(MenuEntry::Separator);
    menu.push(MenuEntry::Item("Quit".to_owned(), Command::Quit));
    menu
}

} // verus!
