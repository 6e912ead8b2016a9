//! Key bindings, shared by the help screen, the status bar and the key handlers.
use vstd::prelude::*;

verus! {

/// Group of a key binding.
#[derive(Clone, Copy, Debug, PartialEq, Eq, Structural)]
pub enum KeyCategory {
    Navigation,
    Actions,
    System,
}

impl KeyCategory {
    /// Heading of the group.
    pub fn title(&self) -> (r: &'static str)
        ensures
            r@ == (match *self {
                KeyCategory::Navigation => "Navigation"@,
                KeyCategory::Actions => "Actions"@,
                KeyCategory::System => "System"@,
            }),
    {
        match self {
            KeyCategory::Navigation => "Navigation",
            KeyCategory::Actions => "Actions",
            KeyCategory::System => "System",
        }
    }
}

/// A key and what it does.
#[derive(Clone, Copy, Debug)]
pub struct KeyBinding {
    pub key: &'static str,
    pub description: &'static str,
    pub category: KeyCategory,
}

/// The key bindings, in the order shown in the help screen.
pub open spec fn spec_all_keybindings() -> Seq<(Seq<char>, Seq<char>, KeyCategory)> {
    seq![
        ("↑/k"@, "Move selection up"@, KeyCategory::Navigation),
        ("↓/j"@, "Move selection down"@, KeyCategory::Navigation),
        ("i"@, "Toggle interface view"@, KeyCategory::Navigation),
        ("l"@, "Cycle traffic view (All/Internet/Local)"@, KeyCategory::Navigation),
        ("Enter"@, "View interface details (in interface list)"@, KeyCategory::Navigation),
        ("Space"@, "Toggle interface filter (in interface list)"@, KeyCategory::Navigation),
        ("A"@, "Toggle All/None interfaces (in interface list)"@, KeyCategory::Navigation),
        ("t"@, "Throttle selected process"@, KeyCategory::Actions),
        ("r"@, "Remove throttle"@, KeyCategory::Actions),
        ("g"@, "Toggle bandwidth graph"@, KeyCategory::Actions),
        ("f"@, "Freeze/unfreeze sort order"@, KeyCategory::Actions),
        ("b"@, "View/switch backends"@, KeyCategory::System),
        ("h/?"@, "Toggle this help"@, KeyCategory::System),
        ("q/Esc"@, "Quit (or close modal if open)"@, KeyCategory::System),
        ("Ctrl+C"@, "Force quit (always exits)"@, KeyCategory::System),
    ]
}

/// The status bar's keys and labels, in order.
pub open spec fn spec_status_bar() -> Seq<(Seq<char>, Seq<char>)> {
    seq![
        ("↑↓"@, "Navigate"@),
        ("i"@, "Interfaces"@),
        ("l"@, "Traffic"@),
        ("t"@, "Throttle"@),
        ("f"@, "Freeze"@),
        ("b"@, "Backends"@),
        ("h"@, "Help"@),
        ("q/Ctrl+C"@, "Quit"@),
    ]
}

fn binding(key: &'static str, description: &'static str, category: KeyCategory) -> (r: KeyBinding)
    ensures
        r.key@ == key@ && r.description@ == description@ && r.category == category,
{
    KeyBinding { key, description, category }
}

/// All key bindings: navigation, then actions, then system keys.
pub fn get_all_keybindings() -> (r: Vec<KeyBinding>)
    ensures
        r@.len() == spec_all_keybindings().len(),
        forall|j: int|
            0 <= j < r@.len() ==> (#[trigger] r@[j]).key@ == spec_all_keybindings()[j].0
                && r@[j].description@ == spec_all_keybindings()[j].1 && r@[j].category
                == spec_all_keybindings()[j].2,
{
    let mut v: Vec<KeyBinding> = Vec::new();
    v.push(binding("↑/k", "Move selection up", KeyCategory::Navigation));
    v.push(binding("↓/j", "Move selection down", KeyCategory::Navigation));
    v.push(binding("i", "Toggle interface view", KeyCategory::Navigation));
    v.push(binding("l", "Cycle traffic view (All/Internet/Local)", KeyCategory::Navigation));
    v.push(binding("Enter", "View interface details (in interface list)", KeyCategory::Navigation));
    v.push(binding("Space", "Toggle interface filter (in interface list)", KeyCategory::Navigation));
    v.push(binding("A", "Toggle All/None interfaces (in interface list)", KeyCategory::Navigation));
    v.push(binding("t", "Throttle selected process", KeyCategory::Actions));
    v.push(binding("r", "Remove throttle", KeyCategory::Actions));
    v.push(binding("g", "Toggle bandwidth graph", KeyCategory::Actions));
    v.push(binding("f", "Freeze/unfreeze sort order", KeyCategory::Actions));
    v.push(binding("b", "View/switch backends", KeyCategory::System));
    v.push(binding("h/?", "Toggle this help", KeyCategory::System));
    v.push(binding("q/Esc", "Quit (or close modal if open)", KeyCategory::System));
    v.push(binding("Ctrl+C", "Force quit (always exits)", KeyCategory::System));
    v
}

/// The keys shown in the status bar, with their labels.
pub fn get_status_bar_keybindings() -> (r: Vec<(&'static str, &'static str)>)
    ensures
        r@.len() == spec_status_bar().len(),
        forall|j: int|
            0 <= j < r@.len() ==> (#[trigger] r@[j]).0@ == spec_status_bar()[j].0 && r@[j].1@
                == spec_status_bar()[j].1,
{
    let mut v: Vec<(&'static str, &'static str)> = Vec::new();
    v.push(("↑↓", "Navigate"));
    v.push(("i", "Interfaces"));
    v.push(("l", "Traffic"));
    v.push(("t", "Throttle"));
    v.push(("f", "Freeze"));
    v.push(("b", "Backends"));
    v.push(("h", "Help"));
    v.push(("q/Ctrl+C", "Quit"));
    v
}

} // verus!
