//! The command line and the interactive screen: bandwidth limits as typed,
//! the backend listing, and what each key does in each view.
use vstd::prelude::*;

use crate::backends::BackendPriority;
use crate::cgroup::{ends_with, strip_prefix};
use crate::parse::{parse_u64, spec_trim, spec_unsigned, trim};
use crate::process::{ThrottleLimit, TrafficType};
use crate::text::{push_char, push_u64, spec_decimal};

verus! {

/// `s` in uppercase, as `str::to_uppercase` gives it.
pub uninterp spec fn spec_to_uppercase(s: Seq<char>) -> Seq<char>;

/// `s` in uppercase.
///
/// Trusted: calls `str::to_uppercase`, which maps each character to its
/// Unicode uppercase; the result depends on the text alone.
#[verifier::external_body]
fn to_uppercase(s: &str) -> (r: String)
    ensures
        r@ == spec_to_uppercase(s@),
{
    s.to_uppercase()
}

/// Whether `c` is numeric, as `char::is_numeric` says.
pub uninterp spec fn spec_char_is_numeric(c: char) -> bool;

/// Whether `c` is numeric.
///
/// Trusted: calls `char::is_numeric`, which tests the character's Unicode
/// general category; the result depends on the character alone.
#[verifier::external_body]
fn char_is_numeric(c: char) -> (r: bool)
    ensures
        r == spec_char_is_numeric(c),
{
    c.is_numeric()
}

/// Whether `s` ends with `suffix`.
pub open spec fn spec_ends_with(s: Seq<char>, suffix: Seq<char>) -> bool {
    s.len() >= suffix.len() && s.subrange(s.len() - suffix.len(), s.len() as int) == suffix
}

/// A bandwidth limit as typed: a plain number of bytes, or a number (to be
/// read as a decimal fraction) and the unit it is multiplied by.
#[derive(Clone, Debug)]
pub enum LimitParts {
    Bytes(u64),
    Scaled { number: String, multiplier: u64 },
}

/// Why a typed limit was refused; carries the normalized text.
#[derive(Clone, Debug)]
pub enum LimitError {
    InvalidLimit(String),
}

/// The unit suffix of a normalized limit: its length and multiplier; `M`
/// and `MB` are mebibytes, `K` and `KB` kibibytes, `G` and `GB` gibibytes.
pub open spec fn spec_unit(u: Seq<char>) -> Option<(int, u64)> {
    if spec_ends_with(u, "M"@) || spec_ends_with(u, "MB"@) {
        Some((if spec_ends_with(u, "MB"@) { 2int } else { 1int }, 1048576u64))
    } else if spec_ends_with(u, "K"@) || spec_ends_with(u, "KB"@) {
        Some((if spec_ends_with(u, "KB"@) { 2int } else { 1int }, 1024u64))
    } else if spec_ends_with(u, "G"@) || spec_ends_with(u, "GB"@) {
        Some((if spec_ends_with(u, "GB"@) { 2int } else { 1int }, 1073741824u64))
    } else {
        None
    }
}

/// The limit text trimmed and in uppercase.
pub open spec fn spec_normalized(s: Seq<char>) -> Seq<char> {
    spec_to_uppercase(spec_trim(s))
}

/// Splits a typed limit (`1M`, `500K`, `1.5MB`, `2048`): after trimming
/// and uppercasing, a unit suffix leaves the number before it; without one
/// the whole text must be a byte count.
pub fn parse_bandwidth_limit_parts(limit_str: &str) -> (r: Result<LimitParts, LimitError>)
    ensures
        ({
            let u = spec_normalized(limit_str@);
            match spec_unit(u) {
                Some((k, m)) => r matches Ok(LimitParts::Scaled { number, multiplier }) && number@
                    == u.subrange(0, u.len() - k) && multiplier == m,
                None => match spec_unsigned(u) {
                    Some(v) => if v <= u64::MAX {
                        r matches Ok(LimitParts::Bytes(b)) && b == v
                    } else {
                        r matches Err(LimitError::InvalidLimit(t)) && t@ == u
                    },
                    None => r matches Err(LimitError::InvalidLimit(t)) && t@ == u,
                },
            }
        }),
{
    let u = to_uppercase(trim(limit_str));
    let us = u.as_str();
    let n = us.unicode_len();
    let m_unit = ends_with(us, "M") || ends_with(us, "MB");
    let k_unit = ends_with(us, "K") || ends_with(us, "KB");
    let g_unit = ends_with(us, "G") || ends_with(us, "GB");
    if m_unit || k_unit || g_unit {
        let (two, multiplier) = if m_unit {
            (ends_with(us, "MB"), 1048576u64)
        } else if k_unit {
            (ends_with(us, "KB"), 1024u64)
        } else {
            (ends_with(us, "GB"), 1073741824u64)
        };
        proof {
            reveal_strlit("M");
            reveal_strlit("MB");
            reveal_strlit("K");
            reveal_strlit("KB");
            reveal_strlit("G");
            reveal_strlit("GB");
        }
        let cut: usize = if two {
            2
        } else {
            1
        };
        let number = String::from_str(us.substring_char(0, n - cut));
        return Ok(LimitParts::Scaled { number, multiplier });
    }
    match parse_u64(us) {
        Some(v) => Ok(LimitParts::Bytes(v)),
        None => Err(LimitError::InvalidLimit(u)),
    }
}

/// Why the command-line mode refused to start.
#[derive(Clone, Copy, Debug, PartialEq, Eq, Structural)]
pub enum CliError {
    /// Neither a download nor an upload limit was given.
    NoLimit,
}

/// The throttle asked for on the command line: at least one limit is
/// needed; all traffic is throttled.
pub fn cli_limit(download_limit: Option<u64>, upload_limit: Option<u64>) -> (r: Result<ThrottleLimit, CliError>)
    ensures
        download_limit is None && upload_limit is None ==> r == Err::<ThrottleLimit, CliError>(
            CliError::NoLimit,
        ),
        !(download_limit is None && upload_limit is None) ==> r == Ok::<ThrottleLimit, CliError>(
            ThrottleLimit { download_limit, upload_limit, traffic_type: TrafficType::All },
        ),
{
    if download_limit.is_none() && upload_limit.is_none() {
        return Err(CliError::NoLimit);
    }
    Ok(ThrottleLimit { download_limit, upload_limit, traffic_type: TrafficType::All })
}

/// The name of a priority.
pub open spec fn spec_priority_name(p: BackendPriority) -> Seq<char> {
    match p {
        BackendPriority::Fallback => "Fallback"@,
        BackendPriority::Good => "Good"@,
        BackendPriority::Better => "Better"@,
        BackendPriority::Best => "Best"@,
    }
}

/// `s` padded with spaces to at least `width` characters.
pub open spec fn spec_padded(s: Seq<char>, width: nat) -> Seq<char> {
    if s.len() >= width {
        s
    } else {
        s + Seq::new((width - s.len()) as nat, |i: int| ' ')
    }
}

/// A line of the backend listing: the name in a column of twenty, the
/// priority, and whether the backend can be used.
pub open spec fn spec_backend_line(name: Seq<char>, p: BackendPriority, available: bool) -> Seq<char> {
    "  "@ + spec_padded(name, 20) + " [priority: "@ + spec_priority_name(p) + "] "@ + if available {
        "✅ available"@
    } else {
        "❌ unavailable"@
    }
}

/// A line of the backend listing.
pub fn backend_status_line(name: &str, priority: BackendPriority, available: bool) -> (r: String)
    ensures
        r@ == spec_backend_line(name@, priority, available),
{
    let mut s = String::from_str("  ");
    s.append(name);
    let n = name.unicode_len();
    let mut i: usize = n;
    while i < 20
        invariant
            n == name@.len(),
            n <= i <= 20 || (i == n && n > 20),
            s@ == "  "@ + name@ + Seq::new((i - n) as nat, |k: int| ' '),
        decreases 20 - i,
    {
        push_char(&mut s, ' ');
        i = i + 1;
        assert(s@ =~= "  "@ + name@ + Seq::new((i - n) as nat, |k: int| ' '));
    }
    proof {
        if n >= 20 {
            assert(Seq::new(0nat, |k: int| ' ') =~= Seq::<char>::empty());
            assert(s@ =~= "  "@ + spec_padded(name@, 20));
        } else {
            assert(s@ =~= "  "@ + spec_padded(name@, 20));
        }
    }
    s.append(" [priority: ");
    let pname = match priority {
        BackendPriority::Fallback => "Fallback",
        BackendPriority::Good => "Good",
        BackendPriority::Better => "Better",
        BackendPriority::Best => "Best",
    };
    s.append(pname);
    s.append("] ");
    if available {
        s.append("✅ available");
    } else {
        s.append("❌ unavailable");
    }
    s
}

/// The status line after an update: a throttle result stays; anything
/// else becomes the number of processes with network activity.
pub fn monitoring_status(current: &str, process_count: usize) -> (r: String)
    ensures
        (spec_starts_with(current@, "Throttle"@) || spec_starts_with(current@, "Failed"@)) ==> r@
            == current@,
        !(spec_starts_with(current@, "Throttle"@) || spec_starts_with(current@, "Failed"@)) ==> r@
            == "Monitoring "@ + spec_decimal(process_count as nat) + " process(es) with network activity"@,
{
    if strip_prefix(current, "Throttle").is_some() || strip_prefix(current, "Failed").is_some() {
        return String::from_str(current);
    }
    let mut s = String::from_str("Monitoring ");
    push_u64(&mut s, process_count as u64);
    s.append(" process(es) with network activity");
    s
}

/// Whether `s` starts with `prefix`.
pub open spec fn spec_starts_with(s: Seq<char>, prefix: Seq<char>) -> bool {
    s.len() >= prefix.len() && s.subrange(0, prefix.len() as int) == prefix
}

/// Which overlays of the screen are open.
#[derive(Clone, Copy, Debug, PartialEq, Eq, Structural)]
pub struct ViewModes {
    pub show_help: bool,
    pub show_backend_info: bool,
    pub show_graph: bool,
    pub show_throttle_dialog: bool,
    /// Whether the interface list is shown in place of the process list.
    pub show_interfaces: bool,
    /// Which traffic the rates show.
    pub traffic_view: TrafficType,
}

/// A key as the terminal reports it.
#[derive(Clone, Copy, Debug, PartialEq, Eq, Structural)]
pub enum KeyCode {
    Char(char),
    Esc,
    Tab,
    Backspace,
    Enter,
    Up,
    Down,
    Other,
}

/// A key press, with whether Control was held.
#[derive(Clone, Copy, Debug, PartialEq, Eq, Structural)]
pub struct KeyPress {
    pub code: KeyCode,
    pub ctrl: bool,
}

/// What a key press asks for.
#[derive(Clone, Copy, Debug, PartialEq, Eq, Structural)]
pub enum KeyAction {
    Quit,
    CloseHelp,
    CloseBackendInfo,
    CloseGraph,
    Ignore,
    CancelThrottleDialog,
    ToggleDialogField,
    DialogDigit(char),
    DialogBackspace,
    ApplyThrottle,
    ShowHelp,
    ToggleBackendInfo,
    ToggleSortFreeze,
    ToggleGraph,
    SelectNext,
    SelectPrevious,
    OpenThrottleDialog,
    RemoveThrottle,
    ToggleInterfaceView,
    CycleTrafficView,
    ViewInterfaceDetails,
    ToggleInterfaceFilter,
    ToggleAllInterfaces,
}

/// What a key does: Control-C always quits; an open help closes on any
/// key; the backend view closes on `b`, `q` or Escape, the graph on `g`,
/// `q` or Escape; the throttle dialog takes Escape, Tab, digits, Backspace
/// and Enter; otherwise the main view's keys apply, and in the interface
/// list Enter, Space and `A` act on interfaces.
pub open spec fn spec_key_action(modes: ViewModes, key: KeyPress) -> KeyAction {
    if key.ctrl && key.code == KeyCode::Char('c') {
        KeyAction::Quit
    } else if modes.show_help {
        KeyAction::CloseHelp
    } else if modes.show_backend_info {
        match key.code {
            KeyCode::Char('b') | KeyCode::Char('q') | KeyCode::Esc => KeyAction::CloseBackendInfo,
            _ => KeyAction::Ignore,
        }
    } else if modes.show_graph {
        match key.code {
            KeyCode::Char('g') | KeyCode::Char('q') | KeyCode::Esc => KeyAction::CloseGraph,
            _ => KeyAction::Ignore,
        }
    } else if modes.show_throttle_dialog {
        match key.code {
            KeyCode::Esc => KeyAction::CancelThrottleDialog,
            KeyCode::Tab => KeyAction::ToggleDialogField,
            KeyCode::Char(c) => if spec_char_is_numeric(c) {
                KeyAction::DialogDigit(c)
            } else {
                KeyAction::Ignore
            },
            KeyCode::Backspace => KeyAction::DialogBackspace,
            KeyCode::Enter => KeyAction::ApplyThrottle,
            _ => KeyAction::Ignore,
        }
    } else {
        match key.code {
            KeyCode::Char('q') | KeyCode::Esc => KeyAction::Quit,
            KeyCode::Char('h') | KeyCode::Char('?') => KeyAction::ShowHelp,
            KeyCode::Char('b') => KeyAction::ToggleBackendInfo,
            KeyCode::Char('f') => KeyAction::ToggleSortFreeze,
            KeyCode::Char('g') => KeyAction::ToggleGraph,
            KeyCode::Down | KeyCode::Char('j') => KeyAction::SelectNext,
            KeyCode::Up | KeyCode::Char('k') => KeyAction::SelectPrevious,
            KeyCode::Char('t') => KeyAction::OpenThrottleDialog,
            KeyCode::Char('r') => KeyAction::RemoveThrottle,
            KeyCode::Char('i') => KeyAction::ToggleInterfaceView,
            KeyCode::Char('l') => KeyAction::CycleTrafficView,
            KeyCode::Enter => if modes.show_interfaces {
                KeyAction::ViewInterfaceDetails
            } else {
                KeyAction::Ignore
            },
            KeyCode::Char(' ') => if modes.show_interfaces {
                KeyAction::ToggleInterfaceFilter
            } else {
                KeyAction::Ignore
            },
            KeyCode::Char('A') => if modes.show_interfaces {
                KeyAction::ToggleAllInterfaces
            } else {
                KeyAction::Ignore
            },
            _ => KeyAction::Ignore,
        }
    }
}

/// What a key does in the current view.
pub fn key_action(modes: &ViewModes, key: &KeyPress) -> (r: KeyAction)
    ensures
        r == spec_key_action(*modes, *key),
{
    if key.ctrl && key.code == KeyCode::Char('c') {
        return KeyAction::Quit;
    }
    if modes.show_help {
        return KeyAction::CloseHelp;
    }
    if modes.show_backend_info {
        return match key.code {
            KeyCode::Char('b') | KeyCode::Char('q') | KeyCode::Esc => KeyAction::CloseBackendInfo,
            _ => KeyAction::Ignore,
        };
    }
    if modes.show_graph {
        return match key.code {
            KeyCode::Char('g') | KeyCode::Char('q') | KeyCode::Esc => KeyAction::CloseGraph,
            _ => KeyAction::Ignore,
        };
    }
    if modes.show_throttle_dialog {
        return match key.code {
            KeyCode::Esc => KeyAction::CancelThrottleDialog,
            KeyCode::Tab => KeyAction::ToggleDialogField,
            KeyCode::Char(c) => if char_is_numeric(c) {
                KeyAction::DialogDigit(c)
            } else {
                KeyAction::Ignore
            },
            KeyCode::Backspace => KeyAction::DialogBackspace,
            KeyCode::Enter => KeyAction::ApplyThrottle,
            _ => KeyAction::Ignore,
        };
    }
    match key.code {
        KeyCode::Char('q') | KeyCode::Esc => KeyAction::Quit,
        KeyCode::Char('h') | KeyCode::Char('?') => KeyAction::ShowHelp,
        KeyCode::Char('b') => KeyAction::ToggleBackendInfo,
        KeyCode::Char('f') => KeyAction::ToggleSortFreeze,
        KeyCode::Char('g') => KeyAction::ToggleGraph,
        KeyCode::Down | KeyCode::Char('j') => KeyAction::SelectNext,
        KeyCode::Up | KeyCode::Char('k') => KeyAction::SelectPrevious,
        KeyCode::Char('t') => KeyAction::OpenThrottleDialog,
        KeyCode::Char('r') => KeyAction::RemoveThrottle,
        KeyCode::Char('i') => KeyAction::ToggleInterfaceView,
        KeyCode::Char('l') => KeyAction::CycleTrafficView,
        KeyCode::Enter => if modes.show_interfaces {
            KeyAction::ViewInterfaceDetails
        } else {
            KeyAction::Ignore
        },
        KeyCode::Char(' ') => if modes.show_interfaces {
            KeyAction::ToggleInterfaceFilter
        } else {
            KeyAction::Ignore
        },
        KeyCode::Char('A') => if modes.show_interfaces {
            KeyAction::ToggleAllInterfaces
        } else {
            KeyAction::Ignore
        },
        _ => KeyAction::Ignore,
    }
}

/// The overlays after an action: closing actions close their overlay, the
/// throttle dialog closes when cancelled or applied and opens only on a
/// selected process, help opens, the backend view, graph and interface
/// list toggle, and the traffic view cycles All, Internet, Local.
pub open spec fn spec_next_traffic_view(t: TrafficType) -> TrafficType {
    match t {
        TrafficType::All => TrafficType::Internet,
        TrafficType::Internet => TrafficType::Local,
        TrafficType::Local => TrafficType::All,
    }
}

/// The overlays and views after an action.
pub open spec fn spec_next_modes(modes: ViewModes, action: KeyAction, has_selection: bool) -> ViewModes {
    match action {
        KeyAction::ToggleInterfaceView => ViewModes { show_interfaces: !modes.show_interfaces, ..modes },
        KeyAction::CycleTrafficView => ViewModes {
            traffic_view: spec_next_traffic_view(modes.traffic_view),
            ..modes
        },
        KeyAction::CloseHelp => ViewModes { show_help: false, ..modes },
        KeyAction::CloseBackendInfo => ViewModes { show_backend_info: false, ..modes },
        KeyAction::CloseGraph => ViewModes { show_graph: false, ..modes },
        KeyAction::CancelThrottleDialog | KeyAction::ApplyThrottle => ViewModes {
            show_throttle_dialog: false,
            ..modes
        },
        KeyAction::ShowHelp => ViewModes { show_help: true, ..modes },
        KeyAction::ToggleBackendInfo => ViewModes { show_backend_info: !modes.show_backend_info, ..modes },
        KeyAction::ToggleGraph => ViewModes { show_graph: !modes.show_graph, ..modes },
        KeyAction::OpenThrottleDialog => if has_selection {
            ViewModes { show_throttle_dialog: true, ..modes }
        } else {
            modes
        },
        _ => modes,
    }
}

/// The overlays after an action.
pub fn next_modes(modes: &ViewModes, action: KeyAction, has_selection: bool) -> (r: ViewModes)
    ensures
        r == spec_next_modes(*modes, action, has_selection),
{
    let m = *modes;
    match action {
        KeyAction::ToggleInterfaceView => ViewModes { show_interfaces: !m.show_interfaces, ..m },
        KeyAction::CycleTrafficView => ViewModes {
            traffic_view: match m.traffic_view {
                TrafficType::All => TrafficType::Internet,
                TrafficType::Internet => TrafficType::Local,
                TrafficType::Local => TrafficType::All,
            },
            ..m
        },
        KeyAction::CloseHelp => ViewModes { show_help: false, ..m },
        KeyAction::CloseBackendInfo => ViewModes { show_backend_info: false, ..m },
        KeyAction::CloseGraph => ViewModes { show_graph: false, ..m },
        KeyAction::CancelThrottleDialog | KeyAction::ApplyThrottle => ViewModes {
            show_throttle_dialog: false,
            ..m
        },
        KeyAction::ShowHelp => ViewModes { show_help: true, ..m },
        KeyAction::ToggleBackendInfo => ViewModes { show_backend_info: !m.show_backend_info, ..m },
        KeyAction::ToggleGraph => ViewModes { show_graph: !m.show_graph, ..m },
        KeyAction::OpenThrottleDialog => if has_selection {
            ViewModes { show_throttle_dialog: true, ..m }
        } else {
            m
        },
        _ => m,
    }
}

/// Control-C quits whatever overlay is open.
pub proof fn lemma_ctrl_c_always_quits(modes: ViewModes)
    ensures
        spec_key_action(modes, KeyPress { code: KeyCode::Char('c'), ctrl: true }) == KeyAction::Quit,
{
}

/// With an overlay open, no key other than Control-C quits.
pub proof fn lemma_overlay_keys_do_not_quit(modes: ViewModes, key: KeyPress)
    requires
        modes.show_help || modes.show_backend_info || modes.show_graph || modes.show_throttle_dialog,
        !(key.ctrl && key.code == KeyCode::Char('c')),
    ensures
        spec_key_action(modes, key) != KeyAction::Quit,
{
}

/// The texts of a list of strings.
pub open spec fn spec_names(v: Seq<String>) -> Seq<Seq<char>> {
    v.map_values(|s: String| s@)
}

/// The interface filter as texts: `None` shows every interface.
pub open spec fn spec_filter_names(filter: Option<Vec<String>>) -> Option<Seq<Seq<char>>> {
    match filter {
        Some(v) => Some(spec_names(v@)),
        None => None,
    }
}

/// Whether an interface is shown under a filter: with no filter every
/// interface is; with one, those it lists.
pub open spec fn spec_interface_shown(filter: Option<Seq<Seq<char>>>, name: Seq<char>) -> bool {
    match filter {
        None => true,
        Some(l) => l.contains(name),
    }
}

/// `A` in the interface list: with no filter (all shown) show none;
/// with a filter, drop it and show all.
pub fn toggle_all_interfaces(filter: &Option<Vec<String>>) -> (r: Option<Vec<String>>)
    ensures
        filter is None ==> (r matches Some(v) && v@.len() == 0),
        filter is Some ==> r is None,
{
    match filter {
        None => Some(Vec::new()),
        Some(_) => None,
    }
}

fn list_contains(v: &Vec<String>, name: &str) -> (r: bool)
    ensures
        r == spec_names(v@).contains(name@),
{
    let mut i: usize = 0;
    while i < v.len()
        invariant
            i <= v@.len(),
            forall|j: int| 0 <= j < i ==> v@[j]@ != name@,
        decreases v@.len() - i,
    {
        if crate::text::str_eq(v[i].as_str(), name) {
            assert(spec_names(v@)[i as int] == name@);
            return true;
        }
        i = i + 1;
    }
    proof {
        if spec_names(v@).contains(name@) {
            let k = choose|k: int| 0 <= k < spec_names(v@).len() && spec_names(v@)[k] == name@;
            assert(v@[k]@ == name@);
        }
    }
    false
}

/// Whether an interface is listed before a toggle: by the filter, or with
/// no filter among all interfaces.
pub open spec fn spec_listed_before(filter: Option<Vec<String>>, all: Seq<String>, n: Seq<char>) -> bool {
    match filter {
        None => spec_names(all).contains(n),
        Some(l) => spec_names(l@).contains(n),
    }
}

/// Space in the interface list: flip whether the named interface is shown.
/// Every other interface stays shown as before; with no filter, the new
/// filter starts from all interfaces `all`.
pub fn toggle_interface_filter(filter: &Option<Vec<String>>, all: &Vec<String>, name: &str) -> (r:
    Option<Vec<String>>)
    ensures
        r matches Some(v) && spec_names(v@).contains(name@) == !spec_listed_before(*filter, all@, name@),
        forall|n: Seq<char>|
            n != name@ ==> spec_interface_shown(spec_filter_names(r), n) == spec_listed_before(
                *filter,
                all@,
                n,
            ),
{
    let base: Vec<String> = match filter {
        Some(l) => crate::manager::copy_names(l),
        None => crate::manager::copy_names(all),
    };
    let ghost b = spec_names(base@);
    if list_contains(&base, name) {
        let mut out: Vec<String> = Vec::new();
        let mut i: usize = 0;
        while i < base.len()
            invariant
                i <= base@.len(),
                b == spec_names(base@),
                forall|n: Seq<char>|
                    #[trigger] spec_names(out@).contains(n) <==> (n != name@ && exists|j: int|
                        0 <= j < i && b[j] == n),
            decreases base@.len() - i,
        {
            let keep = !crate::text::str_eq(base[i].as_str(), name);
            let ghost before = out@;
            if keep {
                out.push(base[i].clone());
            }
            proof {
                broadcast use vstd::seq_lib::group_seq_properties;
                let x = b[i as int];
                assert(x == base@[i as int]@);
                assert(keep == (x != name@));
                if keep {
                    assert(spec_names(out@) =~= spec_names(before).push(x));
                } else {
                    assert(spec_names(out@) =~= spec_names(before));
                }
                assert forall|n: Seq<char>|
                    #[trigger] spec_names(out@).contains(n) <==> (n != name@ && exists|j: int|
                        0 <= j < i + 1 && b[j] == n) by {
                    let old_side = n != name@ && exists|j: int| 0 <= j < i && b[j] == n;
                    assert(spec_names(before).contains(n) == old_side);
                    if exists|j: int| 0 <= j < i + 1 && b[j] == n {
                        let j = choose|j: int| 0 <= j < i + 1 && b[j] == n;
                        if j == i {
                            assert(x == n);
                        }
                    }
                    if x == n {
                        assert(0 <= i < i + 1 && b[i as int] == n);
                    }
                    if old_side {
                        let j = choose|j: int| 0 <= j < i && b[j] == n;
                        assert(0 <= j < i + 1 && b[j] == n);
                    }
                }
            }
            i = i + 1;
        }
        proof {
            assert forall|n: Seq<char>| #[trigger] b.contains(n) <==> (exists|j: int| 0 <= j < base@.len() && b[j] == n) by {
                if b.contains(n) {
                    let k = choose|k: int| 0 <= k < b.len() && b[k] == n;
                    assert(0 <= k < base@.len() && b[k] == n);
                }
            }
        }
        Some(out)
    } else {
        let mut out = base;
        out.push(String::from_str(name));
        proof {
            assert(spec_names(out@) =~= b.push(name@));
            assert(spec_names(out@)[b.len() as int] == name@);
            assert forall|n: Seq<char>| n != name@ implies #[trigger] spec_names(out@).contains(n) == b.contains(n) by {
                if spec_names(out@).contains(n) {
                    let k = choose|k: int| 0 <= k < spec_names(out@).len() && spec_names(out@)[k] == n;
                    assert(k < b.len());
                    assert(b[k] == n);
                }
                if b.contains(n) {
                    let k = choose|k: int| 0 <= k < b.len() && b[k] == n;
                    assert(spec_names(out@)[k] == n);
                }
            }
        }
        Some(out)
    }
}

} // verus!
