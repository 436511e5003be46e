//! The directory of attached displays, built from what the platform's
//! display enumeration reports.

use crate::error::FilterError;
use vstd::prelude::*;
use vstd::string::*;

verus! {

/// State flag of an adapter that is part of the desktop.
pub const DISPLAY_DEVICE_ATTACHED_TO_DESKTOP: u32 = 0x1;

/// State flag of a monitor that is switched on and in use.
pub const DISPLAY_DEVICE_ACTIVE: u32 = 0x1;

/// State flag of the adapter that drives the primary display.
pub const DISPLAY_DEVICE_PRIMARY_DEVICE: u32 = 0x4;

/// How many adapters, and how many monitors of one adapter, `enumerate_monitors` looks at.
pub const MAX_ENUMERATED: usize = 9;

/// How many adapters `get_monitor_device_name` looks at.
pub const MAX_SCANNED_ADAPTERS: usize = 17;

/// A display as the filter operations address it.
#[derive(Clone, Debug, PartialEq, Eq)]
pub struct MonitorInfo {
    pub index: usize,
    pub name: String,
    pub device_name: String,
    pub is_primary: bool,
}

/// A monitor as the platform reports it under its adapter.
#[derive(Clone, Debug, PartialEq, Eq)]
pub struct MonitorRecord {
    pub device_string: String,
    pub state_flags: u32,
}

/// A display adapter as the platform reports it, with the monitors found under it.
#[derive(Clone, Debug, PartialEq, Eq)]
pub struct AdapterRecord {
    pub device_name: String,
    pub state_flags: u32,
    pub monitors: Vec<MonitorRecord>,
}

/// The mathematical value of a `MonitorInfo`.
pub struct MonitorInfoView {
    pub index: nat,
    pub name: Seq<char>,
    pub device_name: Seq<char>,
    pub is_primary: bool,
}

impl View for MonitorInfo {
    type V = MonitorInfoView;

    open spec fn view(&self) -> MonitorInfoView {
        MonitorInfoView {
            index: self.index as nat,
            name: self.name@,
            device_name: self.device_name@,
            is_primary: self.is_primary,
        }
    }
}

/// The character of the decimal digit `d`.
pub open spec fn decimal_digit(d: nat) -> char {
    if d == 0 {
        '0'
    } else if d == 1 {
        '1'
    } else if d == 2 {
        '2'
    } else if d == 3 {
        '3'
    } else if d == 4 {
        '4'
    } else if d == 5 {
        '5'
    } else if d == 6 {
        '6'
    } else if d == 7 {
        '7'
    } else if d == 8 {
        '8'
    } else {
        '9'
    }
}

/// The decimal numeral of `n`, without leading zeros.
pub open spec fn decimal(n: nat) -> Seq<char>
    decreases n,
{
    if n < 10 {
        seq![decimal_digit(n)]
    } else {
        decimal(n / 10).push(decimal_digit(n % 10))
    }
}

fn digit_text(d: usize) -> (s: &'static str)
    requires
        d < 10,
    ensures
        s@ == seq![decimal_digit(d as nat)],
{
    proof {
        reveal_strlit("0");
        reveal_strlit("1");
        reveal_strlit("2");
        reveal_strlit("3");
        reveal_strlit("4");
        reveal_strlit("5");
        reveal_strlit("6");
        reveal_strlit("7");
        reveal_strlit("8");
        reveal_strlit("9");
    }
    let s = match d {
        0 => "0",
        1 => "1",
        2 => "2",
        3 => "3",
        4 => "4",
        5 => "5",
        6 => "6",
        7 => "7",
        8 => "8",
        _ => "9",
    };
    assert(s@ =~= seq![decimal_digit(d as nat)]);
    s
}

fn decimal_text(n: usize) -> (s: String)
    ensures
        s@ == decimal(n as nat),
    decreases n,
{
    if n < 10 {
        String::from_str(digit_text(n))
    } else {
        let mut s = decimal_text(n / 10);
        s.append(digit_text(n % 10));
        assert(s@ =~= decimal((n / 10) as nat).push(decimal_digit((n % 10) as nat)));
        s
    }
}

/// Whether the monitor is attached to the desktop and active.
pub open spec fn is_shown(m: MonitorRecord) -> bool {
    (m.state_flags & DISPLAY_DEVICE_ATTACHED_TO_DESKTOP != 0) && (m.state_flags
        & DISPLAY_DEVICE_ACTIVE != 0)
}

/// The label of a display: what the platform calls it, or its ordinal where
/// the platform gives no name, marked where it is the primary display.
pub open spec fn display_label(device_string: Seq<char>, is_primary: bool, ordinal: nat) -> Seq<
    char,
> {
    if device_string.len() == 0 {
        if is_primary {
            "显示器 "@ + decimal(ordinal) + " (主)"@
        } else {
            "显示器 "@ + decimal(ordinal)
        }
    } else {
        if is_primary {
            device_string + " (主)"@
        } else {
            device_string
        }
    }
}

/// The directory entry of monitor `m` of `adapter`, when `found` displays precede it.
pub open spec fn entry_for(adapter: AdapterRecord, m: int, found: nat) -> MonitorInfoView {
    let is_primary = (adapter.state_flags & DISPLAY_DEVICE_PRIMARY_DEVICE != 0) && m == 0;
    MonitorInfoView {
        index: found,
        name: display_label(adapter.monitors[m].device_string@, is_primary, found + 1),
        device_name: adapter.device_name@,
        is_primary,
    }
}

/// The entries of the shown monitors among the first `n` of `adapter`, when
/// `found` displays precede the adapter's.
pub open spec fn adapter_entries(adapter: AdapterRecord, n: nat, found: nat) -> Seq<
    MonitorInfoView,
>
    decreases n,
{
    if n == 0 {
        Seq::empty()
    } else {
        let before = adapter_entries(adapter, (n - 1) as nat, found);
        if is_shown(adapter.monitors[n - 1]) {
            before.push(entry_for(adapter, n - 1, found + before.len()))
        } else {
            before
        }
    }
}

/// How many of `len` adapters, or monitors of one adapter, are looked at.
pub open spec fn capped(len: nat) -> nat {
    if len < MAX_ENUMERATED {
        len
    } else {
        MAX_ENUMERATED as nat
    }
}

/// The entries of the shown monitors of the first `n` adapters.
pub open spec fn found_entries(adapters: Seq<AdapterRecord>, n: nat) -> Seq<MonitorInfoView>
    decreases n,
{
    if n == 0 {
        Seq::empty()
    } else {
        let before = found_entries(adapters, (n - 1) as nat);
        let adapter = adapters[n - 1];
        before + adapter_entries(adapter, capped(adapter.monitors@.len()), before.len())
    }
}

/// The display that stands in where the platform reports none.
pub open spec fn fallback_entry() -> MonitorInfoView {
    MonitorInfoView {
        index: 0,
        name: "主显示器"@,
        device_name: "\\\\.\\DISPLAY1"@,
        is_primary: true,
    }
}

/// The directory of displays for what the platform reported.
pub open spec fn directory(adapters: Seq<AdapterRecord>) -> Seq<MonitorInfoView> {
    let found = found_entries(adapters, capped(adapters.len()));
    if found.len() == 0 {
        seq![fallback_entry()]
    } else {
        found
    }
}

/// The values of `monitors`.
pub open spec fn views(monitors: Seq<MonitorInfo>) -> Seq<MonitorInfoView> {
    monitors.map_values(|m: MonitorInfo| m@)
}

fn label_text(device_string: &String, is_primary: bool, ordinal: usize) -> (name: String)
    ensures
        name@ == display_label(device_string@, is_primary, ordinal as nat),
{
    if device_string.as_str().unicode_len() == 0 {
        let mut name = String::from_str("显示器 ");
        let number = decimal_text(ordinal);
        name.append(number.as_str());
        if is_primary {
            name.append(" (主)");
        }
        name
    } else {
        let mut name = device_string.clone();
        if is_primary {
            name.append(" (主)");
        }
        name
    }
}

/// Lists the displays that filters can be applied to.
///
/// Looks at the first nine adapters and the first nine monitors of each, keeps
/// the monitors that are attached to the desktop and active, and numbers them
/// in the order found. Where none is found, the list holds one stand-in
/// primary display.
pub fn enumerate_monitors(adapters: &Vec<AdapterRecord>) -> (monitors: Vec<MonitorInfo>)
    ensures
        views(monitors@) == directory(adapters@),
{
    let mut monitors: Vec<MonitorInfo> = Vec::new();
    let adapter_count: usize = if adapters.len() < MAX_ENUMERATED {
        adapters.len()
    } else {
        MAX_ENUMERATED
    };
    let mut a: usize = 0;
    while a < adapter_count
        invariant
            a <= adapter_count,
            adapter_count == capped(adapters@.len()),
            monitors.len() <= a * MAX_ENUMERATED,
            views(monitors@) =~= found_entries(adapters@, a as nat),
        decreases adapter_count - a,
    {
        let adapter = &adapters[a];
        let monitor_count: usize = if adapter.monitors.len() < MAX_ENUMERATED {
            adapter.monitors.len()
        } else {
            MAX_ENUMERATED
        };
        let ghost before = views(monitors@);
        let mut m: usize = 0;
        while m < monitor_count
            invariant
                m <= monitor_count,
                a < adapter_count <= MAX_ENUMERATED,
                a < adapters.len(),
                adapter == adapters@[a as int],
                monitor_count == capped(adapter.monitors@.len()),
                monitors.len() <= a * MAX_ENUMERATED + m,
                before == found_entries(adapters@, a as nat),
                views(monitors@) =~= before + adapter_entries(*adapter, m as nat, before.len()),
            decreases monitor_count - m,
        {
            let record = &adapter.monitors[m];
            let ghost entries = adapter_entries(*adapter, m as nat, before.len());
            assert(views(monitors@).len() == monitors@.len());
            if (record.state_flags & DISPLAY_DEVICE_ATTACHED_TO_DESKTOP != 0) && (
            record.state_flags & DISPLAY_DEVICE_ACTIVE != 0) {
                let is_primary = (adapter.state_flags & DISPLAY_DEVICE_PRIMARY_DEVICE != 0) && m
                    == 0;
                let index = monitors.len();
                let info = MonitorInfo {
                    index,
                    name: label_text(&record.device_string, is_primary, index + 1),
                    device_name: adapter.device_name.clone(),
                    is_primary,
                };
                assert(info@ == entry_for(*adapter, m as int, before.len() + entries.len()));
                monitors.push(info);
                assert(views(monitors@) =~= (before + entries).push(info@));
            }
            m = m + 1;
        }
        a = a + 1;
    }
    if monitors.len() == 0 {
        monitors.push(
            MonitorInfo {
                index: 0,
                name: String::from_str("主显示器"),
                device_name: String::from_str("\\\\.\\DISPLAY1"),
                is_primary: true,
            },
        );
        assert(views(monitors@) =~= seq![fallback_entry()]);
    }
    monitors
}

/// Whether the adapter is counted by `get_monitor_device_name`.
pub open spec fn is_active(adapter: AdapterRecord) -> bool {
    adapter.state_flags & DISPLAY_DEVICE_ACTIVE != 0
}

/// How many of the first `n` adapters are active.
pub open spec fn active_count(adapters: Seq<AdapterRecord>, n: nat) -> nat
    decreases n,
{
    if n == 0 {
        0
    } else {
        active_count(adapters, (n - 1) as nat) + if is_active(adapters[n - 1]) {
            1nat
        } else {
            0nat
        }
    }
}

/// How many of `len` adapters `get_monitor_device_name` looks at.
pub open spec fn scan_limit(len: nat) -> nat {
    if len < MAX_SCANNED_ADAPTERS {
        len
    } else {
        MAX_SCANNED_ADAPTERS as nat
    }
}

/// Whether adapter `i` is the active adapter with ordinal `monitor_index`.
pub open spec fn is_nth_active(adapters: Seq<AdapterRecord>, i: int, monitor_index: nat) -> bool {
    &&& 0 <= i < scan_limit(adapters.len())
    &&& is_active(adapters[i])
    &&& active_count(adapters, i as nat) == monitor_index
}

/// Gives the device name of the active adapter with ordinal `monitor_index`,
/// counting from zero among the first seventeen adapters.
pub fn get_monitor_device_name(adapters: &Vec<AdapterRecord>, monitor_index: usize) -> (result:
    Result<String, FilterError>)
    ensures
        match result {
            Ok(name) => exists|i: int|
                is_nth_active(adapters@, i, monitor_index as nat) && name@
                    == adapters@[i].device_name@,
            Err(e) => e == (FilterError::MonitorNotFound { index: monitor_index })
                && active_count(adapters@, scan_limit(adapters@.len())) <= monitor_index,
        },
{
    let limit: usize = if adapters.len() < MAX_SCANNED_ADAPTERS {
        adapters.len()
    } else {
        MAX_SCANNED_ADAPTERS
    };
    let mut current: usize = 0;
    let mut i: usize = 0;
    while i < limit
        invariant
            i <= limit,
            limit == scan_limit(adapters@.len()),
            current == active_count(adapters@, i as nat),
            current <= i,
            current <= monitor_index,
        decreases limit - i,
    {
        let adapter = &adapters[i];
        if adapter.state_flags & DISPLAY_DEVICE_ACTIVE != 0 {
            if current == monitor_index {
                assert(is_nth_active(adapters@, i as int, monitor_index as nat));
                return Ok(adapter.device_name.clone());
            }
            current = current + 1;
        }
        i = i + 1;
    }
    Err(FilterError::MonitorNotFound { index: monitor_index })
}

} // verus!
