use screen_filter::{
    enumerate_monitors, get_monitor_device_name, AdapterRecord, FilterError, MonitorInfo,
    MonitorRecord,
};

const SHOWN: u32 = 0x1;
const PRIMARY: u32 = 0x4;

fn monitor(device_string: &str, state_flags: u32) -> MonitorRecord {
    MonitorRecord { device_string: device_string.to_string(), state_flags }
}

fn adapter(device_name: &str, state_flags: u32, monitors: Vec<MonitorRecord>) -> AdapterRecord {
    AdapterRecord { device_name: device_name.to_string(), state_flags, monitors }
}

fn info(index: usize, name: &str, device_name: &str, is_primary: bool) -> MonitorInfo {
    MonitorInfo {
        index,
        name: name.to_string(),
        device_name: device_name.to_string(),
        is_primary,
    }
}

#[test]
fn no_adapter_gives_the_stand_in_primary_display() {
    let monitors = enumerate_monitors(&Vec::new());
    assert_eq!(monitors, vec![info(0, "主显示器", "\\\\.\\DISPLAY1", true)]);
}

#[test]
fn adapters_without_shown_monitors_give_the_stand_in() {
    let adapters = vec![
        adapter("\\\\.\\DISPLAY1", SHOWN | PRIMARY, vec![monitor("Generic PnP Monitor", 0)]),
        adapter("\\\\.\\DISPLAY2", 0, Vec::new()),
    ];
    assert_eq!(
        enumerate_monitors(&adapters),
        vec![info(0, "主显示器", "\\\\.\\DISPLAY1", true)]
    );
}

#[test]
fn shown_monitors_are_listed_in_order_under_their_adapter() {
    let adapters = vec![
        adapter(
            "\\\\.\\DISPLAY1",
            SHOWN | PRIMARY,
            vec![monitor("Dell U2720Q", SHOWN), monitor("Second", SHOWN)],
        ),
        adapter("\\\\.\\DISPLAY2", SHOWN, vec![monitor("LG Ultra", 0), monitor("Acer", SHOWN)]),
    ];
    assert_eq!(
        enumerate_monitors(&adapters),
        vec![
            info(0, "Dell U2720Q (主)", "\\\\.\\DISPLAY1", true),
            info(1, "Second", "\\\\.\\DISPLAY1", false),
            info(2, "Acer", "\\\\.\\DISPLAY2", false),
        ]
    );
}

#[test]
fn only_the_first_monitor_of_the_primary_adapter_is_primary() {
    let adapters = vec![adapter(
        "\\\\.\\DISPLAY1",
        PRIMARY,
        vec![monitor("Hidden", 0), monitor("Shown", SHOWN)],
    )];
    assert_eq!(enumerate_monitors(&adapters), vec![info(0, "Shown", "\\\\.\\DISPLAY1", false)]);
}

#[test]
fn monitors_without_a_name_are_labelled_by_their_ordinal() {
    let adapters = vec![
        adapter("\\\\.\\DISPLAY1", PRIMARY, vec![monitor("", SHOWN)]),
        adapter("\\\\.\\DISPLAY2", 0, vec![monitor("", SHOWN | 0x8)]),
    ];
    assert_eq!(
        enumerate_monitors(&adapters),
        vec![
            info(0, "显示器 1 (主)", "\\\\.\\DISPLAY1", true),
            info(1, "显示器 2", "\\\\.\\DISPLAY2", false),
        ]
    );
}

#[test]
fn ordinals_are_written_in_decimal() {
    let mut adapters = Vec::new();
    for i in 0..9 {
        let name = format!("\\\\.\\DISPLAY{}", i + 1);
        adapters.push(adapter(&name, 0, vec![monitor("", SHOWN), monitor("", SHOWN)]));
    }
    let monitors = enumerate_monitors(&adapters);
    assert_eq!(monitors.len(), 18);
    assert_eq!(monitors[8].name, "显示器 9");
    assert_eq!(monitors[9].name, "显示器 10");
    assert_eq!(monitors[17].name, "显示器 18");
    assert_eq!(monitors[17].index, 17);
    assert_eq!(monitors[17].device_name, "\\\\.\\DISPLAY9");
}

#[test]
fn at_most_nine_adapters_and_nine_monitors_each_are_looked_at() {
    let mut adapters = Vec::new();
    for i in 0..12 {
        let mut monitors = Vec::new();
        for j in 0..11 {
            monitors.push(monitor(&format!("M{}-{}", i, j), SHOWN));
        }
        adapters.push(adapter(&format!("A{}", i), 0, monitors));
    }
    let monitors = enumerate_monitors(&adapters);
    assert_eq!(monitors.len(), 81);
    assert_eq!(monitors[8].name, "M0-8");
    assert_eq!(monitors[9].name, "M1-0");
    assert_eq!(monitors[80].name, "M8-8");
    assert_eq!(monitors[80].device_name, "A8");
    for (i, monitor) in monitors.iter().enumerate() {
        assert_eq!(monitor.index, i);
    }
}

#[test]
fn a_monitor_beyond_the_ninth_is_not_found() {
    let mut monitors = Vec::new();
    for _ in 0..9 {
        monitors.push(monitor("Off", 0));
    }
    monitors.push(monitor("Tenth", SHOWN));
    let adapters = vec![adapter("A", PRIMARY, monitors)];
    assert_eq!(
        enumerate_monitors(&adapters),
        vec![info(0, "主显示器", "\\\\.\\DISPLAY1", true)]
    );
}

#[test]
fn device_name_of_the_nth_active_adapter() {
    let adapters = vec![
        adapter("\\\\.\\DISPLAY1", SHOWN, Vec::new()),
        adapter("\\\\.\\DISPLAY2", 0, Vec::new()),
        adapter("\\\\.\\DISPLAY3", SHOWN | PRIMARY, Vec::new()),
    ];
    assert_eq!(get_monitor_device_name(&adapters, 0), Ok("\\\\.\\DISPLAY1".to_string()));
    assert_eq!(get_monitor_device_name(&adapters, 1), Ok("\\\\.\\DISPLAY3".to_string()));
    assert_eq!(
        get_monitor_device_name(&adapters, 2),
        Err(FilterError::MonitorNotFound { index: 2 })
    );
}

#[test]
fn device_name_without_adapters_is_not_found() {
    assert_eq!(
        get_monitor_device_name(&Vec::new(), 0),
        Err(FilterError::MonitorNotFound { index: 0 })
    );
}

#[test]
fn device_name_looks_at_seventeen_adapters() {
    let mut adapters = Vec::new();
    for i in 0..20 {
        adapters.push(adapter(&format!("A{}", i), SHOWN, Vec::new()));
    }
    assert_eq!(get_monitor_device_name(&adapters, 16), Ok("A16".to_string()));
    assert_eq!(
        get_monitor_device_name(&adapters, 17),
        Err(FilterError::MonitorNotFound { index: 17 })
    );
}
