use embargo::status::{
    clock, clock_format, clock_property, total_memory_update, turn, updates_from_texts,
    HardwareProperty, HardwareReadings,
};

#[test]
fn property_names_are_the_renderers() {
    assert_eq!(HardwareProperty::global(), "HardwareMonitor");
    assert_eq!(HardwareProperty::TotalMemory.name(), "totalmemory");
    assert_eq!(HardwareProperty::UsedMemory.name(), "used_memory");
    assert_eq!(HardwareProperty::NetworkUp.name(), "network_up");
    assert_eq!(HardwareProperty::NetworkDown.name(), "network_down");
}

#[test]
fn clock_pattern_is_twelve_hour_then_date() {
    assert_eq!(clock_format(), "%I:%M%P -- %d of %b, %Y");
}

#[test]
fn total_memory_is_a_human_count() {
    let update = total_memory_update(123_000);
    assert_eq!(update.property, HardwareProperty::TotalMemory);
    assert_eq!(update.value, "123kB");
    assert_eq!(total_memory_update(23_433_454_432).value, "23.43GB");
    assert_eq!(total_memory_update(0).value, "0B");
}

#[test]
fn turn_shows_rates_and_memory() {
    let readings =
        HardwareReadings { used_mem: 43_214_321, uploaded_bytes: 1_234_567, downloaded_bytes: 10 };
    let updates = turn(&readings);
    let shown: Vec<(HardwareProperty, &str)> =
        updates.iter().map(|u| (u.property, u.value.as_str())).collect();
    assert_eq!(
        shown,
        vec![
            (HardwareProperty::NetworkUp, "1.2MB/s"),
            (HardwareProperty::NetworkDown, "10B/s"),
            (HardwareProperty::UsedMemory, "43.2MB"),
        ]
    );
}

#[test]
fn updates_keep_texts_and_order() {
    let updates = updates_from_texts("a".to_string(), "b".to_string(), "c".to_string());
    let shown: Vec<(HardwareProperty, &str)> =
        updates.iter().map(|u| (u.property, u.value.as_str())).collect();
    assert_eq!(
        shown,
        vec![
            (HardwareProperty::NetworkUp, "a"),
            (HardwareProperty::NetworkDown, "b"),
            (HardwareProperty::UsedMemory, "c"),
        ]
    );
}

#[test]
fn clock_shows_the_hour_of_twelve_and_the_date() {
    assert_eq!(clock_property(), "time");
    assert_eq!(clock(0, 0).as_deref(), Some("12:00am -- 01 of Jan, 1970"));
    // 15 May 2015, 13:05:09 at Greenwich.
    let moment = 1_431_648_000 + 13 * 3600 + 5 * 60 + 9;
    assert_eq!(clock(moment, 0).as_deref(), Some("01:05pm -- 15 of May, 2015"));
    assert_eq!(clock(moment, 3600).as_deref(), Some("02:05pm -- 15 of May, 2015"));
    assert_eq!(clock(moment, -14 * 3600).as_deref(), Some("11:05pm -- 14 of May, 2015"));
}

#[test]
fn clock_has_no_text_beyond_its_range() {
    assert_eq!(clock(0, 86_400), None);
    assert_eq!(clock(0, -86_400), None);
    assert_eq!(clock(i64::MAX, 0), None);
    assert_eq!(clock(i64::MIN, 0), None);
}
