use usbip_core::device_list::parse;

#[test]
fn parse_is_deterministic() {
    let input = "Connected:\nBUSID  VID:PID  DEVICE  STATE\n1-1  1234:5678  USB Mass Storage Device  Not shared\nPersisted:\n2-3  aaaa:bbbb  Generic Device  Shared\n";
    assert_eq!(parse(input), parse(input));
}

#[test]
fn example_connected_row() {
    // The state column is the last whitespace-separated token, so a
    // multi-word state string loses its leading words to the description.
    let input = "Connected:\nBUSID  VID:PID  DEVICE  STATE\n1-1  1234:5678  USB Mass Storage Device  Not shared\n";
    let devices = parse(input);
    assert_eq!(devices.len(), 1);
    assert_eq!(devices[0].busid, "1-1");
    assert_eq!(devices[0].vidpid, "1234:5678");
    assert_eq!(devices[0].device, "USB Mass Storage Device Not");
    assert_eq!(devices[0].state, "shared");
    assert!(!devices[0].persisted);
}

#[test]
fn example_persisted_row() {
    let input = "Persisted:\n2-3  aaaa:bbbb  Generic Device  Shared\n";
    let devices = parse(input);
    assert_eq!(devices.len(), 1);
    assert_eq!(devices[0].busid, "2-3");
    assert_eq!(devices[0].vidpid, "aaaa:bbbb");
    assert_eq!(devices[0].device, "Generic Device");
    assert_eq!(devices[0].state, "Shared");
    assert!(devices[0].persisted);
}

#[test]
fn empty_report_yields_no_records() {
    assert_eq!(parse(""), vec![]);
}

#[test]
fn blank_and_short_lines_are_discarded() {
    let input = "\n   \nConnected:\nonly three tokens\n1-1 1234:5678 Disk Shared\n\n";
    let devices = parse(input);
    assert_eq!(devices.len(), 1);
    assert_eq!(devices[0].busid, "1-1");
    assert_eq!(devices[0].device, "Disk");
}

#[test]
fn column_header_is_discarded_without_section_change() {
    let input = "Persisted:\nBUSID  VID:PID  DEVICE  STATE\n4-2  dead:beef  Old Device  Shared\n";
    let devices = parse(input);
    assert_eq!(devices.len(), 1);
    assert!(devices[0].persisted);
}

#[test]
fn data_before_any_header_counts_as_not_persisted() {
    let input = "1-1 1111:2222 Early Device Shared\nPersisted:\n1-1 1111:2222 Early Device Shared\n";
    let devices = parse(input);
    assert_eq!(devices.len(), 2);
    assert!(!devices[0].persisted);
    assert!(devices[1].persisted);
}

#[test]
fn order_is_preserved_without_dedup() {
    let input = "Connected:\n1-1 aaaa:0001 First Device Shared\n1-2 aaaa:0002 Second Device Shared\nPersisted:\n1-1 aaaa:0001 First Device Shared\n";
    let devices = parse(input);
    assert_eq!(devices.len(), 3);
    assert_eq!(devices[0].busid, "1-1");
    assert_eq!(devices[1].busid, "1-2");
    assert_eq!(devices[2].busid, "1-1");
    assert!(!devices[0].persisted);
    assert!(!devices[1].persisted);
    assert!(devices[2].persisted);
}

#[test]
fn connected_header_switches_back_from_persisted() {
    let input = "Persisted:\n3-1 aaaa:0001 Remembered Device Shared\nConnected:\n3-2 aaaa:0002 Live Device Attached\n";
    let devices = parse(input);
    assert_eq!(devices.len(), 2);
    assert!(devices[0].persisted);
    assert!(!devices[1].persisted);
}

#[test]
fn description_joins_middle_tokens_with_single_spaces() {
    let input = "Connected:\n5-5\t00ff:11ee\t USB   Serial \t Adapter   Attached\n";
    let devices = parse(input);
    assert_eq!(devices.len(), 1);
    assert_eq!(devices[0].busid, "5-5");
    assert_eq!(devices[0].vidpid, "00ff:11ee");
    assert_eq!(devices[0].device, "USB Serial Adapter");
    assert_eq!(devices[0].state, "Attached");
}

#[test]
fn exactly_four_tokens_gives_single_word_description() {
    let input = "Connected:\n6-1 abcd:ef01 Keyboard Shared\n";
    let devices = parse(input);
    assert_eq!(devices.len(), 1);
    assert_eq!(devices[0].device, "Keyboard");
    assert_eq!(devices[0].state, "Shared");
}

#[test]
fn carriage_returns_are_trimmed() {
    let input = "Connected:\r\n7-1 1234:5678 Trimmed Device Shared\r\n";
    let devices = parse(input);
    assert_eq!(devices.len(), 1);
    assert_eq!(devices[0].busid, "7-1");
    assert_eq!(devices[0].state, "Shared");
}

#[test]
fn section_headers_match_by_prefix() {
    let input = "Persisted: (remembered devices)\n9-1 1234:5678 Saved Device Shared\n";
    let devices = parse(input);
    assert_eq!(devices.len(), 1);
    assert!(devices[0].persisted);
}

#[test]
fn report_without_trailing_newline_is_parsed() {
    let input = "Connected:\n8-1 0000:0000 Plain Device Attached";
    let devices = parse(input);
    assert_eq!(devices.len(), 1);
    assert_eq!(devices[0].busid, "8-1");
}
