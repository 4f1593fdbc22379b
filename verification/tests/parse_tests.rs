use autohide::hypr::{cursor_from_reply, monitors_from_reply, windows_open_from_reply};
use autohide::notify::{contains_sub, is_relevant_line};
use autohide::peer_scan::{comm_is_peer, parse_pid};

#[test]
fn cursor_reply_is_read() {
    let s = cursor_from_reply("{\"x\": 1930, \"y\": 5}").unwrap();
    assert_eq!(s.x, 1930);
    assert_eq!(s.y, 5);
}

#[test]
fn cursor_reply_rejects_malformed_text() {
    assert!(cursor_from_reply("").is_none());
    assert!(cursor_from_reply("not json").is_none());
    assert!(cursor_from_reply("{\"x\": 1}").is_none());
    assert!(cursor_from_reply("{\"x\": \"a\", \"y\": 2}").is_none());
}

#[test]
fn cursor_reply_rejects_overflowing_coordinates() {
    assert!(cursor_from_reply("{\"x\": 3000000000, \"y\": 5}").is_none());
    let s = cursor_from_reply("{\"x\": -2147483648, \"y\": 2147483647}").unwrap();
    assert_eq!(s.x, i32::MIN);
    assert_eq!(s.y, i32::MAX);
}

#[test]
fn monitors_reply_is_read_in_order() {
    let text = "[{\"x\":0,\"y\":0,\"width\":1920,\"height\":1080},\
                {\"x\":1920,\"y\":0,\"width\":1920,\"height\":1080}]";
    let ms = monitors_from_reply(text).unwrap();
    assert_eq!(ms.len(), 2);
    assert_eq!(ms[0].x, 0);
    assert_eq!(ms[1].x, 1920);
    assert_eq!(ms[1].width, 1920);
    assert_eq!(ms[1].height, 1080);
}

#[test]
fn monitors_reply_rejects_malformed_text() {
    assert!(monitors_from_reply("{}").is_none());
    assert!(monitors_from_reply("[{\"x\":0}]").is_none());
    assert!(monitors_from_reply("[{\"x\":0,\"y\":0,\"width\":99999999999,\"height\":1}]")
        .is_none());
}

#[test]
fn empty_monitor_list_is_valid() {
    let ms = monitors_from_reply("[]").unwrap();
    assert!(ms.is_empty());
}

#[test]
fn windows_open_reads_the_count() {
    assert!(windows_open_from_reply("{\"windows\": 2}"));
    assert!(windows_open_from_reply("{\"windows\": 1}"));
    assert!(!windows_open_from_reply("{\"windows\": 0}"));
    assert!(!windows_open_from_reply("{\"windows\": -1}"));
}

#[test]
fn windows_open_treats_malformed_reply_as_none_open() {
    assert!(!windows_open_from_reply(""));
    assert!(!windows_open_from_reply("garbage"));
    assert!(!windows_open_from_reply("{\"other\": 3}"));
}

#[test]
fn relevant_lines_are_window_and_workspace_changes() {
    assert!(is_relevant_line(b"openwindow>>abc,5,title"));
    assert!(is_relevant_line(b"closewindow>>abc"));
    assert!(is_relevant_line(b"workspace>>3"));
    assert!(is_relevant_line(b"createworkspace>>4"));
    assert!(!is_relevant_line(b"focusedmon>>DP-1,2"));
    assert!(!is_relevant_line(b"monitoradded>>DP-2"));
    assert!(!is_relevant_line(b""));
}

#[test]
fn substring_search_finds_inner_matches() {
    assert!(contains_sub(b"abcdef", b"cde"));
    assert!(contains_sub(b"abcdef", b""));
    assert!(contains_sub(b"abcdef", b"abcdef"));
    assert!(!contains_sub(b"abcdef", b"abcdefg"));
    assert!(!contains_sub(b"abcdef", b"ace"));
    assert!(!contains_sub(b"", b"a"));
}

#[test]
fn comm_matching_trims_the_newline() {
    assert!(comm_is_peer(b"waybar\n"));
    assert!(comm_is_peer(b"waybar"));
    assert!(comm_is_peer(b"  waybar  \n"));
    assert!(!comm_is_peer(b"waybars\n"));
    assert!(!comm_is_peer(b"xwaybar\n"));
    assert!(!comm_is_peer(b"way bar\n"));
    assert!(!comm_is_peer(b""));
}

#[test]
fn pid_parse_reads_decimal_names() {
    assert_eq!(parse_pid(b"1234"), Some(1234));
    assert_eq!(parse_pid(b"1"), Some(1));
    assert_eq!(parse_pid(b"0"), Some(0));
    assert_eq!(parse_pid(b"+7"), Some(7));
    assert_eq!(parse_pid(b"-42"), Some(-42));
    assert_eq!(parse_pid(b"2147483647"), Some(i32::MAX));
    assert_eq!(parse_pid(b"-2147483648"), Some(i32::MIN));
}

#[test]
fn pid_parse_rejects_non_numbers() {
    assert_eq!(parse_pid(b""), None);
    assert_eq!(parse_pid(b"-"), None);
    assert_eq!(parse_pid(b"+"), None);
    assert_eq!(parse_pid(b"12a4"), None);
    assert_eq!(parse_pid(b" 12"), None);
    assert_eq!(parse_pid(b"12 "), None);
    assert_eq!(parse_pid(b"2147483648"), None);
    assert_eq!(parse_pid(b"-2147483649"), None);
    assert_eq!(parse_pid(b"99999999999999999999"), None);
}
