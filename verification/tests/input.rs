use pty::input::parse_keys;
use pty::input::KeyEvent;
use pty::input::KeyParser;

#[test]
fn test_printable_chars() {
    let events = parse_keys(b"abc");
    assert_eq!(
        events,
        vec![
            KeyEvent::Printable('a'),
            KeyEvent::Printable('b'),
            KeyEvent::Printable('c'),
        ]
    );
}

#[test]
fn test_tab() {
    let events = parse_keys(b"\x09");
    assert_eq!(events, vec![KeyEvent::Tab]);
}

#[test]
fn test_enter() {
    let events = parse_keys(b"\x0D");
    assert_eq!(events, vec![KeyEvent::Enter]);
}

#[test]
fn test_backspace() {
    let events = parse_keys(b"\x7F");
    assert_eq!(events, vec![KeyEvent::Backspace]);
}

#[test]
fn test_ctrl_space() {
    let events = parse_keys(b"\x00");
    assert_eq!(events, vec![KeyEvent::CtrlSpace]);
}

#[test]
fn test_arrow_keys_csi() {
    assert_eq!(parse_keys(b"\x1B[A"), vec![KeyEvent::ArrowUp]);
    assert_eq!(parse_keys(b"\x1B[B"), vec![KeyEvent::ArrowDown]);
    assert_eq!(parse_keys(b"\x1B[C"), vec![KeyEvent::ArrowRight]);
    assert_eq!(parse_keys(b"\x1B[D"), vec![KeyEvent::ArrowLeft]);
}

#[test]
fn test_page_up_csi_tilde() {
    assert_eq!(parse_keys(b"\x1B[5~"), vec![KeyEvent::PageUp]);
}

#[test]
fn test_page_down_csi_tilde() {
    assert_eq!(parse_keys(b"\x1B[6~"), vec![KeyEvent::PageDown]);
}

#[test]
fn test_home_csi_letter() {
    assert_eq!(parse_keys(b"\x1B[H"), vec![KeyEvent::Home]);
}

#[test]
fn test_end_csi_letter() {
    assert_eq!(parse_keys(b"\x1B[F"), vec![KeyEvent::End]);
}

#[test]
fn test_home_csi_tilde_synonym() {
    assert_eq!(parse_keys(b"\x1B[1~"), vec![KeyEvent::HomeCsiTilde]);
    assert_eq!(parse_keys(b"\x1B[7~"), vec![KeyEvent::HomeCsi7Tilde]);
}

#[test]
fn test_end_csi_tilde_synonym() {
    assert_eq!(parse_keys(b"\x1B[4~"), vec![KeyEvent::EndCsiTilde]);
    assert_eq!(parse_keys(b"\x1B[8~"), vec![KeyEvent::EndCsi8Tilde]);
}

#[test]
fn test_arrow_keys_ss3() {
    assert_eq!(parse_keys(b"\x1BOA"), vec![KeyEvent::ArrowUp]);
    assert_eq!(parse_keys(b"\x1BOB"), vec![KeyEvent::ArrowDown]);
}

#[test]
fn test_home_ss3() {
    assert_eq!(parse_keys(b"\x1BOH"), vec![KeyEvent::HomeSs3]);
}

#[test]
fn test_end_ss3() {
    assert_eq!(parse_keys(b"\x1BOF"), vec![KeyEvent::EndSs3]);
}

#[test]
fn test_standalone_escape() {
    let events = parse_keys(b"\x1B");
    assert_eq!(events, vec![KeyEvent::Escape]);
}

#[test]
fn test_unknown_csi_passthrough() {
    // e.g. ESC [ 1 ; 5 C (Ctrl+Right in some terminals)
    let raw = b"\x1B[1;5C";
    let events = parse_keys(raw);
    assert_eq!(events.len(), 1);
    match &events[0] {
        KeyEvent::Raw(bytes) => assert_eq!(bytes, raw),
        other => panic!("expected Raw, got {:?}", other),
    }
}

#[test]
fn test_paged_then_typed() {
    assert_eq!(
        parse_keys(b"\x1B[5~a"),
        vec![KeyEvent::PageUp, KeyEvent::Printable('a')]
    );
}

#[test]
fn test_stateful_parser_buffers_split_page_up() {
    let mut parser = KeyParser::new();

    assert!(parser.parse(b"\x1B[5").is_empty());
    assert_eq!(parser.parse(b"~"), vec![KeyEvent::PageUp]);
}

#[test]
fn test_stateful_parser_buffers_split_ss3_home() {
    let mut parser = KeyParser::new();

    assert!(parser.parse(b"\x1BO").is_empty());
    assert_eq!(parser.parse(b"H"), vec![KeyEvent::HomeSs3]);
}

#[test]
fn test_stateful_parser_keeps_complete_prefix_before_split_sequence() {
    let mut parser = KeyParser::new();

    assert_eq!(parser.parse(b"a\x1B[6"), vec![KeyEvent::Printable('a')]);
    assert_eq!(
        parser.parse(b"~b"),
        vec![KeyEvent::PageDown, KeyEvent::Printable('b')]
    );
}

#[test]
fn test_mixed_input() {
    // "a" then ArrowUp then "b"
    let events = parse_keys(b"a\x1B[Ab");
    assert_eq!(
        events,
        vec![
            KeyEvent::Printable('a'),
            KeyEvent::ArrowUp,
            KeyEvent::Printable('b'),
        ]
    );
}

#[test]
fn test_empty_input() {
    let events = parse_keys(b"");
    assert!(events.is_empty());
}

#[test]
fn test_cpr_response_parsed() {
    // CSI 15;1 R — cursor at row 15, col 1
    let events = parse_keys(b"\x1b[15;1R");
    assert_eq!(events, vec![KeyEvent::CursorPositionReport(15, 1)]);
}

#[test]
fn test_cpr_response_large_values() {
    let events = parse_keys(b"\x1b[100;200R");
    assert_eq!(events, vec![KeyEvent::CursorPositionReport(100, 200)]);
}

#[test]
fn test_cpr_mixed_with_typing() {
    // User types 'a', then CPR arrives, then user types 'b'
    let events = parse_keys(b"a\x1b[5;10Rb");
    assert_eq!(
        events,
        vec![
            KeyEvent::Printable('a'),
            KeyEvent::CursorPositionReport(5, 10),
            KeyEvent::Printable('b'),
        ]
    );
}

#[test]
fn test_ctrl_slash() {
    let events = parse_keys(b"\x1F");
    assert_eq!(events, vec![KeyEvent::CtrlSlash]);
}

#[test]
fn test_alt_key_passthrough() {
    // Alt+a = ESC a — should be Raw
    let events = parse_keys(b"\x1Ba");
    assert_eq!(events.len(), 1);
    match &events[0] {
        KeyEvent::Raw(bytes) => assert_eq!(bytes, b"\x1Ba"),
        other => panic!("expected Raw, got {:?}", other),
    }
}

#[test]
fn test_ctrl_letters() {
    assert_eq!(parse_keys(b"\x01"), vec![KeyEvent::Ctrl('a')]);
    assert_eq!(parse_keys(b"\x04"), vec![KeyEvent::Ctrl('d')]);
    assert_eq!(parse_keys(b"\x03"), vec![KeyEvent::Ctrl('c')]);
    assert_eq!(parse_keys(b"\x1A"), vec![KeyEvent::Ctrl('z')]);
}

#[test]
fn test_ctrl_mixed_with_printable() {
    let events = parse_keys(b"a\x04b");
    assert_eq!(
        events,
        vec![
            KeyEvent::Printable('a'),
            KeyEvent::Ctrl('d'),
            KeyEvent::Printable('b'),
        ]
    );
}

#[test]
fn test_kitty_csi_u_ctrl_slash() {
    // CSI 47;5 u = ctrl+/ (codepoint 47, modifier 5 = 1+ctrl)
    let events = parse_keys(b"\x1b[47;5u");
    assert_eq!(events, vec![KeyEvent::CtrlSlash]);
}

#[test]
fn test_kitty_csi_u_ctrl_letter() {
    // CSI 111;5 u = ctrl+o (codepoint 111 = 'o', modifier 5 = 1+ctrl)
    let events = parse_keys(b"\x1b[111;5u");
    assert_eq!(events, vec![KeyEvent::Ctrl('o')]);
}

#[test]
fn test_kitty_csi_u_plain_char() {
    // CSI 97 u = 'a' (codepoint 97, no modifier)
    let events = parse_keys(b"\x1b[97u");
    assert_eq!(events, vec![KeyEvent::Printable('a')]);
}

#[test]
fn test_kitty_csi_u_ctrl_space() {
    // CSI 32;5 u = ctrl+space
    let events = parse_keys(b"\x1b[32;5u");
    assert_eq!(events, vec![KeyEvent::CtrlSpace]);
}

#[test]
fn test_kitty_csi_u_alt_falls_through_to_raw() {
    // CSI 97;3 u = alt+a (modifier 3 = 1+alt) — no legacy encoding, Raw
    let events = parse_keys(b"\x1b[97;3u");
    assert_eq!(events, vec![KeyEvent::Raw(b"\x1b[97;3u".to_vec())]);
}

#[test]
fn test_kitty_csi_u_mixed_with_legacy() {
    // ctrl+/ via Kitty CSI u followed by legacy ctrl+c
    let events = parse_keys(b"\x1b[47;5u\x03");
    assert_eq!(events, vec![KeyEvent::CtrlSlash, KeyEvent::Ctrl('c')]);
}
