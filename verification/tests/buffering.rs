use ftp_server::dispatch::handle_commands;
use ftp_server::lines::LineBuffer;
use ftp_server::session::ConnectionState;

#[test]
fn partial_line_is_held_back() {
    let mut lb = LineBuffer::new();
    let lines = lb.push_bytes(b"US");
    assert!(lines.is_empty());
    assert_eq!(lb.pending.as_slice(), b"US");
    let lines = lb.push_bytes(b"ER anonymous\r\nPA");
    assert_eq!(lines.len(), 1);
    assert_eq!(lines[0].as_slice(), b"USER anonymous\r");
    assert_eq!(lb.pending.as_slice(), b"PA");
}

#[test]
fn several_lines_in_one_read() {
    let mut lb = LineBuffer::new();
    let lines = lb.push_bytes(b"A\r\nB\r\nC");
    assert_eq!(lines.len(), 2);
    assert_eq!(lines[0].as_slice(), b"A\r");
    assert_eq!(lines[1].as_slice(), b"B\r");
    assert_eq!(lb.pending.as_slice(), b"C");
}

#[test]
fn bare_lf_terminates_a_line() {
    let mut lb = LineBuffer::new();
    let lines = lb.push_bytes(b"x\n\n");
    assert_eq!(lines.len(), 2);
    assert_eq!(lines[0].as_slice(), b"x");
    assert_eq!(lines[1].as_slice(), b"");
    assert!(lb.pending.is_empty());
}

#[test]
fn buffered_commands_drive_the_session() {
    let mut lb = LineBuffer::new();
    let mut s = ConnectionState::new("/srv".to_string());
    let mut replies: Vec<String> = Vec::new();
    for chunk in [&b"USER anon"[..], &b"ymous\r\nPASS"[..], &b" x\r\n"[..]] {
        for line in lb.push_bytes(chunk) {
            let text = std::str::from_utf8(&line).unwrap();
            let out = handle_commands(text, &mut s);
            replies.extend(out.replies);
        }
    }
    assert_eq!(
        replies,
        vec![
            "331 Please specify the password.\r\n".to_string(),
            "230 Login successful.\r\n".to_string()
        ]
    );
    assert!(s.connected);
}
