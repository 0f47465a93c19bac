use ftp_server::dispatch::{greeting, handle_commands, pwd_reply};
use ftp_server::session::ConnectionState;

fn fresh(path: &str) -> ConnectionState {
    ConnectionState::new(path.to_string())
}

fn lines(out: &ftp_server::dispatch::CommandOutcome) -> Vec<&str> {
    out.replies.iter().map(|s| s.as_str()).collect()
}

#[test]
fn greeting_line() {
    assert_eq!(greeting().as_str(), "220 Rust FTP.\r\n");
}

#[test]
fn unauthenticated_command_is_rejected() {
    let mut s = fresh("/srv");
    for cmd in ["NOOP\r\n", "PWD\r\n", "HELP\r\n", "LIST\r\n", "RETR file\r\n"] {
        let out = handle_commands(cmd, &mut s);
        assert_eq!(lines(&out), vec!["530 Please login with USER and PASS.\r\n"]);
        assert!(!out.close);
        assert!(!out.want_pwd);
        assert!(!s.connected);
    }
}

#[test]
fn anonymous_login_succeeds() {
    let mut s = fresh("/srv");
    let out = handle_commands("USER anonymous\r\n", &mut s);
    assert_eq!(lines(&out), vec!["331 Please specify the password.\r\n"]);
    assert!(!s.connected);
    let out = handle_commands("PASS whatever\r\n", &mut s);
    assert_eq!(lines(&out), vec!["230 Login successful.\r\n"]);
    assert!(s.connected);
}

#[test]
fn anonymous_login_is_case_insensitive() {
    let mut s = fresh("/srv");
    handle_commands("user AnOnYmOuS\r\n", &mut s);
    let out = handle_commands("pass x\r\n", &mut s);
    assert_eq!(lines(&out), vec!["230 Login successful.\r\n"]);
    assert!(s.connected);
}

#[test]
fn wrong_user_login_is_refused() {
    let mut s = fresh("/srv");
    let out = handle_commands("USER bob\r\n", &mut s);
    assert_eq!(lines(&out), vec!["331 Please specify the password.\r\n"]);
    let out = handle_commands("PASS secret\r\n", &mut s);
    assert_eq!(lines(&out), vec!["530 Login incorrect.\r\n"]);
    assert!(!s.connected);
    let out = handle_commands("PWD\r\n", &mut s);
    assert_eq!(lines(&out), vec!["530 Please login with USER and PASS.\r\n"]);
}

#[test]
fn pass_before_user_is_rejected() {
    let mut s = fresh("/srv");
    let out = handle_commands("PASS x\r\n", &mut s);
    assert_eq!(lines(&out), vec!["530 Please login with USER and PASS.\r\n"]);
    assert!(!s.connected);
    assert_eq!(s.username.as_str(), "");
}

#[test]
fn user_without_name_is_denied() {
    let mut s = fresh("/srv");
    let out = handle_commands("USER\r\n", &mut s);
    assert_eq!(lines(&out), vec!["530 Permission denied.\r\n"]);
    assert_eq!(s.username.as_str(), "");
    let out = handle_commands("PASS x\r\n", &mut s);
    assert_eq!(lines(&out), vec!["530 Please login with USER and PASS.\r\n"]);
}

#[test]
fn user_replaces_earlier_claim() {
    let mut s = fresh("/srv");
    handle_commands("USER bob\r\n", &mut s);
    handle_commands("USER anonymous\r\n", &mut s);
    let out = handle_commands("PASS x\r\n", &mut s);
    assert_eq!(lines(&out), vec!["230 Login successful.\r\n"]);
}

#[test]
fn quit_closes_when_unauthenticated() {
    let mut s = fresh("/srv");
    let out = handle_commands("QUIT\r\n", &mut s);
    assert_eq!(lines(&out), vec!["221 Goodbye.\r\n"]);
    assert!(out.close);
    assert!(!out.want_pwd);
}

#[test]
fn quit_closes_when_authenticated() {
    let mut s = fresh("/srv");
    handle_commands("USER anonymous\r\n", &mut s);
    handle_commands("PASS x\r\n", &mut s);
    let out = handle_commands("quit\r\n", &mut s);
    assert_eq!(lines(&out), vec!["221 Goodbye.\r\n"]);
    assert!(out.close);
}

#[test]
fn help_after_login() {
    let mut s = fresh("/srv");
    handle_commands("USER anonymous\r\n", &mut s);
    handle_commands("PASS x\r\n", &mut s);
    let out = handle_commands("HELP\r\n", &mut s);
    assert_eq!(
        lines(&out),
        vec!["214-The following commands are recognized.\r\n", "214 Help OK.\r\n"]
    );
}

#[test]
fn pwd_after_login_asks_for_the_root() {
    let mut s = fresh("/srv");
    handle_commands("USER anonymous\r\n", &mut s);
    handle_commands("PASS x\r\n", &mut s);
    let out = handle_commands("PWD\r\n", &mut s);
    assert!(out.want_pwd);
    assert!(out.replies.is_empty());
    assert!(!out.close);
    assert_eq!(s.current_path.as_str(), "/srv");
    assert_eq!(pwd_reply("/srv").as_str(), "257 \"/srv\"\r\n");
}

#[test]
fn unknown_command_after_login_is_silent() {
    let mut s = fresh("/srv");
    handle_commands("USER anonymous\r\n", &mut s);
    handle_commands("PASS x\r\n", &mut s);
    let out = handle_commands("LIST\r\n", &mut s);
    assert!(out.replies.is_empty());
    assert!(!out.close);
    assert!(!out.want_pwd);
    assert!(s.connected);
}

#[test]
fn simultaneous_sessions_do_not_interact() {
    let mut a = fresh("/srv/a");
    let mut b = fresh("/srv/b");
    let out_a = handle_commands("USER anonymous\r\n", &mut a);
    let out_b = handle_commands("USER bob\r\n", &mut b);
    assert_eq!(lines(&out_a), vec!["331 Please specify the password.\r\n"]);
    assert_eq!(lines(&out_b), vec!["331 Please specify the password.\r\n"]);
    let out_b = handle_commands("PASS x\r\n", &mut b);
    let out_a = handle_commands("PASS x\r\n", &mut a);
    assert_eq!(lines(&out_a), vec!["230 Login successful.\r\n"]);
    assert_eq!(lines(&out_b), vec!["530 Login incorrect.\r\n"]);
    assert!(a.connected);
    assert!(!b.connected);
    assert_eq!(a.username.as_str(), "anonymous");
    assert_eq!(b.username.as_str(), "bob");
    assert_eq!(a.current_path.as_str(), "/srv/a");
    assert_eq!(b.current_path.as_str(), "/srv/b");
}

#[test]
fn authentication_is_never_revoked() {
    let mut s = fresh("/srv");
    handle_commands("USER anonymous\r\n", &mut s);
    handle_commands("PASS x\r\n", &mut s);
    for cmd in ["USER bob\r\n", "PASS y\r\n", "NOOP\r\n", "HELP\r\n"] {
        handle_commands(cmd, &mut s);
        assert!(s.connected);
    }
}

#[test]
fn empty_line_gets_login_request_when_unauthenticated() {
    let mut s = fresh("/srv");
    let out = handle_commands("\r\n", &mut s);
    assert_eq!(lines(&out), vec!["530 Please login with USER and PASS.\r\n"]);
    assert!(!out.close);
}
