//! The command dispatcher: given the session state and one decoded command
//! line, it answers with status-coded reply lines, updates the session, and
//! signals the connection-level actions (close after QUIT, resolve the root
//! path for PWD).

use vstd::prelude::*;
use crate::parse::parse_user_input;
use crate::session::ConnectionState;
use crate::text::{eq_up_to_case, strip_crlf, tokens_of, upper};

verus! {

/// The greeting sent when a connection is accepted.
pub open spec fn reply_greeting() -> Seq<char> {
    "220 Rust FTP.\r\n"@
}

/// The farewell sent for QUIT.
pub open spec fn reply_goodbye() -> Seq<char> {
    "221 Goodbye.\r\n"@
}

/// The reply to a successful anonymous PASS.
pub open spec fn reply_login_ok() -> Seq<char> {
    "230 Login successful.\r\n"@
}

/// The reply to USER when an identity was recorded.
pub open spec fn reply_need_pass() -> Seq<char> {
    "331 Please specify the password.\r\n"@
}

/// The reply to USER without a name.
pub open spec fn reply_denied() -> Seq<char> {
    "530 Permission denied.\r\n"@
}

/// The reply to PASS for a non-anonymous identity claim.
pub open spec fn reply_login_bad() -> Seq<char> {
    "530 Login incorrect.\r\n"@
}

/// The reply an unauthenticated session gets for anything else.
pub open spec fn reply_need_login() -> Seq<char> {
    "530 Please login with USER and PASS.\r\n"@
}

/// The first line of the HELP block.
pub open spec fn reply_help_head() -> Seq<char> {
    "214-The following commands are recognized.\r\n"@
}

/// The closing line of the HELP block.
pub open spec fn reply_help_tail() -> Seq<char> {
    "214 Help OK.\r\n"@
}

/// The PWD reply built around the canonical root path.
pub open spec fn pwd_reply_spec(p: Seq<char>) -> Seq<char> {
    "257 \""@ + p + "\"\r\n"@
}

/// The command verbs are their own upper-casing, the anonymous account name
/// is nine characters long, and the verbs are pairwise distinct.
pub proof fn lemma_keywords()
    ensures
        upper("QUIT"@) == "QUIT"@,
        upper("USER"@) == "USER"@,
        upper("PASS"@) == "PASS"@,
        upper("HELP"@) == "HELP"@,
        upper("PWD"@) == "PWD"@,
        upper("ANONYMOUS"@) == "ANONYMOUS"@,
        "ANONYMOUS"@.len() == 9,
        "QUIT"@ != "USER"@,
        "QUIT"@ != "PASS"@,
        "QUIT"@ != "HELP"@,
        "QUIT"@ != "PWD"@,
        "USER"@ != "PASS"@,
        "USER"@ != "HELP"@,
        "USER"@ != "PWD"@,
        "PASS"@ != "HELP"@,
        "PASS"@ != "PWD"@,
        "HELP"@ != "PWD"@,
{
    reveal_strlit("QUIT");
    reveal_strlit("USER");
    reveal_strlit("PASS");
    reveal_strlit("HELP");
    reveal_strlit("PWD");
    reveal_strlit("ANONYMOUS");
    assert(upper("QUIT"@) =~= "QUIT"@);
    assert(upper("USER"@) =~= "USER"@);
    assert(upper("PASS"@) =~= "PASS"@);
    assert(upper("HELP"@) =~= "HELP"@);
    assert(upper("PWD"@) =~= "PWD"@);
    assert(upper("ANONYMOUS"@) =~= "ANONYMOUS"@);
    assert("QUIT"@[0] != "USER"@[0]);
    assert("QUIT"@[0] != "PASS"@[0]);
    assert("QUIT"@[0] != "HELP"@[0]);
    assert("QUIT"@.len() != "PWD"@.len());
    assert("USER"@[0] != "PASS"@[0]);
    assert("USER"@[0] != "HELP"@[0]);
    assert("USER"@.len() != "PWD"@.len());
    assert("PASS"@[0] != "HELP"@[0]);
    assert("PASS"@.len() != "PWD"@.len());
    assert("HELP"@.len() != "PWD"@.len());
}

/// What one dispatch step yields: the session fields after the command, the
/// reply lines in order, and the connection-level actions.
pub struct StepResult {
    pub username: Seq<char>,
    pub connected: bool,
    pub replies: Seq<Seq<char>>,
    pub close: bool,
    pub want_pwd: bool,
}

/// The dispatcher's state machine, as a function of the session fields and
/// the received line. QUIT is answered first in every state; an
/// unauthenticated session only advances through USER and PASS; an
/// authenticated one answers HELP and PWD and ignores anything else.
pub open spec fn step(u: Seq<char>, connected: bool, line: Seq<char>) -> StepResult {
    let toks = tokens_of(strip_crlf(line));
    if toks.len() > 0 && upper(toks[0]) == "QUIT"@ {
        StepResult {
            username: u,
            connected,
            replies: seq![reply_goodbye()],
            close: true,
            want_pwd: false,
        }
    } else if connected {
        if toks.len() > 0 && upper(toks[0]) == "HELP"@ {
            StepResult {
                username: u,
                connected,
                replies: seq![reply_help_head(), reply_help_tail()],
                close: false,
                want_pwd: false,
            }
        } else if toks.len() > 0 && upper(toks[0]) == "PWD"@ {
            StepResult {
                username: u,
                connected,
                replies: Seq::empty(),
                close: false,
                want_pwd: true,
            }
        } else {
            StepResult {
                username: u,
                connected,
                replies: Seq::empty(),
                close: false,
                want_pwd: false,
            }
        }
    } else {
        if toks.len() > 0 && upper(toks[0]) == "USER"@ {
            if toks.len() < 2 {
                StepResult {
                    username: u,
                    connected,
                    replies: seq![reply_denied()],
                    close: false,
                    want_pwd: false,
                }
            } else {
                StepResult {
                    username: toks[1],
                    connected,
                    replies: seq![reply_need_pass()],
                    close: false,
                    want_pwd: false,
                }
            }
        } else if u.len() > 0 && toks.len() > 0 && upper(toks[0]) == "PASS"@ {
            if upper(u) == "ANONYMOUS"@ {
                StepResult {
                    username: u,
                    connected: true,
                    replies: seq![reply_login_ok()],
                    close: false,
                    want_pwd: false,
                }
            } else {
                StepResult {
                    username: u,
                    connected: false,
                    replies: seq![reply_login_bad()],
                    close: false,
                    want_pwd: false,
                }
            }
        } else {
            StepResult {
                username: u,
                connected,
                replies: seq![reply_need_login()],
                close: false,
                want_pwd: false,
            }
        }
    }
}

/// What the connection handler is told after one command was dispatched.
pub struct CommandOutcome {
    pub replies: Vec<String>,
    pub close: bool,
    pub want_pwd: bool,
}

/// The greeting line for a freshly accepted connection.
pub fn greeting() -> (r: String)
    ensures
        r@ == reply_greeting(),
{
    String::from_str("220 Rust FTP.\r\n")
}

/// The PWD reply around the canonical root path resolved by the caller.
pub fn pwd_reply(canonical: &str) -> (r: String)
    ensures
        r@ == pwd_reply_spec(canonical@),
{
    let mut out = String::from_str("257 \"");
    out.append(canonical);
    out.append("\"\r\n");
    proof {
        assert(out@ =~= pwd_reply_spec(canonical@));
    }
    out
}

/// Dispatches one received line against the session: decodes it, answers
/// QUIT first, then the state's own commands, exactly as `step` says.
/// Authentication is never revoked, and the served root never changes.
pub fn handle_commands(client_input: &str, state: &mut ConnectionState) -> (out: CommandOutcome)
    ensures
        old(state).wf() ==> final(state).wf(),
        old(state).connected ==> final(state).connected,
        final(state).current_path == old(state).current_path,
        ({
            let r = step(old(state).username@, old(state).connected, client_input@);
            &&& final(state).username@ == r.username
            &&& final(state).connected == r.connected
            &&& out.replies.deep_view() == r.replies
            &&& out.close == r.close
            &&& out.want_pwd == r.want_pwd
        }),
{
    let parsed = parse_user_input(client_input);
    let ghost toks = tokens_of(strip_crlf(client_input@));
    let ghost r = step(old(state).username@, old(state).connected, client_input@);
    proof {
        lemma_keywords();
        assert(parsed.argv.deep_view() == toks);
        assert(parsed.argv@.len() == toks.len());
    }
    let mut replies: Vec<String> = Vec::new();
    let has_verb = parsed.argv.len() > 0;
    proof {
        if has_verb {
            assert(parsed.argv@[0]@ == toks[0]);
        }
    }
    if has_verb && eq_up_to_case(parsed.argv[0].as_str(), "QUIT") {
        replies.push(String::from_str("221 Goodbye.\r\n"));
        proof {
            assert(replies.deep_view() =~= r.replies);
        }
        CommandOutcome { replies, close: true, want_pwd: false }
    } else if state.connected {
        if has_verb && eq_up_to_case(parsed.argv[0].as_str(), "HELP") {
            replies.push(String::from_str("214-The following commands are recognized.\r\n"));
            replies.push(String::from_str("214 Help OK.\r\n"));
            proof {
                assert(replies.deep_view() =~= r.replies);
            }
            CommandOutcome { replies, close: false, want_pwd: false }
        } else if has_verb && eq_up_to_case(parsed.argv[0].as_str(), "PWD") {
            proof {
                assert(replies.deep_view() =~= r.replies);
            }
            CommandOutcome { replies, close: false, want_pwd: true }
        } else {
            proof {
                assert(replies.deep_view() =~= r.replies);
            }
            CommandOutcome { replies, close: false, want_pwd: false }
        }
    } else {
        if has_verb && eq_up_to_case(parsed.argv[0].as_str(), "USER") {
            if parsed.argv.len() < 2 {
                replies.push(String::from_str("530 Permission denied.\r\n"));
                proof {
                    assert(replies.deep_view() =~= r.replies);
                }
                CommandOutcome { replies, close: false, want_pwd: false }
            } else {
                proof {
                    assert(parsed.argv@[1]@ == toks[1]);
                }
                let name = parsed.argv[1].clone();
                state.username = name;
                replies.push(String::from_str("331 Please specify the password.\r\n"));
                proof {
                    assert(replies.deep_view() =~= r.replies);
                }
                CommandOutcome { replies, close: false, want_pwd: false }
            }
        } else if !state.username.as_str().is_empty() && has_verb && eq_up_to_case(
            parsed.argv[0].as_str(),
            "PASS",
        ) {
            if eq_up_to_case(state.username.as_str(), "ANONYMOUS") {
                state.connected = true;
                replies.push(String::from_str("230 Login successful.\r\n"));
                proof {
                    assert(replies.deep_view() =~= r.replies);
                    assert(upper(final(state).username@) == "ANONYMOUS"@);
                    assert(final(state).username@.len() == "ANONYMOUS"@.len());
                }
                CommandOutcome { replies, close: false, want_pwd: false }
            } else {
                replies.push(String::from_str("530 Login incorrect.\r\n"));
                proof {
                    assert(replies.deep_view() =~= r.replies);
                }
                CommandOutcome { replies, close: false, want_pwd: false }
            }
        } else {
            replies.push(String::from_str("530 Please login with USER and PASS.\r\n"));
            proof {
                assert(replies.deep_view() =~= r.replies);
            }
            CommandOutcome { replies, close: false, want_pwd: false }
        }
    }
}

} // verus!
