//! The protocol's laws, stated over the dispatcher's state machine and
//! proved once for every input the respective law speaks of.

use vstd::prelude::*;
use crate::dispatch::{
    lemma_keywords, reply_goodbye, reply_login_bad, reply_login_ok, reply_need_login,
    reply_need_pass, step,
};
use crate::text::{lemma_split_ws_tokens_nonempty, strip_crlf, tokens_of, upper};

verus! {

/// An unauthenticated session answers every command whose verb is none of
/// USER, PASS and QUIT with exactly the login request, stays unauthenticated,
/// keeps its identity claim, and keeps the connection open.
pub proof fn lemma_unauthenticated_rejects(u: Seq<char>, line: Seq<char>)
    requires
        ({
            let toks = tokens_of(strip_crlf(line));
            &&& toks.len() > 0
            &&& upper(toks[0]) != "USER"@
            &&& upper(toks[0]) != "PASS"@
            &&& upper(toks[0]) != "QUIT"@
        }),
    ensures
        step(u, false, line).replies == seq![reply_need_login()],
        !step(u, false, line).connected,
        step(u, false, line).username == u,
        !step(u, false, line).close,
{
}

/// PASS before any USER: with no identity claim recorded, PASS is answered
/// with the login request and the session stays unauthenticated.
pub proof fn lemma_pass_without_user(line: Seq<char>)
    requires
        ({
            let toks = tokens_of(strip_crlf(line));
            toks.len() > 0 && upper(toks[0]) == "PASS"@
        }),
    ensures
        step(Seq::empty(), false, line).replies == seq![reply_need_login()],
        !step(Seq::empty(), false, line).connected,
        step(Seq::empty(), false, line).username == Seq::<char>::empty(),
        !step(Seq::empty(), false, line).close,
{
    lemma_keywords();
}

/// USER naming the anonymous account, then PASS with any password at all,
/// authenticates the session: the first command is answered with the
/// password request, the second with the login success.
pub proof fn lemma_anonymous_login(l1: Seq<char>, l2: Seq<char>)
    requires
        ({
            let t1 = tokens_of(strip_crlf(l1));
            t1.len() >= 2 && upper(t1[0]) == "USER"@ && upper(t1[1]) == "ANONYMOUS"@
        }),
        ({
            let t2 = tokens_of(strip_crlf(l2));
            t2.len() > 0 && upper(t2[0]) == "PASS"@
        }),
    ensures
        ({
            let r1 = step(Seq::empty(), false, l1);
            let r2 = step(r1.username, r1.connected, l2);
            &&& r1.replies == seq![reply_need_pass()]
            &&& !r1.connected
            &&& r2.connected
            &&& r2.replies == seq![reply_login_ok()]
        }),
{
    lemma_keywords();
    let t1 = tokens_of(strip_crlf(l1));
    lemma_split_ws_tokens_nonempty(strip_crlf(l1), Seq::empty());
    assert(t1[1].len() > 0);
}

/// USER naming any other account, then PASS, is refused: the login stays
/// incorrect and the session stays unauthenticated.
pub proof fn lemma_wrong_user_login(l1: Seq<char>, l2: Seq<char>)
    requires
        ({
            let t1 = tokens_of(strip_crlf(l1));
            t1.len() >= 2 && upper(t1[0]) == "USER"@ && upper(t1[1]) != "ANONYMOUS"@
        }),
        ({
            let t2 = tokens_of(strip_crlf(l2));
            t2.len() > 0 && upper(t2[0]) == "PASS"@
        }),
    ensures
        ({
            let r1 = step(Seq::empty(), false, l1);
            let r2 = step(r1.username, r1.connected, l2);
            &&& r1.replies == seq![reply_need_pass()]
            &&& !r1.connected
            &&& !r2.connected
            &&& r2.replies == seq![reply_login_bad()]
        }),
{
    lemma_keywords();
    let t1 = tokens_of(strip_crlf(l1));
    lemma_split_ws_tokens_nonempty(strip_crlf(l1), Seq::empty());
    assert(t1[1].len() > 0);
}

/// QUIT sent in any state is answered with the farewell and closes the
/// connection, leaving the session fields as they were.
pub proof fn lemma_quit_closes(u: Seq<char>, connected: bool, line: Seq<char>)
    requires
        ({
            let toks = tokens_of(strip_crlf(line));
            toks.len() > 0 && upper(toks[0]) == "QUIT"@
        }),
    ensures
        step(u, connected, line).close,
        step(u, connected, line).replies == seq![reply_goodbye()],
        step(u, connected, line).username == u,
        step(u, connected, line).connected == connected,
{
}

/// PWD on an authenticated session asks the handler for the canonical root
/// path and sends nothing else, whatever identity the session holds: the
/// reply around that path is fixed by `pwd_reply`.
pub proof fn lemma_pwd_after_login(u: Seq<char>, line: Seq<char>)
    requires
        ({
            let toks = tokens_of(strip_crlf(line));
            toks.len() > 0 && upper(toks[0]) == "PWD"@
        }),
    ensures
        step(u, true, line).want_pwd,
        step(u, true, line).replies == Seq::<Seq<char>>::empty(),
        step(u, true, line).connected,
        step(u, true, line).username == u,
        !step(u, true, line).close,
{
    lemma_keywords();
}

} // verus!
