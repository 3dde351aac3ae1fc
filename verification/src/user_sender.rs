//! The client's side of the daemon's socket: what a client writes for each command, and what
//! the daemon's reply means. Connecting, writing and reading are the caller's business.
//!
//! A reply has the form `status:payload`. The status is what stands before the first colon.

use vstd::prelude::*;
use vstd::string::*;
use crate::text::str_eq;

verus! {

/// Whether `reply` holds a colon.
pub open spec fn has_colon(reply: Seq<char>) -> bool {
    exists|i: int| 0 <= i < reply.len() && reply[i] == ':'
}

/// Whether the first colon of `reply` stands at `i`.
pub open spec fn is_first_colon(reply: Seq<char>, i: int) -> bool {
    &&& 0 <= i < reply.len()
    &&& reply[i] == ':'
    &&& forall|j: int| 0 <= j < i ==> reply[j] != ':'
}

/// Where the first colon of `reply` stands.
pub open spec fn first_colon(reply: Seq<char>) -> int {
    choose|i: int| is_first_colon(reply, i)
}

/// The status of `reply`: what stands before its first colon.
pub open spec fn status_of(reply: Seq<char>) -> Seq<char> {
    reply.subrange(0, first_colon(reply))
}

/// The payload of `reply`: what stands after its first colon.
pub open spec fn payload_of(reply: Seq<char>) -> Seq<char> {
    reply.subrange(first_colon(reply) + 1, reply.len() as int)
}

/// The first colon of a reply stands in one place only.
pub proof fn lemma_first_colon(reply: Seq<char>, i: int)
    requires
        is_first_colon(reply, i),
    ensures
        has_colon(reply),
        first_colon(reply) == i,
{
    let k = first_colon(reply);
    assert(is_first_colon(reply, k));
}

/// The status and the payload of `reply`, or `None` where it holds no colon.
pub fn split_reply(reply: &str) -> (parts: Option<(&str, &str)>)
    ensures
        match parts {
            Some((status, payload)) => has_colon(reply@) && status@ == status_of(reply@)
                && payload@ == payload_of(reply@),
            None => !has_colon(reply@),
        },
{
    let n = reply.unicode_len();
    let mut i: usize = 0;
    for c in chars: reply.chars()
        invariant
            n == reply@.len(),
            chars.seq() == reply@,
            i == chars.index(),
            forall|j: int| 0 <= j < i ==> reply@[j] != ':',
    {
        if c == ':' {
            proof {
                lemma_first_colon(reply@, i as int);
            }
            return Some((reply.substring_char(0, i), reply.substring_char(i + 1, n)));
        }
        i += 1;
    }
    None
}

/// What a reply that fits no expected form is reported as.
pub open spec fn malformed(reply: Seq<char>) -> Seq<char> {
    "Malformed response '"@ + reply + "'"@
}

/// What a client is told while the user has not yet authorised the account.
pub open spec fn token_unavailable() -> Seq<char> {
    "Token unavailable until authentication complete"@
}

fn malformed_message(reply: &str) -> (msg: String)
    ensures
        msg@ == malformed(reply@),
{
    let mut msg = String::from_str("Malformed response '");
    msg.append(reply);
    msg.append("'");
    msg
}

/// What a client writes to have the token of `act_name` refreshed.
pub fn refresh_request(act_name: &str) -> (request: String)
    ensures
        request@ == "refresh "@ + act_name@,
{
    let mut request = String::from_str("refresh ");
    request.append(act_name);
    request
}

/// What a client writes to have the daemon load the configuration at `conf_path`.
pub fn reload_request(conf_path: &str) -> (request: String)
    ensures
        request@ == "reload "@ + conf_path@,
{
    let mut request = String::from_str("reload ");
    request.append(conf_path);
    request
}

/// What a client writes to be shown the token of `account`.
pub fn show_token_request(account: &str) -> (request: String)
    ensures
        request@ == "showtoken "@ + account@,
{
    let mut request = String::from_str("showtoken ");
    request.append(account);
    request
}

/// What a client writes to have the daemon stop. No reply is read.
pub fn shutdown_request() -> (request: String)
    ensures
        request@ == "shutdown"@,
{
    String::from_str("shutdown")
}

/// What the reply `reply` to a refresh of `act_name` gives to complain about: nothing for
/// `ok:`, else one line that starts with the account's name.
pub open spec fn refresh_complaint(act_name: Seq<char>, reply: Seq<char>) -> Option<Seq<char>> {
    if !has_colon(reply) {
        Some(act_name + ": "@ + malformed(reply))
    } else if status_of(reply) == "ok"@ && payload_of(reply).len() == 0 {
        None
    } else if status_of(reply) == "error"@ {
        Some(act_name + ":"@ + payload_of(reply))
    } else if status_of(reply) == "pending"@ && payload_of(reply).len() == 0 {
        Some(act_name + ": "@ + token_unavailable())
    } else {
        Some(act_name + ": "@ + malformed(reply))
    }
}

/// One account that a refresh was asked for, and the daemon's reply.
pub struct Exchange {
    pub account: String,
    pub reply: String,
}

/// The complaints that `exchanges` give, in their order.
pub open spec fn complaints(exchanges: Seq<Exchange>) -> Seq<Seq<char>>
    decreases exchanges.len(),
{
    if exchanges.len() == 0 {
        Seq::empty()
    } else {
        let before = complaints(exchanges.drop_last());
        match refresh_complaint(exchanges.last().account@, exchanges.last().reply@) {
            Some(line) => before.push(line),
            None => before,
        }
    }
}

/// `lines`, with a line feed between each two of them.
pub open spec fn joined(lines: Seq<Seq<char>>) -> Seq<char>
    decreases lines.len(),
{
    if lines.len() == 0 {
        Seq::empty()
    } else if lines.len() == 1 {
        lines[0]
    } else {
        joined(lines.drop_last()) + "\n"@ + lines.last()
    }
}

/// What the reply to a refresh of `act_name` gives to complain about, if anything.
pub fn refresh_reply(act_name: &str, reply: &str) -> (complaint: Option<String>)
    ensures
        match complaint {
            Some(line) => refresh_complaint(act_name@, reply@) == Some(line@),
            None => refresh_complaint(act_name@, reply@) is None,
        },
{
    let mut line = String::from_str(act_name);
    match split_reply(reply) {
        Some((status, payload)) => {
            if str_eq(status, "ok") && payload.is_empty() {
                return None;
            } else if str_eq(status, "error") {
                line.append(":");
                line.append(payload);
            } else if str_eq(status, "pending") && payload.is_empty() {
                line.append(": ");
                line.append("Token unavailable until authentication complete");
            } else {
                line.append(": ");
                line.append(malformed_message(reply).as_str());
            }
        },
        None => {
            line.append(": ");
            line.append(malformed_message(reply).as_str());
        },
    }
    Some(line)
}

/// The outcome of a refresh of several accounts: success where no reply gave anything to
/// complain about, else the complaints, one line each, in the order of the accounts.
pub fn refresh_outcome(exchanges: &Vec<Exchange>) -> (outcome: Result<(), String>)
    ensures
        match outcome {
            Ok(_) => complaints(exchanges@).len() == 0,
            Err(msg) => complaints(exchanges@).len() > 0 && msg@ == joined(complaints(exchanges@)),
        },
{
    let mut msg = String::new();
    let mut any = false;
    let mut i: usize = 0;
    while i < exchanges.len()
        invariant
            i <= exchanges.len(),
            any == (complaints(exchanges@.take(i as int)).len() > 0),
            msg@ == joined(complaints(exchanges@.take(i as int))),
        decreases exchanges.len() - i,
    {
        proof {
            assert(exchanges@.take(i + 1).drop_last() =~= exchanges@.take(i as int));
        }
        match refresh_reply(exchanges[i].account.as_str(), exchanges[i].reply.as_str()) {
            Some(line) => {
                if any {
                    msg.append("\n");
                }
                msg.append(line.as_str());
                any = true;
                proof {
                    let before = complaints(exchanges@.take(i as int));
                    assert(before.push(line@).drop_last() =~= before);
                }
            },
            None => {},
        }
        i += 1;
    }
    proof {
        assert(exchanges@.take(i as int) =~= exchanges@);
    }
    if any {
        Err(msg)
    } else {
        Ok(())
    }
}

/// What the reply `reply` to a reload means: success for `ok:`, else the daemon's complaint,
/// or a complaint about the reply itself.
pub open spec fn reload_result(reply: Seq<char>) -> Result<(), Seq<char>> {
    if !has_colon(reply) {
        Err(malformed(reply))
    } else if status_of(reply) == "ok"@ && payload_of(reply).len() == 0 {
        Ok(())
    } else if status_of(reply) == "error"@ {
        Err(payload_of(reply))
    } else {
        Err(malformed(reply))
    }
}

/// The outcome of a reload, from the daemon's reply.
pub fn reload_outcome(reply: &str) -> (outcome: Result<(), String>)
    ensures
        match outcome {
            Ok(_) => reload_result(reply@) is Ok,
            Err(msg) => reload_result(reply@) == Err::<(), Seq<char>>(msg@),
        },
{
    match split_reply(reply) {
        Some((status, payload)) => {
            if str_eq(status, "ok") && payload.is_empty() {
                Ok(())
            } else if str_eq(status, "error") {
                Err(String::from_str(payload))
            } else {
                Err(malformed_message(reply))
            }
        },
        None => Err(malformed_message(reply)),
    }
}

/// What the reply `reply` to a request for a token means: the token, or why there is none.
pub open spec fn show_token_result(reply: Seq<char>) -> Result<Seq<char>, Seq<char>> {
    if !has_colon(reply) {
        Err(malformed(reply))
    } else if status_of(reply) == "access_token"@ {
        Ok(payload_of(reply))
    } else if status_of(reply) == "pending"@ && payload_of(reply).len() == 0 {
        Err(token_unavailable())
    } else if status_of(reply) == "error"@ {
        Err(payload_of(reply))
    } else {
        Err(malformed(reply))
    }
}

/// The token to show, from the daemon's reply, or why there is none.
pub fn show_token_outcome(reply: &str) -> (outcome: Result<String, String>)
    ensures
        match outcome {
            Ok(token) => show_token_result(reply@) == Ok::<Seq<char>, Seq<char>>(token@),
            Err(msg) => show_token_result(reply@) == Err::<Seq<char>, Seq<char>>(msg@),
        },
{
    match split_reply(reply) {
        Some((status, payload)) => {
            if str_eq(status, "access_token") {
                Ok(String::from_str(payload))
            } else if str_eq(status, "pending") && payload.is_empty() {
                Err(String::from_str("Token unavailable until authentication complete"))
            } else if str_eq(status, "error") {
                Err(String::from_str(payload))
            } else {
                Err(malformed_message(reply))
            }
        },
        None => Err(malformed_message(reply)),
    }
}

} // verus!
