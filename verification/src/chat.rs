//! The interactive conversation: the history it starts from, what a line typed by the
//! user asks for, how a turn enters and leaves the history, and the server's address.
use vstd::prelude::*;

use vstd::string::StringExecFns;

use crate::api::{is_system, same_messages, Message};
use crate::config::AppConfig;
use crate::text::{
    chars_of, decimal, decimal_text, joined, lemma_decimal_value, same_text, trim, trimmed,
};

verus! {

broadcast use vstd::string::group_string_axioms;

/// Whether `history` is the start of a conversation with the system prompt `system`:
/// that prompt as the only message, or nothing where there is no prompt.
pub open spec fn opening(history: Seq<Message>, system: Option<Seq<char>>) -> bool {
    match system {
        Some(prompt) => history.len() == 1 && is_system(history[0]) && history[0].content@ == prompt,
        None => history.len() == 0,
    }
}

/// The history that a cleared conversation keeps: its system prompt, if it opens with one.
pub open spec fn cleared(history: Seq<Message>) -> Seq<Message> {
    if history.len() > 0 && is_system(history[0]) {
        history.take(1)
    } else {
        seq![]
    }
}

/// Whether `after` is `before` with one more message, from `role`, saying `content`.
pub open spec fn appends_message(
    before: Seq<Message>,
    after: Seq<Message>,
    role: Seq<char>,
    content: String,
) -> bool {
    &&& after.len() == before.len() + 1
    &&& after.drop_last() == before
    &&& after.last().role@ == role
    &&& after.last().content == content
}

/// `history` without its last message, where it has one.
pub open spec fn retracted(history: Seq<Message>) -> Seq<Message> {
    if history.len() > 0 {
        history.drop_last()
    } else {
        history
    }
}

/// The history a conversation starts with: the configured system prompt, if any.
pub fn initial_messages(config: &AppConfig) -> (r: Vec<Message>)
    ensures
        opening(r@, config@.system),
{
    let mut messages: Vec<Message> = Vec::new();
    if let Some(system) = &config.system {
        messages.push(Message { role: String::from_str("system"), content: system.clone() });
    }
    messages
}

/// Forgets the conversation, keeping its system prompt if it opens with one.
pub fn clear_messages(messages: &mut Vec<Message>)
    ensures
        final(messages)@ == cleared(old(messages)@),
{
    if messages.len() > 0 && same_text(messages[0].role.as_str(), "system") {
        messages.truncate(1);
    } else {
        messages.clear();
    }
}

/// Adds the user's message `text` to the conversation.
pub fn begin_turn(messages: &mut Vec<Message>, text: String)
    ensures
        appends_message(old(messages)@, final(messages)@, "user"@, text),
{
    messages.push(Message { role: String::from_str("user"), content: text });
    proof {
        assert(final(messages)@.drop_last() =~= old(messages)@);
    }
}

/// Ends a turn: the server's `answer` joins the conversation as the assistant's message;
/// without one (the request failed) the user's message that opened the turn is taken back.
pub fn end_turn(messages: &mut Vec<Message>, answer: Option<String>)
    ensures
        answer matches Some(a) ==> appends_message(old(messages)@, final(messages)@, "assistant"@, a),
        answer is None ==> final(messages)@ == retracted(old(messages)@),
{
    match answer {
        Some(a) => {
            messages.push(Message { role: String::from_str("assistant"), content: a });
            proof {
                assert(final(messages)@.drop_last() =~= old(messages)@);
            }
        },
        None => {
            messages.pop();
        },
    }
}

/// What a line typed by the user asks for.
#[derive(Debug, Clone, Copy, PartialEq, Eq, Structural)]
pub enum InputAction {
    /// Nothing: the line is blank.
    Skip,
    /// End the conversation.
    Quit,
    /// Forget the conversation.
    Clear,
    /// Send the line to the server.
    Send,
}

/// What the trimmed line `line` asks for.
pub open spec fn input_action(line: Seq<char>) -> InputAction {
    if line.len() == 0 {
        InputAction::Skip
    } else if line == "/quit"@ || line == "/exit"@ {
        InputAction::Quit
    } else if line == "/clear"@ {
        InputAction::Clear
    } else {
        InputAction::Send
    }
}

/// A line typed by the user, without white space at its ends, and what it asks for.
pub fn read_input(line: &str) -> (r: (String, InputAction))
    ensures
        r.0@ == trimmed(line@),
        r.1 == input_action(r.0@),
        (r.1 == InputAction::Skip) == (r.0@.len() == 0),
{
    let text = trim(line);
    let action = if text.as_str().unicode_len() == 0 {
        InputAction::Skip
    } else if same_text(text.as_str(), "/quit") || same_text(text.as_str(), "/exit") {
        InputAction::Quit
    } else if same_text(text.as_str(), "/clear") {
        InputAction::Clear
    } else {
        InputAction::Send
    };
    (text, action)
}

/// The host part of a URL for `ip`: a bare IPv6 address (one holding `:` and not already
/// in brackets) is put in brackets.
pub open spec fn host_part(ip: Seq<char>) -> Seq<char> {
    if ip.contains(':') && !(ip.len() > 0 && ip[0] == '[') {
        "["@ + ip + "]"@
    } else {
        ip
    }
}

/// The base URL of the server at `ip` and `port`.
pub open spec fn base_url(ip: Seq<char>, port: u16) -> Seq<char> {
    "http://"@ + host_part(ip) + ":"@ + decimal(port as nat)
}

/// The base URL of the server at `ip` and `port`, such as `http://127.0.0.1:8031`.
pub fn format_base_url(ip: &str, port: u16) -> (r: String)
    ensures
        r@ == base_url(ip@, port),
{
    let chars = chars_of(ip);
    let mut has_colon = false;
    let mut i: usize = 0;
    while i < chars.len()
        invariant
            chars@ == ip@,
            i <= chars@.len(),
            has_colon == chars@.take(i as int).contains(':'),
        decreases chars.len() - i,
    {
        let ghost seen = chars@.take(i as int);
        let ghost next = chars@.take(i + 1);
        proof {
            assert(next =~= seen.push(chars@[i as int]));
        }
        if chars[i] == ':' {
            has_colon = true;
            proof {
                assert(next[i as int] == ':');
            }
        } else {
            proof {
                if next.contains(':') {
                    let k = choose|k: int| 0 <= k < next.len() && next[k] == ':';
                    assert(seen[k] == ':');
                }
                if seen.contains(':') {
                    let k = choose|k: int| 0 <= k < seen.len() && seen[k] == ':';
                    assert(next[k] == ':');
                }
            }
        }
        i = i + 1;
    }
    proof {
        assert(chars@.take(chars@.len() as int) =~= chars@);
    }
    let bracketed = chars.len() > 0 && chars[0] == '[';
    let host = if has_colon && !bracketed {
        let opened = joined("[", ip);
        joined(opened.as_str(), "]")
    } else {
        String::from_str(ip)
    };
    let url = joined("http://", host.as_str());
    let url = joined(url.as_str(), ":");
    let port_text = decimal_text(port as u64);
    joined(url.as_str(), port_text.as_str())
}

/// The chat completion endpoint of the server at `ip` and `port`.
pub open spec fn endpoint_url(ip: Seq<char>, port: u16) -> Seq<char> {
    base_url(ip, port) + "/v1/chat/completions"@
}

/// The chat completion endpoint of the configured server.
pub fn chat_endpoint(config: &AppConfig) -> (r: String)
    ensures
        r@ == endpoint_url(config@.ip, config@.port),
        r@ == base_url(config@.ip, config@.port) + "/v1/chat/completions"@,
{
    let base = format_base_url(config.ip.as_str(), config.port);
    joined(base.as_str(), "/v1/chat/completions")
}

/// Clearing a conversation that started from `history` brings it back to that start,
/// whatever turns `later` followed.
pub proof fn lemma_clear_returns_to_opening(
    history: Seq<Message>,
    system: Option<Seq<char>>,
    later: Seq<Message>,
)
    requires
        opening(history, system),
        later.len() > 0 && history.len() == 0 ==> !is_system(later[0]),
    ensures
        cleared(history + later) == history,
{
    let all = history + later;
    if history.len() == 1 {
        assert(all[0] == history[0]);
        assert(all.take(1) =~= history);
    } else {
        assert(all =~= later);
    }
}

/// Clearing twice is clearing once.
pub proof fn lemma_clear_idempotent(history: Seq<Message>)
    ensures
        cleared(cleared(history)) == cleared(history),
{
    if history.len() > 0 && is_system(history[0]) {
        let once = history.take(1);
        assert(once[0] == history[0]);
        assert(once.take(1) =~= once);
    }
}

/// A turn that fails leaves the conversation as it was before the user's message.
pub proof fn lemma_failed_turn_restores(
    before: Seq<Message>,
    during: Seq<Message>,
    text: String,
)
    requires
        appends_message(before, during, "user"@, text),
    ensures
        retracted(during) == before,
{
}

/// In a conversation without a system prompt, a typed `/clear` is no message for the
/// server and forgets everything; the request for the next line typed, `typed`, then carries
/// exactly one message: that line, trimmed, from the user.
pub proof fn lemma_clear_then_send(
    history: Seq<Message>,
    typed: Seq<char>,
    text: String,
    after: Seq<Message>,
    sent: Seq<Message>,
)
    requires
        history.len() == 0 || !is_system(history[0]),
        text@ == trimmed(typed),
        appends_message(cleared(history), after, "user"@, text),
        same_messages(sent, after),
    ensures
        input_action("/clear"@) == InputAction::Clear,
        cleared(history) == Seq::<Message>::empty(),
        sent.len() == 1,
        sent[0].role@ == "user"@,
        sent[0].content@ == trimmed(typed),
{
    reveal_strlit("/clear");
    reveal_strlit("/quit");
    reveal_strlit("/exit");
    assert("/clear"@ != "/quit"@) by {
        assert("/clear"@[1] != "/quit"@[1]);
    }
    assert("/clear"@ != "/exit"@) by {
        assert("/clear"@[1] != "/exit"@[1]);
    }
    assert(sent[0].role@ == after[0].role@);
    assert(after.last() == after[0]);
}

/// Only a blank line is skipped; `/quit` and `/exit` end, `/clear` forgets, and every other
/// line, however short, is sent.
pub proof fn lemma_only_blank_lines_are_skipped(line: Seq<char>)
    ensures
        (input_action(line) == InputAction::Skip) == (line.len() == 0),
        line == "/quit"@ || line == "/exit"@ ==> input_action(line) == InputAction::Quit,
        line == "/clear"@ ==> input_action(line) == InputAction::Clear,
        line.len() > 0 && line != "/quit"@ && line != "/exit"@ && line != "/clear"@
            ==> input_action(line) == InputAction::Send,
{
    reveal_strlit("/quit");
    reveal_strlit("/exit");
    reveal_strlit("/clear");
}

/// The endpoint is `http://`, the host, `:`, the port in decimal, and the chat completion
/// path.
pub proof fn lemma_endpoint_shape(ip: Seq<char>, port: u16)
    ensures
        endpoint_url(ip, port) == "http://"@ + host_part(ip) + ":"@ + decimal(port as nat)
            + "/v1/chat/completions"@,
{
}

/// Servers on different ports have different endpoints.
pub proof fn lemma_endpoint_tracks_port(ip: Seq<char>, p1: u16, p2: u16)
    requires
        p1 != p2,
    ensures
        endpoint_url(ip, p1) != endpoint_url(ip, p2),
{
    let pre = "http://"@ + host_part(ip) + ":"@;
    let suf = "/v1/chat/completions"@;
    let d1 = decimal(p1 as nat);
    let d2 = decimal(p2 as nat);
    let e1 = pre + d1 + suf;
    let e2 = pre + d2 + suf;
    lemma_endpoint_shape(ip, p1);
    lemma_endpoint_shape(ip, p2);
    if e1 == e2 {
        assert(e1.len() == pre.len() + d1.len() + suf.len());
        assert(e2.len() == pre.len() + d2.len() + suf.len());
        assert(d1.len() == d2.len());
        assert(d1 =~= e1.subrange(pre.len() as int, (pre.len() + d1.len()) as int));
        assert(d2 =~= e2.subrange(pre.len() as int, (pre.len() + d2.len()) as int));
        lemma_decimal_value(p1 as nat);
        lemma_decimal_value(p2 as nat);
    }
}

/// An address without `:` (a host name or IPv4 address) and one already in brackets go into
/// the URL as they are; a bare IPv6 address goes in between `[` and `]`.
pub proof fn lemma_host_brackets(ip: Seq<char>)
    ensures
        !ip.contains(':') ==> host_part(ip) == ip,
        ip.len() > 0 && ip[0] == '[' ==> host_part(ip) == ip,
        ip.contains(':') && !(ip.len() > 0 && ip[0] == '[') ==> {
            &&& host_part(ip).len() == ip.len() + 2
            &&& host_part(ip)[0] == '['
            &&& host_part(ip).last() == ']'
            &&& host_part(ip).subrange(1, ip.len() as int + 1) == ip
        },
{
    reveal_strlit("[");
    reveal_strlit("]");
    if ip.contains(':') && !(ip.len() > 0 && ip[0] == '[') {
        let h = host_part(ip);
        assert(h =~= seq!['['] + ip + seq![']']);
        assert(h.subrange(1, ip.len() as int + 1) =~= ip);
    }
}

} // verus!
