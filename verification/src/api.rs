//! Talking to the chat completion server: the messages of a conversation, what a reply
//! from the server means for the conversation, and how a reply body is shortened for
//! error messages.
use vstd::prelude::*;

use crate::config::AppConfig;
use crate::json::{json_document, json_item, json_member, json_str, json_tree, parse_json, Json};
use crate::text::{chars_of, is_space, joined, same_text, space_char, string_of, trim, trimmed};

verus! {

broadcast use vstd::string::group_string_axioms;

/// One message of a conversation: who said it (`system`, `user` or `assistant`) and what.
#[derive(Debug, Clone)]
pub struct Message {
    pub role: String,
    pub content: String,
}

/// One choice of a chat completion response.
#[derive(Debug)]
pub struct Choice {
    pub message: Message,
}

/// The part of a chat completion response that the client reads.
#[derive(Debug)]
pub struct ChatResponse {
    pub choices: Vec<Choice>,
}

/// What to do after the server answered with a status and a body.
#[derive(Debug)]
pub enum StatusStep {
    /// The oldest turn was dropped from the conversation: send it again.
    Retry,
    /// The request failed, with this message.
    Fail(String),
    /// The server accepted the request: read the answer from the body.
    ReadBody,
}

/// Whether a parsed reply body is the server's "context too long" error:
/// `{"error": {"code": "exceed_context_size_error", ...}, ...}`.
pub open spec fn context_size_error_in(doc: Option<Json>) -> bool {
    &&& doc matches Some(Json::Object(top))
    &&& top.contains_key("error"@)
    &&& top["error"@] matches Json::Object(error)
    &&& error.contains_key("code"@)
    &&& error["code"@] == Json::Text("exceed_context_size_error"@)
}

/// Whether `v` is the server's "context too long" error.
fn reports_context_size_error(v: &serde_json::Value) -> (r: bool)
    ensures
        r == context_size_error_in(Some(json_tree(*v))),
{
    match json_member(v, "error") {
        Some(error) => match json_member(error, "code") {
            Some(code) => match json_str(code) {
                Some(text) => same_text(text, "exceed_context_size_error"),
                None => false,
            },
            None => false,
        },
        None => false,
    }
}

/// Whether the reply body `body` is the server's "context too long" error.
pub fn is_context_size_error(body: &str) -> (r: bool)
    ensures
        r == context_size_error_in(json_document(body@)),
{
    match parse_json(body) {
        Some(v) => reports_context_size_error(&v),
        None => false,
    }
}

/// Whether `m` is a system prompt.
pub open spec fn is_system(m: Message) -> bool {
    m.role@ == "system"@
}

/// Whether `history` opens with a system prompt.
pub open spec fn opens_with_prompt(history: Seq<Message>) -> bool {
    history.len() > 0 && is_system(history[0])
}

/// Whether `history` holds a user/assistant turn that can go while the message just sent
/// (the last one) and any opening system prompt stay.
pub open spec fn can_drop_turn(history: Seq<Message>) -> bool {
    if opens_with_prompt(history) {
        history.len() >= 4
    } else {
        history.len() >= 3
    }
}

/// `history` without its oldest user/assistant turn: the two messages after the system
/// prompt where it opens with one, else its first two messages.
pub open spec fn without_oldest_turn(history: Seq<Message>) -> Seq<Message> {
    if opens_with_prompt(history) {
        history.take(1) + history.skip(3)
    } else {
        history.skip(2)
    }
}

/// Drops the oldest user/assistant turn from a conversation whose last message is the
/// user message just added, keeping an opening system prompt; a conversation with no turn
/// before that message is kept.
pub fn drop_oldest_turn(messages: &mut Vec<Message>) -> (dropped: bool)
    ensures
        dropped == can_drop_turn(old(messages)@),
        dropped ==> final(messages)@ == without_oldest_turn(old(messages)@),
        !dropped ==> final(messages)@ == old(messages)@,
        dropped ==> final(messages)@.len() == old(messages)@.len() - 2,
        dropped && opens_with_prompt(old(messages)@) ==> final(messages)@[0] == old(messages)@[0]
            && forall|k: int|
            1 <= k < final(messages)@.len() ==> #[trigger] final(messages)@[k] == old(
                messages,
            )@[k + 2],
        dropped && !opens_with_prompt(old(messages)@) ==> forall|k: int|
            0 <= k < final(messages)@.len() ==> #[trigger] final(messages)@[k] == old(
                messages,
            )@[k + 2],
{
    let prompt = messages.len() > 0 && same_text(messages[0].role.as_str(), "system");
    if prompt {
        if messages.len() >= 4 {
            messages.remove(1);
            messages.remove(1);
            proof {
                assert(final(messages)@ =~= old(messages)@.take(1) + old(messages)@.skip(3));
            }
            true
        } else {
            false
        }
    } else if messages.len() >= 3 {
        messages.remove(0);
        messages.remove(0);
        proof {
            assert(final(messages)@ =~= old(messages)@.skip(2));
        }
        true
    } else {
        false
    }
}

/// The white-space separated words of `s`, in order, as `str::split_whitespace` yields them.
pub open spec fn words(s: Seq<char>) -> Seq<Seq<char>>
    decreases s.len(),
{
    if s.len() == 0 {
        seq![]
    } else {
        let w = words(s.drop_last());
        let c = s.last();
        if is_space(c) {
            w
        } else if s.len() == 1 || is_space(s[s.len() - 2]) {
            w.push(seq![c])
        } else {
            w.update(w.len() - 1, w.last().push(c))
        }
    }
}

/// The words `w` joined by single spaces.
pub open spec fn join_words(w: Seq<Seq<char>>) -> Seq<char>
    decreases w.len(),
{
    if w.len() == 0 {
        seq![]
    } else if w.len() == 1 {
        w[0]
    } else {
        join_words(w.drop_last()) + seq![' '] + w.last()
    }
}

/// The most characters of a reply body that an error message quotes.
pub open spec fn body_limit() -> nat {
    500
}

/// A reply body on one line: its words joined by single spaces, cut after
/// `body_limit()` characters and then marked with "...".
pub open spec fn compact_text(s: Seq<char>) -> Seq<char> {
    let j = join_words(words(s));
    if j.len() <= body_limit() {
        j
    } else {
        j.take(body_limit() as int) + seq!['.', '.', '.']
    }
}

proof fn lemma_join_push(w: Seq<Seq<char>>, x: Seq<char>)
    ensures
        join_words(w.push(x)) == if w.len() == 0 {
            x
        } else {
            join_words(w) + seq![' '] + x
        },
{
    assert(w.push(x).drop_last() =~= w);
}

proof fn lemma_join_extend(w: Seq<Seq<char>>, c: char)
    requires
        w.len() > 0,
    ensures
        join_words(w.update(w.len() - 1, w.last().push(c))) == join_words(w).push(c),
{
    let w2 = w.update(w.len() - 1, w.last().push(c));
    if w.len() == 1 {
        assert(w2[0] == w[0].push(c));
    } else {
        assert(w2.drop_last() =~= w.drop_last());
        assert(w2.last() == w.last().push(c));
        assert(join_words(w2) == join_words(w.drop_last()) + seq![' '] + w.last().push(c));
        assert(join_words(w.drop_last()) + seq![' '] + w.last().push(c) =~= (join_words(
            w.drop_last(),
        ) + seq![' '] + w.last()).push(c));
    }
}

/// `body` on one line, shortened to at most `body_limit()` characters and "...".
pub fn compact_body(body: &str) -> (r: String)
    ensures
        r@ == compact_text(body@),
        r@.len() <= body_limit() + 3,
{
    let s = chars_of(body);
    let mut out: Vec<char> = Vec::new();
    let mut in_word = false;
    let mut i: usize = 0;
    while i < s.len()
        invariant
            s@ == body@,
            i <= s@.len(),
            out@ == join_words(words(s@.take(i as int))),
            (out@.len() == 0) == (words(s@.take(i as int)).len() == 0),
            in_word == (i > 0 && !is_space(s@[i - 1])),
            in_word ==> words(s@.take(i as int)).len() > 0,
        decreases s.len() - i,
    {
        let c = s[i];
        let ghost before = words(s@.take(i as int));
        proof {
            let p = s@.take(i + 1);
            assert(p.drop_last() =~= s@.take(i as int));
            assert(p.last() == c);
            if i > 0 {
                assert(p[p.len() - 2] == s@[i - 1]);
            }
        }
        if space_char(c) {
            in_word = false;
        } else if in_word {
            out.push(c);
            proof {
                lemma_join_extend(before, c);
            }
        } else {
            let had_words = out.len() > 0;
            if had_words {
                out.push(' ');
            }
            out.push(c);
            proof {
                lemma_join_push(before, seq![c]);
                if had_words {
                    assert(out@ =~= join_words(before) + seq![' '] + seq![c]);
                } else {
                    assert(out@ =~= seq![c]);
                }
            }
            in_word = true;
        }
        i = i + 1;
    }
    proof {
        assert(s@.take(s@.len() as int) =~= s@);
    }
    if out.len() <= 500 {
        string_of(&out, 0, out.len())
    } else {
        let mut r = string_of(&out, 0, 500);
        r.push('.');
        r.push('.');
        r.push('.');
        proof {
            assert(out@.subrange(0, 500) =~= out@.take(500));
            assert(r@ =~= out@.take(500) + seq!['.', '.', '.']);
        }
        r
    }
}

/// Whether `w` is a word: characters, at least one, none of them white space.
pub open spec fn is_word(w: Seq<char>) -> bool {
    w.len() > 0 && forall|k: int| 0 <= k < w.len() ==> !is_space(#[trigger] w[k])
}

proof fn lemma_words_are_words(s: Seq<char>)
    ensures
        forall|k: int| 0 <= k < words(s).len() ==> is_word(#[trigger] words(s)[k]),
    decreases s.len(),
{
    if s.len() > 0 {
        lemma_words_are_words(s.drop_last());
        let w = words(s.drop_last());
        let c = s.last();
        if !is_space(c) && !(s.len() == 1 || is_space(s[s.len() - 2])) {
            // the last word grows by `c`; it exists because the character before `c` is in it
            lemma_words_nonempty(s.drop_last());
            let grown = w.last().push(c);
            assert(is_word(w.last()));
            assert forall|k: int| 0 <= k < grown.len() implies !is_space(#[trigger] grown[k]) by {
                if k < w.last().len() {
                    assert(grown[k] == w.last()[k]);
                }
            }
        }
    }
}

proof fn lemma_words_nonempty(s: Seq<char>)
    requires
        s.len() > 0,
        !is_space(s.last()),
    ensures
        words(s).len() > 0,
    decreases s.len(),
{
    if !(s.len() == 1 || is_space(s[s.len() - 2])) {
        let p = s.drop_last();
        assert(p.last() == s[s.len() - 2]);
        lemma_words_nonempty(p);
    }
}

proof fn lemma_words_trailing_space(s: Seq<char>)
    ensures
        words(s.push(' ')) == words(s),
{
    assert(s.push(' ').drop_last() =~= s);
}

proof fn lemma_words_append_word(s: Seq<char>, t: Seq<char>)
    requires
        s.len() == 0 || is_space(s.last()),
        is_word(t),
    ensures
        words(s + t) == words(s).push(t),
    decreases t.len(),
{
    let st = s + t;
    if t.len() == 1 {
        assert(st.drop_last() =~= s);
        assert(st.last() == t[0]);
        assert(t =~= seq![t[0]]);
        if st.len() > 1 {
            assert(st[st.len() - 2] == s.last());
        }
    } else {
        let u = t.drop_last();
        assert(is_word(u)) by {
            assert forall|k: int| 0 <= k < u.len() implies !is_space(#[trigger] u[k]) by {
                assert(u[k] == t[k]);
            }
        }
        lemma_words_append_word(s, u);
        assert(st.drop_last() =~= s + u);
        assert(st[st.len() - 2] == t[t.len() - 2]);
        assert(!is_space(t[t.len() - 2]));
        assert(!is_space(t.last()));
        assert(words(s).push(u).update(words(s).len() as int, u.push(t.last())) =~= words(s).push(
            t,
        )) by {
            assert(u.push(t.last()) =~= t);
        }
    }
}

proof fn lemma_words_of_joined(w: Seq<Seq<char>>)
    requires
        forall|k: int| 0 <= k < w.len() ==> is_word(#[trigger] w[k]),
    ensures
        words(join_words(w)) == w,
    decreases w.len(),
{
    if w.len() == 0 {
        assert(words(seq![]) == Seq::<Seq<char>>::empty());
        assert(w =~= Seq::<Seq<char>>::empty());
    } else if w.len() == 1 {
        assert(is_word(w[0]));
        lemma_words_append_word(seq![], w[0]);
        assert(Seq::<char>::empty() + w[0] =~= w[0]);
        assert(words(Seq::<char>::empty()) =~= Seq::<Seq<char>>::empty());
        assert(Seq::<Seq<char>>::empty().push(w[0]) =~= w);
    } else {
        let front = w.drop_last();
        assert forall|k: int| 0 <= k < front.len() implies is_word(#[trigger] front[k]) by {
            assert(front[k] == w[k]);
        }
        lemma_words_of_joined(front);
        let j = join_words(front);
        lemma_words_trailing_space(j);
        assert(j + seq![' '] =~= j.push(' '));
        assert(is_word(w.last()));
        lemma_words_append_word(j.push(' '), w.last());
        assert(front.push(w.last()) =~= w);
    }
}

/// Whether `u` is already on one line: its only white space is single spaces, each between
/// two other characters.
pub open spec fn is_tidy(u: Seq<char>) -> bool {
    forall|k: int|
        0 <= k < u.len() && is_space(#[trigger] u[k]) ==> {
            &&& u[k] == ' '
            &&& 0 < k < u.len() - 1
            &&& !is_space(u[k - 1])
            &&& !is_space(u[k + 1])
        }
}

proof fn lemma_joined_words_tidy(w: Seq<Seq<char>>)
    requires
        forall|k: int| 0 <= k < w.len() ==> is_word(#[trigger] w[k]),
    ensures
        is_tidy(join_words(w)),
        w.len() > 0 ==> join_words(w).len() > 0,
    decreases w.len(),
{
    if w.len() == 1 {
        assert(is_word(w[0]));
    } else if w.len() > 1 {
        let front = w.drop_last();
        assert forall|k: int| 0 <= k < front.len() implies is_word(#[trigger] front[k]) by {
            assert(front[k] == w[k]);
        }
        lemma_joined_words_tidy(front);
        let j = join_words(front);
        let x = w.last();
        assert(is_word(x));
        let u = j + seq![' '] + x;
        assert(u == join_words(w));
        assert forall|k: int| 0 <= k < u.len() && is_space(#[trigger] u[k]) implies {
            &&& u[k] == ' '
            &&& 0 < k < u.len() - 1
            &&& !is_space(u[k - 1])
            &&& !is_space(u[k + 1])
        } by {
            if k < j.len() {
                assert(u[k] == j[k]);
                assert(u[k - 1] == j[k - 1]);
                assert(u[k + 1] == j[k + 1]);
            } else if k == j.len() {
                assert(u[k - 1] == j[j.len() - 1]);
                if is_space(j[j.len() - 1]) {
                    assert(false);
                }
                assert(u[k + 1] == x[0]);
            } else {
                assert(u[k] == x[k - j.len() - 1]);
            }
        }
    }
}

proof fn lemma_tidy_prefix(u: Seq<char>, n: int)
    requires
        is_tidy(u),
        0 <= n <= u.len(),
        n == 0 || !is_space(u[n - 1]),
    ensures
        is_tidy(u.take(n)),
{
    let p = u.take(n);
    assert forall|k: int| 0 <= k < p.len() && is_space(#[trigger] p[k]) implies {
        &&& p[k] == ' '
        &&& 0 < k < p.len() - 1
        &&& !is_space(p[k - 1])
        &&& !is_space(p[k + 1])
    } by {
        assert(p[k] == u[k]);
        assert(is_space(u[k]));
        assert(k != n - 1);
        assert(p[k - 1] == u[k - 1]);
        assert(p[k + 1] == u[k + 1]);
    }
}

proof fn lemma_tidy_compacts_to_itself(u: Seq<char>)
    requires
        is_tidy(u),
    ensures
        join_words(words(u)) == u,
    decreases u.len(),
{
    if u.len() > 0 {
        let n = u.len() as int;
        let v = u.drop_last();
        let c = u.last();
        assert(!is_space(u[n - 1]));
        if n == 1 {
            assert(v =~= Seq::<char>::empty());
            lemma_join_push(words(v), seq![c]);
            assert(u =~= seq![c]);
        } else if is_space(u[n - 2]) {
            assert(!is_space(u[n - 3]));
            let v2 = u.take(n - 2);
            lemma_tidy_prefix(u, n - 2);
            lemma_tidy_compacts_to_itself(v2);
            assert(v =~= v2.push(' ')) by {
                assert(u[n - 2] == ' ');
            }
            lemma_words_trailing_space(v2);
            assert(v2.last() == u[n - 3]);
            lemma_words_nonempty(v2);
            lemma_join_push(words(v2), seq![c]);
            assert(u =~= v2 + seq![' '] + seq![c]);
        } else {
            lemma_tidy_prefix(u, n - 1);
            assert(v =~= u.take(n - 1));
            lemma_tidy_compacts_to_itself(v);
            assert(v.last() == u[n - 2]);
            lemma_words_nonempty(v);
            lemma_join_extend(words(v), c);
            assert(u =~= v.push(c));
        }
    }
}

/// Compacting is stable: a compacted body, cut or not, compacts to itself.
pub proof fn lemma_compact_stable(s: Seq<char>)
    ensures
        compact_text(compact_text(s)) == compact_text(s),
{
    lemma_words_are_words(s);
    lemma_joined_words_tidy(words(s));
    let j = join_words(words(s));
    if j.len() <= body_limit() {
        lemma_tidy_compacts_to_itself(j);
    } else {
        let t = j.take(500) + seq!['.', '.', '.'];
        assert forall|k: int| 0 <= k < t.len() && is_space(#[trigger] t[k]) implies {
            &&& t[k] == ' '
            &&& 0 < k < t.len() - 1
            &&& !is_space(t[k - 1])
            &&& !is_space(t[k + 1])
        } by {
            if k >= 500 {
                assert(t[k] == '.');
            } else {
                assert(t[k] == j[k]);
                assert(t[k - 1] == j[k - 1]);
                if k + 1 < 500 {
                    assert(t[k + 1] == j[k + 1]);
                } else {
                    assert(t[k + 1] == '.');
                }
            }
        }
        lemma_tidy_compacts_to_itself(t);
        assert(t.take(500) =~= j.take(500));
    }
}

/// A retry keeps the message that was sent last and an opening system prompt, and
/// shortens the conversation by one turn.
pub proof fn lemma_retry_keeps_last_message(before: Seq<Message>)
    requires
        can_drop_turn(before),
    ensures
        without_oldest_turn(before).len() == before.len() - 2,
        without_oldest_turn(before).last() == before.last(),
        opens_with_prompt(before) ==> without_oldest_turn(before)[0] == before[0]
            && opens_with_prompt(without_oldest_turn(before)),
{
    let after = without_oldest_turn(before);
    if opens_with_prompt(before) {
        assert(after[0] == before[0]);
        assert(after[after.len() - 1] == before[before.len() - 1]);
    } else {
        assert(after[after.len() - 1] == before[before.len() - 1]);
    }
}

/// The conversation after the server answered `n` "context too long" errors in a row to
/// the history `history`: each error drops the oldest turn while one can go.
pub open spec fn after_context_errors(history: Seq<Message>, n: nat) -> Seq<Message>
    decreases n,
{
    if n == 0 {
        history
    } else {
        let h = after_context_errors(history, (n - 1) as nat);
        if can_drop_turn(h) {
            without_oldest_turn(h)
        } else {
            h
        }
    }
}

/// Under "context too long" errors in a row, every retry keeps the message just sent and an
/// opening system prompt and shortens the conversation by a turn, so after at most half the
/// conversation's length in retries no turn is left to drop and the next such error fails
/// the request.
pub proof fn lemma_context_errors_end(history: Seq<Message>, n: nat)
    requires
        history.len() > 0,
    ensures
        after_context_errors(history, n).len() > 0,
        after_context_errors(history, n).last() == history.last(),
        opens_with_prompt(history) ==> after_context_errors(history, n)[0] == history[0],
        after_context_errors(history, n).len() <= history.len(),
        after_context_errors(history, n).len() == history.len() - 2 * n
            || !can_drop_turn(after_context_errors(history, n)),
        n >= history.len() / 2 ==> !can_drop_turn(after_context_errors(history, n)),
    decreases n,
{
    if n > 0 {
        let m = (n - 1) as nat;
        lemma_context_errors_end(history, m);
        let h = after_context_errors(history, m);
        if can_drop_turn(h) {
            lemma_retry_keeps_last_message(h);
        }
    }
}

/// The error message for a request the server refused with `status`.
pub open spec fn status_failure(status: Seq<char>, body: Seq<char>) -> Seq<char> {
    "HTTP "@ + status + ": "@ + compact_text(body)
}

/// Decides what follows from the server's status `status` (shown as `status_text`)
/// and reply body `body`: a success is read, the "context too long" error drops the
/// oldest user/assistant turn and asks for a retry while one can go, and any other status
/// fails with the status and the compacted body.
pub fn assess_status(messages: &mut Vec<Message>, status: u16, status_text: &str, body: &str) -> (step:
    StatusStep)
    ensures
        status == 200 ==> step is ReadBody && final(messages)@ == old(messages)@,
        status != 200 && context_size_error_in(json_document(body@)) && can_drop_turn(
            old(messages)@,
        ) ==> step is Retry && final(messages)@ == without_oldest_turn(old(messages)@),
        status != 200 && !(context_size_error_in(json_document(body@)) && can_drop_turn(
            old(messages)@,
        )) ==> final(messages)@ == old(messages)@ && (step matches StatusStep::Fail(e)
            && e@ == status_failure(status_text@, body@)),
{
    if status == 200 {
        return StatusStep::ReadBody;
    }
    if is_context_size_error(body) && drop_oldest_turn(messages) {
        return StatusStep::Retry;
    }
    let head = joined("HTTP ", status_text);
    let head = joined(head.as_str(), ": ");
    let tail = compact_body(body);
    StatusStep::Fail(joined(head.as_str(), tail.as_str()))
}

/// Whether two conversations hold the same messages: the same roles and contents, in order.
pub open spec fn same_messages(a: Seq<Message>, b: Seq<Message>) -> bool {
    &&& a.len() == b.len()
    &&& forall|i: int|
        0 <= i < a.len() ==> #[trigger] a[i].role@ == b[i].role@ && a[i].content@ == b[i].content@
}

impl Message {
    /// A copy of this message.
    pub fn duplicate(&self) -> (r: Message)
        ensures
            r.role@ == self.role@,
            r.content@ == self.content@,
    {
        Message { role: self.role.clone(), content: self.content.clone() }
    }
}

/// A chat completion request: the model, the whole conversation so far, and whether the
/// answer is to be streamed.
#[derive(Debug)]
pub struct ChatRequest {
    pub model: String,
    pub messages: Vec<Message>,
    pub stream: bool,
}

/// The request for the next answer: the configured model, every message of the
/// conversation, and the configured streaming.
pub fn build_request(config: &AppConfig, messages: &Vec<Message>) -> (r: ChatRequest)
    ensures
        r.model@ == config.model@,
        r.stream == config.stream,
        same_messages(r.messages@, messages@),
{
    let mut copies: Vec<Message> = Vec::new();
    let mut i: usize = 0;
    while i < messages.len()
        invariant
            i <= messages@.len(),
            same_messages(copies@, messages@.take(i as int)),
        decreases messages.len() - i,
    {
        let m = messages[i].duplicate();
        copies.push(m);
        i = i + 1;
        proof {
            let t = messages@.take(i as int);
            assert forall|k: int| 0 <= k < copies@.len() implies #[trigger] copies@[k].role@
                == t[k].role@ && copies@[k].content@ == t[k].content@ by {
                assert(t[k] == messages@[k]);
                if k < i - 1 {
                    assert(messages@.take(i - 1)[k] == messages@[k]);
                }
            }
        }
    }
    proof {
        assert(messages@.take(messages@.len() as int) =~= messages@);
    }
    ChatRequest { model: config.model.clone(), messages: copies, stream: config.stream }
}

/// What one line of a streamed answer means.
#[derive(Debug)]
pub enum StreamEvent {
    /// Nothing for the answer: a blank line, a comment, another field, or a chunk without text.
    Ignore,
    /// The stream is over.
    Done,
    /// The next piece of the answer.
    Text(String),
}

/// The data of an event-stream line: what follows `data:`, without white space at its ends,
/// where the line is a `data` field.
pub open spec fn data_payload(line: Seq<char>) -> Option<Seq<char>> {
    let t = trimmed(line);
    if t.len() >= 5 && t.take(5) == "data:"@ {
        Some(trimmed(t.skip(5)))
    } else {
        None
    }
}

/// The text of a streamed chunk: `choices[0].delta.content`, where it is a string.
pub open spec fn delta_content(doc: Option<Json>) -> Option<Seq<char>> {
    match doc {
        Some(Json::Object(top)) => if top.contains_key("choices"@) {
            match top["choices"@] {
                Json::Array(items) => if items.len() > 0 {
                    match items[0] {
                        Json::Object(choice) => if choice.contains_key("delta"@) {
                            match choice["delta"@] {
                                Json::Object(delta) => if delta.contains_key("content"@) {
                                    match delta["content"@] {
                                        Json::Text(s) => Some(s),
                                        _ => None,
                                    }
                                } else {
                                    None
                                },
                                _ => None,
                            }
                        } else {
                            None
                        },
                        _ => None,
                    }
                } else {
                    None
                },
                _ => None,
            }
        } else {
            None
        },
        _ => None,
    }
}

/// The text of a streamed chunk held in `v`.
fn chunk_text(v: &serde_json::Value) -> (r: Option<String>)
    ensures
        match delta_content(Some(json_tree(*v))) {
            Some(s) => r matches Some(t) && t@ == s,
            None => r is None,
        },
{
    let choices = match json_member(v, "choices") {
        Some(c) => c,
        None => return None,
    };
    let first = match json_item(choices, 0) {
        Some(f) => f,
        None => return None,
    };
    let delta = match json_member(first, "delta") {
        Some(d) => d,
        None => return None,
    };
    let content = match json_member(delta, "content") {
        Some(c) => c,
        None => return None,
    };
    match json_str(content) {
        Some(text) => Some(String::from_str(text)),
        None => None,
    }
}

/// What the line `line` of a streamed answer means: `data: [DONE]` ends the stream, a
/// `data` field holding a chunk with text gives that text, and every other line is ignored.
pub fn read_stream_line(line: &str) -> (r: StreamEvent)
    ensures
        match data_payload(line@) {
            None => r is Ignore,
            Some(payload) => if payload == "[DONE]"@ {
                r is Done
            } else {
                match delta_content(json_document(payload)) {
                    Some(s) => r matches StreamEvent::Text(t) && t@ == s,
                    None => r is Ignore,
                }
            },
        },
{
    let t = trim(line);
    let chars = chars_of(t.as_str());
    if chars.len() < 5 {
        return StreamEvent::Ignore;
    }
    let head = string_of(&chars, 0, 5);
    if !same_text(head.as_str(), "data:") {
        proof {
            assert(chars@.subrange(0, 5) =~= t@.take(5));
        }
        return StreamEvent::Ignore;
    }
    proof {
        assert(chars@.subrange(0, 5) =~= t@.take(5));
    }
    let rest = string_of(&chars, 5, chars.len());
    proof {
        assert(rest@ =~= t@.skip(5));
    }
    let payload = trim(rest.as_str());
    if same_text(payload.as_str(), "[DONE]") {
        return StreamEvent::Done;
    }
    match parse_json(payload.as_str()) {
        Some(v) => match chunk_text(&v) {
            Some(text) => StreamEvent::Text(text),
            None => StreamEvent::Ignore,
        },
        None => StreamEvent::Ignore,
    }
}

/// Takes the first complete line (up to its line feed) off the front of the bytes received
/// so far; without a line feed nothing is taken.
pub fn take_line(buffer: &mut Vec<u8>) -> (r: Option<Vec<u8>>)
    ensures
        match r {
            Some(line) => {
                &&& line@.len() < old(buffer)@.len()
                &&& old(buffer)@[line@.len() as int] == 10u8
                &&& !line@.contains(10u8)
                &&& line@ == old(buffer)@.take(line@.len() as int)
                &&& final(buffer)@ == old(buffer)@.skip(line@.len() as int + 1)
            },
            None => !old(buffer)@.contains(10u8) && final(buffer)@ == old(buffer)@,
        },
{
    let mut p: usize = 0;
    while p < buffer.len() && buffer[p] != 10u8
        invariant
            p <= buffer@.len(),
            forall|k: int| 0 <= k < p ==> buffer@[k] != 10u8,
        decreases buffer.len() - p,
    {
        p = p + 1;
    }
    if p == buffer.len() {
        proof {
            if buffer@.contains(10u8) {
                let k = choose|k: int| 0 <= k < buffer@.len() && buffer@[k] == 10u8;
                assert(buffer@[k] != 10u8);
            }
        }
        return None;
    }
    let ghost before = buffer@;
    let mut rest = buffer.split_off(p + 1);
    buffer.pop();
    std::mem::swap(buffer, &mut rest);
    proof {
        assert(rest@ =~= before.take(p as int));
        assert(buffer@ =~= before.skip(p + 1));
        if rest@.contains(10u8) {
            let k = choose|k: int| 0 <= k < rest@.len() && rest@[k] == 10u8;
            assert(before[k] != 10u8);
        }
    }
    Some(rest)
}

/// Dropping a turn removes exactly the oldest user/assistant pair: with a system prompt the
/// prompt stays first and the two messages after it go, without one the first two go; every
/// later message keeps its order. A turn can go exactly when, besides an opening prompt, at
/// least three messages are there (the pair and the message just sent).
pub proof fn lemma_drop_removes_oldest_pair(history: Seq<Message>)
    ensures
        can_drop_turn(history) == (history.len() >= 3 && !opens_with_prompt(history)
            || history.len() >= 4 && opens_with_prompt(history)),
        can_drop_turn(history) ==> without_oldest_turn(history).len() == history.len() - 2,
        can_drop_turn(history) && opens_with_prompt(history) ==> without_oldest_turn(history)[0]
            == history[0] && forall|k: int|
            1 <= k < history.len() - 2 ==> #[trigger] without_oldest_turn(history)[k] == history[k
                + 2],
        can_drop_turn(history) && !opens_with_prompt(history) ==> forall|k: int|
            0 <= k < history.len() - 2 ==> #[trigger] without_oldest_turn(history)[k] == history[k
                + 2],
{
}

/// The text of a streamed chunk is the string at `choices[0].delta.content`, exactly as it
/// stands, white space included; a chunk whose first choice has no string there has none.
pub proof fn lemma_chunk_text_is_the_delta_string(
    top: Map<Seq<char>, Json>,
    items: Seq<Json>,
    choice: Map<Seq<char>, Json>,
    delta: Map<Seq<char>, Json>,
    s: Seq<char>,
)
    requires
        top.contains_key("choices"@),
        top["choices"@] == Json::Array(items),
        items.len() > 0,
        items[0] == Json::Object(choice),
        choice.contains_key("delta"@),
        choice["delta"@] == Json::Object(delta),
    ensures
        delta.contains_key("content"@) && delta["content"@] == Json::Text(s) ==> delta_content(
            Some(Json::Object(top)),
        ) == Some(s),
        !(delta.contains_key("content"@) && delta["content"@] is Text) ==> delta_content(
            Some(Json::Object(top)),
        ) is None,
{
}

/// A document that is no object, or has no `choices`, carries no streamed text.
pub proof fn lemma_no_chunk_text_without_choices(doc: Option<Json>)
    requires
        !(doc matches Some(Json::Object(top)) && top.contains_key("choices"@)),
    ensures
        delta_content(doc) is None,
{
}

/// The error message for a reply body that is no chat completion response.
pub open spec fn unreadable_failure(error: Seq<char>, body: Seq<char>) -> Seq<char> {
    "无法解析服务端 JSON: "@ + error + "; 响应: "@ + compact_text(body)
}

/// The error message for a chat completion response without any choice.
pub open spec fn no_choice_failure() -> Seq<char> {
    "服务端响应中没有 choices[0].message.content"@
}

/// The answer in an accepted reply: the content of the first choice's message, given the
/// body `body` and what parsing it as a chat completion response gave (`Err` with the
/// parser's message where it is none).
pub fn read_answer(body: &str, parsed: Result<ChatResponse, String>) -> (r: Result<String, String>)
    ensures
        match parsed {
            Ok(response) => if response.choices@.len() > 0 {
                r == Ok::<String, String>(response.choices@[0].message.content)
            } else {
                r matches Err(e) && e@ == no_choice_failure()
            },
            Err(error) => r matches Err(e) && e@ == unreadable_failure(error@, body@),
        },
{
    match parsed {
        Ok(response) => {
            let mut choices = response.choices;
            if choices.len() > 0 {
                let first = choices.remove(0);
                Ok(first.message.content)
            } else {
                Err(String::from_str("服务端响应中没有 choices[0].message.content"))
            }
        },
        Err(error) => {
            let head = joined("无法解析服务端 JSON: ", error.as_str());
            let head = joined(head.as_str(), "; 响应: ");
            let tail = compact_body(body);
            Err(joined(head.as_str(), tail.as_str()))
        },
    }
}

} // verus!
