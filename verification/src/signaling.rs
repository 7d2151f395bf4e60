//! Decisions of the signalling link to the external server: keep-alive
//! pings, automatic reconnection, and the room code carried in its URL.

use vstd::prelude::*;
use vstd::string::*;
use crate::room_code::{is_base36_char, law_base36_alphabet, room_code_text, room_code_value, CODE_LENGTH};

verus! {

/// Seconds of silence after which the link is pinged.
pub const PING_INTERVAL_SECS: u64 = 15;

/// Sessions started at this attempt count or later are not reconnected.
pub const MAX_RECONNECT_ATTEMPTS: u32 = 3;

/// The longest wait before a reconnection, in seconds.
pub const MAX_RECONNECT_DELAY_SECS: u64 = 60;

/// The external signalling server, without the room code.
pub const EXTERNAL_SERVER_BASE: &'static str = "wss://concourse.wuwa.moe/";

/// The query that marks this client as the room's server.
pub const ROLE_SERVER_QUERY: &'static str = "?role=server";

/// Five seconds doubled `attempt` times.
pub open spec fn backoff(attempt: nat) -> nat
    decreases attempt,
{
    if attempt == 0 {
        5
    } else {
        2 * backoff((attempt - 1) as nat)
    }
}

/// Seconds to wait before reconnecting after a session begun at `attempt`:
/// five seconds doubled per attempt, at most a minute.
pub open spec fn reconnect_delay(attempt: nat) -> nat {
    if backoff(attempt) < MAX_RECONNECT_DELAY_SECS {
        backoff(attempt)
    } else {
        MAX_RECONNECT_DELAY_SECS as nat
    }
}

proof fn lemma_backoff_capped(i: nat, j: nat)
    requires
        i <= j,
        backoff(i) >= MAX_RECONNECT_DELAY_SECS,
    ensures
        backoff(j) >= MAX_RECONNECT_DELAY_SECS,
    decreases j - i,
{
    if i < j {
        lemma_backoff_capped(i, (j - 1) as nat);
    }
}

/// The reconnection delay, in seconds, after a session begun at `attempt`.
pub fn reconnect_delay_secs(attempt: u32) -> (r: u64)
    ensures
        r == reconnect_delay(attempt as nat),
        r <= MAX_RECONNECT_DELAY_SECS,
{
    let mut d: u64 = 5;
    let mut i: u32 = 0;
    while i < attempt && d < MAX_RECONNECT_DELAY_SECS
        invariant
            i <= attempt,
            d == backoff(i as nat),
            d < 2 * MAX_RECONNECT_DELAY_SECS,
        decreases attempt - i,
    {
        d = d * 2;
        i = i + 1;
    }
    if d >= MAX_RECONNECT_DELAY_SECS {
        proof {
            lemma_backoff_capped(i as nat, attempt as nat);
        }
        MAX_RECONNECT_DELAY_SECS
    } else {
        d
    }
}

/// What happens when an external session ends: `None` when it was closed
/// on purpose or has used up its attempts, else the delay in seconds and
/// the attempt count the reconnection is requested with.
pub fn reconnect_plan(cancelled: bool, attempt: u32) -> (r: Option<(u64, u32)>)
    ensures
        r is Some <==> !cancelled && attempt < MAX_RECONNECT_ATTEMPTS,
        r matches Some((delay, next)) ==> delay == reconnect_delay(attempt as nat) && next == attempt + 1,
{
    if !cancelled && attempt < MAX_RECONNECT_ATTEMPTS {
        Some((reconnect_delay_secs(attempt), attempt + 1))
    } else {
        None
    }
}

/// What arrives on the link, or that nothing arrived for a ping interval.
#[derive(Clone, Copy, Debug, PartialEq, Eq)]
pub enum LinkEvent {
    /// Nothing arrived for `PING_INTERVAL_SECS`.
    Timeout,
    /// A text frame.
    Text,
    /// A pong frame.
    Pong,
    /// The server closed the link.
    Close,
    /// Any other frame.
    OtherFrame,
    /// The stream ended.
    StreamEnd,
    /// Receiving failed.
    ReceiveError,
}

/// What the reader does about an event.
#[derive(Clone, Copy, Debug, PartialEq, Eq)]
pub enum LinkAction {
    /// Send a ping and wait for an answer.
    SendPing,
    /// Parse the text as a signal packet and pass it on.
    HandleText,
    /// Nothing.
    Ignore,
    /// The link is dead: end the session.
    Disconnect,
}

/// The keep-alive rule: silence first brings a ping, silence again while
/// the ping is unanswered ends the session; any frame counts as an answer.
pub open spec fn keepalive_step(pong_pending: bool, ev: LinkEvent) -> (bool, LinkAction) {
    match ev {
        LinkEvent::Timeout => if pong_pending {
            (true, LinkAction::Disconnect)
        } else {
            (true, LinkAction::SendPing)
        },
        LinkEvent::Text => (false, LinkAction::HandleText),
        LinkEvent::Pong => (false, LinkAction::Ignore),
        LinkEvent::OtherFrame => (false, LinkAction::Ignore),
        LinkEvent::Close => (false, LinkAction::Disconnect),
        LinkEvent::StreamEnd => (pong_pending, LinkAction::Disconnect),
        LinkEvent::ReceiveError => (pong_pending, LinkAction::Disconnect),
    }
}

/// The reader's keep-alive state.
#[derive(Debug)]
pub struct Keepalive {
    /// A ping was sent and nothing has arrived since.
    pub pong_pending: bool,
}

impl Keepalive {
    /// The state of a freshly opened link.
    pub fn new() -> (r: Self)
        ensures
            !r.pong_pending,
    {
        Keepalive { pong_pending: false }
    }

    /// Applies one event and says what to do about it.
    pub fn on_event(&mut self, ev: LinkEvent) -> (r: LinkAction)
        ensures
            (final(self).pong_pending, r) == keepalive_step(old(self).pong_pending, ev),
    {
        match ev {
            LinkEvent::Timeout => {
                if self.pong_pending {
                    LinkAction::Disconnect
                } else {
                    self.pong_pending = true;
                    LinkAction::SendPing
                }
            },
            LinkEvent::Text => {
                self.pong_pending = false;
                LinkAction::HandleText
            },
            LinkEvent::Pong => {
                self.pong_pending = false;
                LinkAction::Ignore
            },
            LinkEvent::OtherFrame => {
                self.pong_pending = false;
                LinkAction::Ignore
            },
            LinkEvent::Close => {
                self.pong_pending = false;
                LinkAction::Disconnect
            },
            LinkEvent::StreamEnd => LinkAction::Disconnect,
            LinkEvent::ReceiveError => LinkAction::Disconnect,
        }
    }
}

/// A link silent for two ping intervals in a row is given up: whatever the
/// state, two timeouts with nothing between them end in a disconnect.
pub proof fn law_silent_link_dropped(pong_pending: bool)
    ensures
        ({
            let (p1, a1) = keepalive_step(pong_pending, LinkEvent::Timeout);
            a1 == LinkAction::Disconnect || keepalive_step(p1, LinkEvent::Timeout).1
                == LinkAction::Disconnect
        }),
{
}

/// Any frame from the server answers an outstanding ping: after it, a
/// timeout brings a new ping rather than a disconnect.
pub proof fn law_frame_answers_ping(pong_pending: bool, ev: LinkEvent)
    requires
        ev == LinkEvent::Text || ev == LinkEvent::Pong || ev == LinkEvent::OtherFrame,
    ensures
        keepalive_step(keepalive_step(pong_pending, ev).0, LinkEvent::Timeout).1 == LinkAction::SendPing,
{
}

/// The external server's URL for a room, as this client (the room's
/// server) connects to it.
pub open spec fn external_url_text(code: Seq<char>) -> Seq<char> {
    EXTERNAL_SERVER_BASE@ + code + ROLE_SERVER_QUERY@
}

/// The external server's URL for room `code`.
pub fn external_server_url(code: &str) -> (r: String)
    ensures
        r@ == external_url_text(code@),
{
    let mut url = String::from_str(EXTERNAL_SERVER_BASE);
    url.append(code);
    url.append(ROLE_SERVER_QUERY);
    url
}

/// `s` with every trailing `?role=server` removed.
pub open spec fn strip_role_query(s: Seq<char>) -> Seq<char>
    decreases s.len(),
{
    let q = ROLE_SERVER_QUERY@;
    if q.len() > 0 && s.len() >= q.len() && s.subrange(s.len() - q.len(), s.len() as int) == q {
        strip_role_query(s.subrange(0, s.len() - q.len()))
    } else {
        s
    }
}

/// The part of `s` after its last `/` (all of `s` when it has none).
pub open spec fn last_segment(s: Seq<char>) -> Seq<char>
    decreases s.len(),
{
    if s.len() == 0 {
        s
    } else if s.last() == '/' {
        Seq::empty()
    } else {
        last_segment(s.drop_last()).push(s.last())
    }
}

/// The room code an external URL carries: its last path segment once the
/// role query is taken off.
pub open spec fn room_code_of_url(url: Seq<char>) -> Seq<char> {
    last_segment(strip_role_query(url))
}

fn ends_with_at(url: &str, end: usize, q: &str) -> (r: bool)
    requires
        end <= url@.len(),
    ensures
        r == (end >= q@.len() && url@.subrange(end - q@.len(), end as int) == q@),
{
    let qn = q.unicode_len();
    if end < qn {
        return false;
    }
    let tail = String::from_str(url.substring_char(end - qn, end));
    let want = String::from_str(q);
    tail == want
}

/// The room code carried by an external server URL: the last path segment
/// once every trailing `?role=server` is taken off.
pub fn room_code_from_url(url: &str) -> (r: String)
    ensures
        r@ == room_code_of_url(url@),
{
    let q = ROLE_SERVER_QUERY;
    proof {
        reveal_strlit("?role=server");
    }
    let qn = q.unicode_len();
    let n = url.unicode_len();
    let mut end = n;
    assert(url@.subrange(0, n as int) =~= url@);
    while ends_with_at(url, end, q)
        invariant
            end <= url@.len(),
            qn == q@.len(),
            q@ == ROLE_SERVER_QUERY@,
            qn == 12,
            strip_role_query(url@) == strip_role_query(url@.subrange(0, end as int)),
        decreases end,
    {
        proof {
            let sub = url@.subrange(0, end as int);
            assert(sub.subrange(sub.len() - qn, sub.len() as int) =~= url@.subrange(end - qn, end as int));
            assert(sub.subrange(0, sub.len() - qn) =~= url@.subrange(0, end - qn));
        }
        end = end - qn;
    }
    proof {
        let sub = url@.subrange(0, end as int);
        assert(sub.len() >= qn ==> sub.subrange(sub.len() - qn, sub.len() as int) =~= url@.subrange(
            end - qn,
            end as int,
        ));
        assert(strip_role_query(sub) == sub);
    }
    let mut start = end;
    assert(url@.subrange(start as int, end as int) =~= Seq::<char>::empty());
    assert(last_segment(url@.subrange(0, end as int)) =~= last_segment(url@.subrange(0, start as int))
        + url@.subrange(start as int, end as int));
    while start > 0 && url.get_char(start - 1) != '/'
        invariant
            start <= end <= url@.len(),
            last_segment(url@.subrange(0, end as int)) == last_segment(url@.subrange(0, start as int))
                + url@.subrange(start as int, end as int),
        decreases start,
    {
        proof {
            let pre = url@.subrange(0, start as int);
            assert(pre.drop_last() =~= url@.subrange(0, start - 1));
            assert(pre.last() == url@[start - 1]);
            assert(url@.subrange(start - 1, end as int) =~= seq![url@[start - 1]] + url@.subrange(
                start as int,
                end as int,
            ));
            assert(last_segment(pre.drop_last()).push(pre.last()) + url@.subrange(start as int, end as int)
                =~= last_segment(pre.drop_last()) + url@.subrange(start - 1, end as int));
        }
        start = start - 1;
    }
    proof {
        let pre = url@.subrange(0, start as int);
        if start > 0 {
            assert(pre.last() == url@[start - 1]);
            assert(last_segment(pre) =~= Seq::<char>::empty());
        } else {
            assert(pre =~= Seq::<char>::empty());
        }
        assert(last_segment(url@.subrange(0, end as int)) =~= url@.subrange(start as int, end as int));
    }
    String::from_str(url.substring_char(start, end))
}

proof fn lemma_last_segment_append(s: Seq<char>, t: Seq<char>)
    requires
        forall|i: int| 0 <= i < t.len() ==> t[i] != '/',
    ensures
        last_segment(s + t) == last_segment(s) + t,
    decreases t.len(),
{
    if t.len() == 0 {
        assert(s + t =~= s);
        assert(last_segment(s) + t =~= last_segment(s));
    } else {
        let t1 = t.drop_last();
        lemma_last_segment_append(s, t1);
        assert((s + t).drop_last() =~= s + t1);
        assert((s + t).last() == t.last());
        assert(last_segment(s + t1).push(t.last()) =~= last_segment(s) + t);
    }
}

/// The room code read back from the external URL built for it is the code
/// itself, for any code without `/` and `?` (every base-36 room code).
pub proof fn law_room_code_url_round_trip(code: Seq<char>)
    requires
        forall|i: int| 0 <= i < code.len() ==> code[i] != '/' && code[i] != '?',
    ensures
        room_code_of_url(external_url_text(code)) == code,
{
    reveal_strlit("?role=server");
    reveal_strlit("wss://concourse.wuwa.moe/");
    let base = EXTERNAL_SERVER_BASE@;
    let q = ROLE_SERVER_QUERY@;
    let s = base + code;
    let url = s + q;
    assert(url == external_url_text(code));
    assert(url.subrange(url.len() - q.len(), url.len() as int) =~= q);
    assert(url.subrange(0, url.len() - q.len()) =~= s);
    assert(strip_role_query(url) == strip_role_query(s));
    if s.len() >= q.len() {
        let tail = s.subrange(s.len() - q.len(), s.len() as int);
        let k = s.len() - q.len();
        if k < base.len() {
            assert(s[k] == base[k]);
        } else {
            assert(s[k] == code[k - base.len()]);
        }
        assert(tail[0] != q[0]);
    }
    assert(strip_role_query(s) == s);
    lemma_last_segment_append(base, code);
    assert(base.last() == '/');
    assert(last_segment(base) =~= Seq::<char>::empty());
    assert(Seq::<char>::empty() + code =~= code);
}

/// The code a reconnection reads back from the external URL is the room
/// code the session was opened with, for every generated room code.
pub proof fn law_generated_code_survives_reconnect(millis: u64, random_part: u64)
    ensures
        room_code_of_url(external_url_text(room_code_text(millis, random_part))) == room_code_text(
            millis,
            random_part,
        ),
{
    let code = room_code_text(millis, random_part);
    law_base36_alphabet(room_code_value(millis, random_part), CODE_LENGTH as nat);
    assert forall|i: int| 0 <= i < code.len() implies code[i] != '/' && code[i] != '?' by {
        assert(is_base36_char(code[i]));
    }
    law_room_code_url_round_trip(code);
}

} // verus!
