//! Decisions of the coordinate collection loop: what each poll result is
//! reported as, and how often read errors reach the front end.

use vstd::prelude::*;
use vstd::string::*;
use crate::driver_client::{first_pid_named, not_running_text, WinProcDriver};
use crate::errors::{error_kind, kind_text, message_kind, NativeError};
use crate::text::{contains_text, occurs_at};

verus! {

/// Milliseconds that must pass between two reported read errors.
pub const ERROR_EMIT_INTERVAL_MS: u64 = 5000;

/// Milliseconds the loop sleeps between two polls.
pub const POLL_INTERVAL_MS: u64 = 100;

/// A message of the collection loop to the supervisor; `T` is the location.
#[derive(Debug)]
pub enum CollectorMessage<T> {
    /// A new location.
    Data(T),
    /// A read failed; the text is for the user.
    TemporalError(String),
    /// The game process is gone.
    Terminated,
    /// Coordinates are now found by the named method.
    OffsetFound(String),
}

/// What one poll leads to: the messages to send, in order, and whether the
/// loop ends after sending them.
#[derive(Debug)]
pub struct PollStep<T> {
    pub messages: Vec<CollectorMessage<T>>,
    pub stop: bool,
}

/// Time from `then` to `now`, zero when the clock reads earlier.
pub open spec fn elapsed_ms(now: u64, then: u64) -> int {
    if now >= then {
        now - then
    } else {
        0
    }
}

/// The text of the error reported while the offsets have not arrived.
pub open spec fn loading_text() -> Seq<char> {
    "오프셋 데이터를 불러오는 중입니다..."@
}

/// The error a poll gives while no offsets are loaded yet.
pub fn offsets_loading_error() -> (r: NativeError)
    ensures
        r matches NativeError::PointerChainError { message } && message@ == loading_text(),
{
    NativeError::PointerChainError { message: String::from_str("오프셋 데이터를 불러오는 중입니다...") }
}

/// A message as the supervisor reads it: texts by their characters.
pub enum MessageView<T> {
    Data(T),
    TemporalError(Seq<char>),
    Terminated,
    OffsetFound(Seq<char>),
}

/// The view of a message.
pub open spec fn message_view<T>(m: CollectorMessage<T>) -> MessageView<T> {
    match m {
        CollectorMessage::Data(loc) => MessageView::Data(loc),
        CollectorMessage::TemporalError(text) => MessageView::TemporalError(text@),
        CollectorMessage::Terminated => MessageView::Terminated,
        CollectorMessage::OffsetFound(label) => MessageView::OffsetFound(label@),
    }
}

/// The views of a batch of messages, in order.
pub open spec fn messages_view<T>(ms: Seq<CollectorMessage<T>>) -> Seq<MessageView<T>> {
    ms.map_values(|m: CollectorMessage<T>| message_view(m))
}

/// The loop's state as the decisions read it: the label last reported and
/// when an error was last reported.
pub open spec fn loop_view(s: CollectorLoop) -> (Option<Seq<char>>, Option<u64>) {
    (
        match s.reported_offset {
            Some(l) => Some(l@),
            None => None,
        },
        s.last_error_emit_ms,
    )
}

/// Whether an error at `now` is reported after one was last reported at
/// `last`.
pub open spec fn error_due_at(last: Option<u64>, now: u64) -> bool {
    match last {
        None => true,
        Some(t) => elapsed_ms(now, t) >= ERROR_EMIT_INTERVAL_MS,
    }
}

/// One poll: the messages sent, the next state, and whether the loop ends.
pub open spec fn poll_step<T>(
    s: (Option<Seq<char>>, Option<u64>),
    result: Result<T, NativeError>,
    label: Seq<char>,
    now: u64,
) -> (Seq<MessageView<T>>, (Option<Seq<char>>, Option<u64>), bool) {
    match result {
        Ok(loc) => (
            if s.0 == Some(label) {
                seq![MessageView::Data(loc)]
            } else {
                seq![MessageView::OffsetFound(label), MessageView::Data(loc)]
            },
            (Some(label), None),
            false,
        ),
        Err(e) => if e is ProcessTerminated {
            (seq![MessageView::Terminated], s, true)
        } else if error_due_at(s.1, now) {
            (seq![MessageView::TemporalError(kind_text(error_kind(e)))], (s.0, Some(now)), false)
        } else {
            (Seq::empty(), s, false)
        },
    }
}

/// A run of polls from state `s`, each `(result, label, now)`: all messages
/// sent, in order, the state after, and whether the loop ended (it stops
/// at the poll that ends it).
pub open spec fn poll_run<T>(
    s: (Option<Seq<char>>, Option<u64>),
    polls: Seq<(Result<T, NativeError>, Seq<char>, u64)>,
) -> (Seq<MessageView<T>>, (Option<Seq<char>>, Option<u64>), bool)
    decreases polls.len(),
{
    if polls.len() == 0 {
        (Seq::empty(), s, false)
    } else {
        let step = poll_step(s, polls[0].0, polls[0].1, polls[0].2);
        if step.2 {
            step
        } else {
            let rest = poll_run(step.1, polls.drop_first());
            (step.0 + rest.0, rest.1, rest.2)
        }
    }
}

/// The label in force after `ms` were sent from a state that had last
/// reported `reported`: the last `OffsetFound`, else `reported`.
pub open spec fn label_in_force<T>(reported: Option<Seq<char>>, ms: Seq<MessageView<T>>) -> Option<Seq<char>>
    decreases ms.len(),
{
    if ms.len() == 0 {
        reported
    } else {
        match ms.last() {
            MessageView::OffsetFound(l) => Some(l),
            _ => label_in_force(reported, ms.drop_last()),
        }
    }
}

/// The label in force over a concatenation is that of the second part,
/// started from the label in force after the first.
proof fn lemma_label_in_force_concat<T>(reported: Option<Seq<char>>, a: Seq<MessageView<T>>, b: Seq<MessageView<T>>)
    ensures
        label_in_force(reported, a + b) == label_in_force(label_in_force(reported, a), b),
    decreases b.len(),
{
    if b.len() == 0 {
        assert(a + b =~= a);
    } else {
        assert((a + b).drop_last() =~= a + b.drop_last());
        assert((a + b).last() == b.last());
        lemma_label_in_force_concat(reported, a, b.drop_last());
    }
}

/// Polls that all read a location.
pub open spec fn all_located<T>(polls: Seq<(Result<T, NativeError>, Seq<char>, u64)>) -> bool {
    forall|k: int| 0 <= k < polls.len() ==> (#[trigger] polls[k]).0 is Ok
}

/// While every poll reads a location: the loop never stops, the messages of
/// poll `k` are its location, preceded by `OffsetFound` of its label exactly
/// when that label is not the one in force; so every location is sent with
/// its poll's label in force, and a new loop starts with `OffsetFound` of
/// the first label and then the first location.
pub proof fn law_located_run<T>(
    s: (Option<Seq<char>>, Option<u64>),
    polls: Seq<(Result<T, NativeError>, Seq<char>, u64)>,
)
    requires
        all_located(polls),
    ensures
        !poll_run(s, polls).2,
        polls.len() > 0 ==> poll_run(s, polls).1 == (Some(polls.last().1), None::<u64>),
        forall|j: int|
            0 <= j < poll_run(s, polls).0.len() ==> (#[trigger] poll_run(s, polls).0[j] matches MessageView::Data(
                loc,
            ) ==> exists|k: int|
                0 <= k < polls.len() && polls[k].0 == Ok::<T, NativeError>(loc) && label_in_force(
                    s.0,
                    poll_run(s, polls).0.take(j),
                ) == Some(polls[k].1)),
        polls.len() > 0 && s.0 is None ==> poll_run(s, polls).0.take(2) == seq![
            MessageView::OffsetFound(polls[0].1),
            MessageView::<T>::Data(polls[0].0->Ok_0),
        ],
    decreases polls.len(),
{
    if polls.len() == 0 {
    } else {
        let step = poll_step(s, polls[0].0, polls[0].1, polls[0].2);
        let rest_polls = polls.drop_first();
        assert(all_located(rest_polls)) by {
            assert forall|k: int| 0 <= k < rest_polls.len() implies (#[trigger] rest_polls[k]).0 is Ok by {
                assert(rest_polls[k] == polls[k + 1]);
            }
        }
        assert(polls[0].0 is Ok);
        law_located_run(step.1, rest_polls);
        let rest = poll_run(step.1, rest_polls);
        let run = poll_run(s, polls);
        assert(run.0 == step.0 + rest.0);
        if rest_polls.len() > 0 {
            assert(rest_polls.last() == polls.last());
        }
        let loc0 = polls[0].0->Ok_0;
        assert(label_in_force(s.0, step.0) == Some(polls[0].1)) by {
            reveal_with_fuel(label_in_force, 3);
            if s.0 == Some(polls[0].1) {
                assert(step.0.drop_last().len() == 0);
            } else {
                assert(step.0.drop_last() =~= seq![MessageView::<T>::OffsetFound(polls[0].1)]);
            }
        }
        assert forall|j: int|
            0 <= j < run.0.len() && (#[trigger] run.0[j] matches MessageView::Data(_)) implies exists|k: int|
                0 <= k < polls.len() && polls[k].0 == Ok::<T, NativeError>(run.0[j]->Data_0) && label_in_force(
                    s.0,
                    run.0.take(j),
                ) == Some(polls[k].1) by {
            if j < step.0.len() {
                assert(run.0[j] == step.0[j]);
                assert(j == step.0.len() - 1);
                assert(run.0.take(j) =~= step.0.drop_last());
                assert(polls[0].0 == Ok::<T, NativeError>(loc0));
                if s.0 == Some(polls[0].1) {
                    assert(label_in_force(s.0, run.0.take(j)) == s.0);
                } else {
                    assert(label_in_force(s.0, run.0.take(j)) == Some(polls[0].1));
                }
            } else {
                let j2 = j - step.0.len();
                assert(run.0[j] == rest.0[j2]);
                let k2 = choose|k: int|
                    0 <= k < rest_polls.len() && rest_polls[k].0 == Ok::<T, NativeError>(rest.0[j2]->Data_0)
                        && label_in_force(step.1.0, rest.0.take(j2)) == Some(rest_polls[k].1);
                assert(run.0.take(j) =~= step.0 + rest.0.take(j2));
                lemma_label_in_force_concat(s.0, step.0, rest.0.take(j2));
                assert(step.1.0 == Some(polls[0].1));
                assert(polls[k2 + 1] == rest_polls[k2]);
            }
        }
        if s.0 is None {
            assert(run.0.take(2) =~= step.0);
        }
    }
}

/// What a run of polls that all read a location sends, poll by poll: the
/// poll's label with `OffsetFound` unless it is the label in force (the
/// previous poll's, or `reported` for the first), then its location.
pub open spec fn located_messages<T>(
    reported: Option<Seq<char>>,
    polls: Seq<(Result<T, NativeError>, Seq<char>, u64)>,
) -> Seq<MessageView<T>>
    decreases polls.len(),
{
    if polls.len() == 0 {
        Seq::empty()
    } else {
        let label = polls[0].1;
        let head = if reported == Some(label) {
            seq![MessageView::Data(polls[0].0->Ok_0)]
        } else {
            seq![MessageView::OffsetFound(label), MessageView::Data(polls[0].0->Ok_0)]
        };
        head + located_messages(Some(label), polls.drop_first())
    }
}

/// While every poll reads a location, the messages sent are exactly, in
/// order: for each poll, `OffsetFound` of its label when that differs from
/// the label last reported, then `Data` of its location. From a new loop
/// the first poll therefore sends `OffsetFound(d₁)`, `Data(loc₁)`.
pub proof fn law_located_messages<T>(
    s: (Option<Seq<char>>, Option<u64>),
    polls: Seq<(Result<T, NativeError>, Seq<char>, u64)>,
)
    requires
        all_located(polls),
    ensures
        poll_run(s, polls).0 == located_messages(s.0, polls),
    decreases polls.len(),
{
    if polls.len() > 0 {
        let rest_polls = polls.drop_first();
        assert(all_located(rest_polls)) by {
            assert forall|k: int| 0 <= k < rest_polls.len() implies (#[trigger] rest_polls[k]).0 is Ok by {
                assert(rest_polls[k] == polls[k + 1]);
            }
        }
        assert(polls[0].0 is Ok);
        let step = poll_step(s, polls[0].0, polls[0].1, polls[0].2);
        law_located_messages(step.1, rest_polls);
    }
}

/// Polls whose reads fail without the process ending, at non-decreasing
/// times.
pub open spec fn failing_polls<T>(polls: Seq<(Result<T, NativeError>, Seq<char>, u64)>) -> bool {
    &&& forall|k: int| 0 <= k < polls.len() ==> ((#[trigger] polls[k]).0 matches Err(e) && !(e is ProcessTerminated))
    &&& forall|a: int, b: int| 0 <= a <= b < polls.len() ==> #[trigger] polls[a].2 <= #[trigger] polls[b].2
}

/// The times of the polls in `polls` whose error was reported, from state
/// `s`.
pub open spec fn report_times<T>(
    s: (Option<Seq<char>>, Option<u64>),
    polls: Seq<(Result<T, NativeError>, Seq<char>, u64)>,
) -> Seq<u64>
    decreases polls.len(),
{
    if polls.len() == 0 {
        Seq::empty()
    } else {
        let step = poll_step(s, polls[0].0, polls[0].1, polls[0].2);
        let rest = report_times(step.1, polls.drop_first());
        if step.0.len() > 0 {
            seq![polls[0].2].add(rest)
        } else {
            rest
        }
    }
}

/// While reads keep failing (the process staying), the loop never stops,
/// sends only error reports, one per reporting poll, and two reports are at
/// least five seconds apart; after a location (or from a new loop) the
/// first failing poll is reported.
pub proof fn law_failing_run<T>(
    s: (Option<Seq<char>>, Option<u64>),
    polls: Seq<(Result<T, NativeError>, Seq<char>, u64)>,
)
    requires
        failing_polls(polls),
        s.1 matches Some(t) ==> polls.len() > 0 ==> t <= polls[0].2,
    ensures
        !poll_run(s, polls).2,
        poll_run(s, polls).0.len() == report_times(s, polls).len(),
        forall|j: int| 0 <= j < poll_run(s, polls).0.len() ==> (#[trigger] poll_run(s, polls).0[j]) is TemporalError,
        forall|a: int|
            0 <= a < report_times(s, polls).len() - 1 ==> #[trigger] report_times(s, polls)[a] + ERROR_EMIT_INTERVAL_MS
                <= report_times(s, polls)[a + 1],
        s.1 matches Some(t) ==> forall|a: int|
            0 <= a < report_times(s, polls).len() ==> t + ERROR_EMIT_INTERVAL_MS <= #[trigger] report_times(s, polls)[a],
        s.1 is None && polls.len() > 0 ==> report_times(s, polls).len() > 0 && report_times(s, polls)[0]
            == polls[0].2,
    decreases polls.len(),
{
    if polls.len() > 0 {
        let step = poll_step(s, polls[0].0, polls[0].1, polls[0].2);
        let rest_polls = polls.drop_first();
        assert(polls[0].0 matches Err(e) && !(e is ProcessTerminated));
        assert(failing_polls(rest_polls)) by {
            assert forall|k: int| 0 <= k < rest_polls.len() implies ((#[trigger] rest_polls[k]).0 matches Err(e)
                && !(e is ProcessTerminated)) by {
                assert(rest_polls[k] == polls[k + 1]);
            }
            assert forall|a: int, b: int| 0 <= a <= b < rest_polls.len() implies #[trigger] rest_polls[a].2
                <= #[trigger] rest_polls[b].2 by {
                assert(rest_polls[a] == polls[a + 1] && rest_polls[b] == polls[b + 1]);
            }
        }
        if rest_polls.len() > 0 {
            assert(rest_polls[0] == polls[1]);
            assert(polls[0].2 <= polls[1].2);
        }
        law_failing_run(step.1, rest_polls);
        let rest_t = report_times(step.1, rest_polls);
        let times = report_times(s, polls);
        let run = poll_run(s, polls);
        let rest = poll_run(step.1, rest_polls);
        assert(run.0 == step.0 + rest.0);
        assert forall|j: int| 0 <= j < run.0.len() implies (#[trigger] run.0[j]) is TemporalError by {
            if j < step.0.len() {
                assert(run.0[j] == step.0[j]);
            } else {
                assert(run.0[j] == rest.0[j - step.0.len()]);
            }
        }
        if step.0.len() > 0 {
            assert(step.1.1 == Some(polls[0].2));
            assert(times =~= seq![polls[0].2].add(rest_t));
            assert forall|a: int| 0 <= a < times.len() - 1 implies #[trigger] times[a] + ERROR_EMIT_INTERVAL_MS
                <= times[a + 1] by {
                if a == 0 {
                    assert(times[1] == rest_t[0]);
                } else {
                    assert(times[a] == rest_t[a - 1] && times[a + 1] == rest_t[a]);
                }
            }
            if let Some(t) = s.1 {
                assert(elapsed_ms(polls[0].2, t) >= ERROR_EMIT_INTERVAL_MS);
                assert forall|a: int| 0 <= a < times.len() implies t + ERROR_EMIT_INTERVAL_MS <= #[trigger] times[a] by {
                    if a > 0 {
                        assert(times[a] == rest_t[a - 1]);
                    }
                }
            }
        } else {
            assert(times == rest_t);
            assert(step.1 == s);
        }
    }
}

/// Text with no character equal to the first of `needle` does not contain
/// it.
proof fn lemma_first_char_absent(hay: Seq<char>, needle: Seq<char>)
    requires
        needle.len() > 0,
        forall|i: int| 0 <= i < hay.len() ==> #[trigger] hay[i] != needle[0],
    ensures
        !contains_text(hay, needle),
{
    if contains_text(hay, needle) {
        let i = choose|i: int| occurs_at(hay, needle, i);
        assert(hay.subrange(i, i + needle.len())[0] == hay[i]);
    }
}

/// While the offsets are loading, a poll's error reaches the user as a
/// plain read failure.
pub proof fn law_loading_reported_as_read_failure()
    ensures
        kind_text(message_kind(loading_text())) == "메모리 읽기 실패"@,
{
    reveal_strlit("오프셋 데이터를 불러오는 중입니다...");
    reveal_strlit("[ACCESS]");
    reveal_strlit("[INV_HDL]");
    reveal_strlit("[PARTIAL]");
    reveal_strlit("NULL");
    reveal_strlit("addr=0");
    let hay = loading_text();
    assert forall|i: int| 0 <= i < hay.len() implies #[trigger] hay[i] != '[' && hay[i] != 'N' && hay[i] != 'a' by {
        assert(i == 0 || i == 1 || i == 2 || i == 3 || i == 4 || i == 5 || i == 6 || i == 7 || i == 8 || i == 9
            || i == 10 || i == 11 || i == 12 || i == 13 || i == 14 || i == 15 || i == 16 || i == 17 || i == 18
            || i == 19 || i == 20);
    }
    lemma_first_char_absent(hay, "[ACCESS]"@);
    lemma_first_char_absent(hay, "[INV_HDL]"@);
    lemma_first_char_absent(hay, "[PARTIAL]"@);
    lemma_first_char_absent(hay, "NULL"@);
    lemma_first_char_absent(hay, "addr=0"@);
}

/// The state the collection loop carries from one poll to the next.
#[derive(Debug)]
pub struct CollectorLoop {
    /// The method label last reported with `OffsetFound`.
    pub reported_offset: Option<String>,
    /// When a read error was last reported, in milliseconds of a monotonic
    /// clock; cleared by a successful poll.
    pub last_error_emit_ms: Option<u64>,
}

impl CollectorLoop {
    /// The state before the first poll.
    pub fn new() -> (r: Self)
        ensures
            r.reported_offset is None,
            r.last_error_emit_ms is None,
    {
        CollectorLoop { reported_offset: None, last_error_emit_ms: None }
    }

    /// Whether a read error at `now_ms` is reported.
    pub open spec fn error_due(self, now_ms: u64) -> bool {
        match self.last_error_emit_ms {
            None => true,
            Some(t) => elapsed_ms(now_ms, t) >= ERROR_EMIT_INTERVAL_MS,
        }
    }

    /// Decides what a poll result leads to. A location is sent, preceded by
    /// the method label when that differs from the one last reported; a
    /// vanished process is reported and ends the loop; any other error is
    /// reported to the user at most once every five seconds.
    pub fn on_poll<T>(&mut self, result: Result<T, NativeError>, diagnostics: String, now_ms: u64) -> (r:
        PollStep<T>)
        ensures
            result matches Ok(loc) ==> ({
                &&& !r.stop
                &&& final(self).last_error_emit_ms is None
                &&& final(self).reported_offset == Some(diagnostics)
                &&& if old(self).reported_offset matches Some(s) && s@ == diagnostics@ {
                    r.messages@ == seq![CollectorMessage::Data(loc)]
                } else {
                    r.messages@ == seq![CollectorMessage::OffsetFound(diagnostics), CollectorMessage::Data(loc)]
                }
            }),
            result matches Err(NativeError::ProcessTerminated) ==> ({
                &&& r.stop
                &&& r.messages@ == seq![CollectorMessage::<T>::Terminated]
                &&& *final(self) == *old(self)
            }),
            (messages_view(r.messages@), loop_view(*final(self)), r.stop) == poll_step(
                loop_view(*old(self)),
                result,
                diagnostics@,
                now_ms,
            ),
            result matches Err(e) ==> (!(e is ProcessTerminated) ==> {
                &&& !r.stop
                &&& final(self).reported_offset == old(self).reported_offset
                &&& if old(self).error_due(now_ms) {
                    &&& r.messages@.len() == 1
                    &&& r.messages@[0] matches CollectorMessage::TemporalError(text) && text@ == kind_text(
                        error_kind(e),
                    )
                    &&& final(self).last_error_emit_ms == Some(now_ms)
                } else {
                    &&& r.messages@.len() == 0
                    &&& final(self).last_error_emit_ms == old(self).last_error_emit_ms
                }
            }),
    {
        match result {
            Ok(loc) => {
                self.last_error_emit_ms = None;
                let same = match &self.reported_offset {
                    Some(s) => *s == diagnostics,
                    None => false,
                };
                let mut messages: Vec<CollectorMessage<T>> = Vec::new();
                if !same {
                    messages.push(CollectorMessage::OffsetFound(diagnostics.clone()));
                }
                messages.push(CollectorMessage::Data(loc));
                self.reported_offset = Some(diagnostics);
                PollStep { messages, stop: false }
            },
            Err(NativeError::ProcessTerminated) => {
                let mut messages: Vec<CollectorMessage<T>> = Vec::new();
                messages.push(CollectorMessage::Terminated);
                PollStep { messages, stop: true }
            },
            Err(e) => {
                let due = match self.last_error_emit_ms {
                    None => true,
                    Some(t) => {
                        let elapsed = if now_ms >= t { now_ms - t } else { 0 };
                        elapsed >= ERROR_EMIT_INTERVAL_MS
                    },
                };
                let mut messages: Vec<CollectorMessage<T>> = Vec::new();
                if due {
                    self.last_error_emit_ms = Some(now_ms);
                    messages.push(CollectorMessage::TemporalError(String::from_str(e.user_message())));
                }
                PollStep { messages, stop: false }
            },
        }
    }
}

/// Two read errors are reported at least five seconds apart unless a
/// location arrived between them: after an error is reported at `t`, an
/// error at `now` before `t + 5000` is not reported.
pub proof fn law_error_reports_spaced(s: CollectorLoop, t: u64, now: u64)
    requires
        s.last_error_emit_ms == Some(t),
        t <= now < t + ERROR_EMIT_INTERVAL_MS,
    ensures
        !s.error_due(now),
{
}

/// The collector's hold on the game process.
#[derive(Debug)]
pub struct NativeCollector {
    pub proc: WinProcDriver,
}

impl NativeCollector {
    /// Attaches to the game named `proc_name`, given a snapshot of the
    /// running processes as `(executable name, pid)`.
    pub fn new(proc_name: &str, processes: &[(String, u32)]) -> (r: Result<NativeCollector, String>)
        ensures
            r is Ok <==> first_pid_named(processes@, proc_name@) is Some,
            r matches Err(m) ==> m@ == not_running_text(),
    {
        match WinProcDriver::new(proc_name, processes) {
            Ok(proc) => Ok(NativeCollector { proc }),
            Err(e) => Err(e),
        }
    }
}

} // verus!
