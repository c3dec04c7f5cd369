//! The ingestion consumer: the state machine that drains the event queue,
//! decodes and filters chat records, and produces the transcript lines and
//! diagnostic reports.

use vstd::prelude::*;
use crate::channel::Event;
use crate::channel::EventQueue;
use crate::data::ChatMessage;
use crate::data::Login;
use crate::data::RawChatPayload;
use crate::data::RawLoginPayload;
use crate::data::chat_decodes;
use crate::data::opt_or;
use crate::data::opt_string_view;
use crate::data::raw_suppressed;
use crate::data::spec_msg_team;
use crate::data::spec_msg_text;
use crate::data::team_display;
use crate::strutil::dec_str_of;

verus! {

/// The consumer's state: the strict-monotonicity watermark and whether the
/// terminal state was reached.
pub struct Consumer {
    /// The greatest `time` of any accepted record; starts at zero and
    /// advances only when a record is accepted.
    pub last_timestamp: u64,
    /// Whether the consumer reached its terminal state.
    pub stopped: bool,
}

/// The transcript line a decodable raw chat payload produces.
pub open spec fn raw_line(raw: RawChatPayload) -> Seq<char>
    recommends
        chat_decodes(raw),
{
    dec_str_of(raw.time->0 as int) + "\t"@ + team_display(spec_msg_team(raw.msg->0@)) + "\t"@
        + raw.username->0@ + "\t"@ + spec_msg_text(raw.msg->0@)
}

/// Whether a raw chat payload is accepted at a given watermark: it decodes,
/// is not suppressed, and its time is strictly beyond the watermark.
pub open spec fn raw_accepted(last: u64, raw: RawChatPayload) -> bool {
    chat_decodes(raw) && !raw_suppressed(raw) && raw.time->0 > last
}

/// Processing one chat batch: the watermark after the batch and the
/// transcript lines the batch appends, in order.
pub open spec fn chat_fold(last: u64, raws: Seq<RawChatPayload>) -> (u64, Seq<Seq<char>>)
    decreases raws.len(),
{
    if raws.len() == 0 {
        (last, Seq::empty())
    } else {
        let prev = chat_fold(last, raws.drop_last());
        let raw = raws.last();
        if raw_accepted(prev.0, raw) {
            (raw.time->0, prev.1.push(raw_line(raw)))
        } else {
            prev
        }
    }
}

/// The diagnostic reports a chat batch produces: one line per record that
/// fails to decode; records that decode produce none.
pub open spec fn chat_reports(raws: Seq<RawChatPayload>) -> Seq<Seq<char>>
    decreases raws.len(),
{
    if raws.len() == 0 {
        Seq::empty()
    } else {
        let prev = chat_reports(raws.drop_last());
        if chat_decodes(raws.last()) {
            prev
        } else {
            prev.push("Could not parse chat payload"@)
        }
    }
}

/// The observability line a raw login payload produces: the decoded outcome,
/// or a note that the payload failed to decode.
pub open spec fn raw_login_report(raw: RawLoginPayload) -> Seq<char> {
    if raw.success is Some {
        if raw.success->0 {
            "Logged in as guest "@ + opt_or(opt_string_view(raw.name), "Unknown"@)
        } else {
            "Login failed: "@ + opt_or(opt_string_view(raw.error), "Unknown error"@)
        }
    } else {
        "Could not parse login payload"@
    }
}

/// The diagnostic reports a login batch produces, one per record.
pub open spec fn login_reports(raws: Seq<RawLoginPayload>) -> Seq<Seq<char>>
    decreases raws.len(),
{
    if raws.len() == 0 {
        Seq::empty()
    } else {
        login_reports(raws.drop_last()).push(raw_login_report(raws.last()))
    }
}

/// What one consumer step produces: transcript lines for the sink and
/// diagnostic lines for the observability channel, each in order.
pub struct StepOutput {
    /// Lines to append to the sink.
    pub lines: Vec<String>,
    /// Lines for the observability channel; never written to the sink.
    pub reports: Vec<String>,
}

impl Consumer {
    /// A fresh consumer: watermark zero, running.
    pub fn new() -> (c: Consumer)
        ensures
            c.last_timestamp == 0,
            !c.stopped,
    {
        Consumer { last_timestamp: 0, stopped: false }
    }

    fn handle_chat(&mut self, raws: &Vec<RawChatPayload>) -> (out: StepOutput)
        ensures
            final(self).stopped == old(self).stopped,
            final(self).last_timestamp == chat_fold(old(self).last_timestamp, raws@).0,
            out.lines@.map_values(|l: String| l@) == chat_fold(old(self).last_timestamp, raws@).1,
            out.reports@.map_values(|l: String| l@) == chat_reports(raws@),
    {
        let mut lines: Vec<String> = Vec::new();
        let mut reports: Vec<String> = Vec::new();
        let mut i: usize = 0;
        while i < raws.len()
            invariant
                0 <= i <= raws@.len(),
                self.stopped == old(self).stopped,
                self.last_timestamp == chat_fold(old(self).last_timestamp, raws@.take(i as int)).0,
                lines@.map_values(|l: String| l@) == chat_fold(
                    old(self).last_timestamp,
                    raws@.take(i as int),
                ).1,
                reports@.map_values(|l: String| l@) == chat_reports(raws@.take(i as int)),
            decreases raws@.len() - i,
        {
            proof {
                assert(raws@.take(i + 1).drop_last() =~= raws@.take(i as int));
                assert(raws@.take(i + 1).last() == raws@[i as int]);
            }
            match ChatMessage::decode(&raws[i]) {
                Ok(chat) => {
                    if chat.should_be_skipped() {
                    } else if chat.time <= self.last_timestamp {
                        // A replayed or out-of-order record, such as history
                        // re-delivered after a reconnect: dropped silently.
                    } else {
                        self.last_timestamp = chat.time;
                        let line = chat.line_format();
                        lines.push(line);
                        proof {
                            assert(lines@.map_values(|l: String| l@) =~= chat_fold(
                                old(self).last_timestamp,
                                raws@.take(i + 1),
                            ).1);
                        }
                    }
                },
                Err(_) => {
                    // The offending record is skipped; processing continues.
                    reports.push("Could not parse chat payload".to_owned());
                    proof {
                        assert(reports@.map_values(|l: String| l@) =~= chat_reports(
                            raws@.take(i + 1),
                        ));
                    }
                },
            }
            i = i + 1;
        }
        proof {
            assert(raws@.take(raws@.len() as int) =~= raws@);
        }
        StepOutput { lines, reports }
    }

    fn handle_login(raws: &Vec<RawLoginPayload>) -> (reports: Vec<String>)
        ensures
            reports@.map_values(|l: String| l@) == login_reports(raws@),
    {
        let mut reports: Vec<String> = Vec::new();
        let mut i: usize = 0;
        while i < raws.len()
            invariant
                0 <= i <= raws@.len(),
                reports@.map_values(|l: String| l@) == login_reports(raws@.take(i as int)),
            decreases raws@.len() - i,
        {
            proof {
                assert(raws@.take(i + 1).drop_last() =~= raws@.take(i as int));
                assert(raws@.take(i + 1).last() == raws@[i as int]);
            }
            match Login::decode(&raws[i]) {
                Ok(login) => {
                    reports.push(login.report_line());
                },
                Err(_) => {
                    reports.push("Could not parse login payload".to_owned());
                },
            }
            proof {
                assert(reports@.map_values(|l: String| l@) =~= login_reports(raws@.take(i + 1)));
            }
            i = i + 1;
        }
        proof {
            assert(raws@.take(raws@.len() as int) =~= raws@);
        }
        reports
    }

    /// One step of the state machine: consumes one event and produces the
    /// transcript lines and reports it causes. Only a `Terminate` event moves
    /// the consumer to its terminal state; only a `Chat` event can write
    /// lines or advance the watermark.
    pub fn handle_event(&mut self, event: Event) -> (out: StepOutput)
        requires
            !old(self).stopped,
        ensures
            final(self).stopped == (event is Terminate),
            event matches Event::Chat(raws) ==> {
                &&& final(self).last_timestamp == chat_fold(old(self).last_timestamp, raws@).0
                &&& out.lines@.map_values(|l: String| l@) == chat_fold(
                    old(self).last_timestamp,
                    raws@,
                ).1
                &&& out.reports@.map_values(|l: String| l@) == chat_reports(raws@)
            },
            !(event is Chat) ==> (final(self).last_timestamp == old(self).last_timestamp
                && out.lines@ == Seq::<String>::empty()),
            event matches Event::Login(raws) ==> out.reports@.map_values(|l: String| l@)
                == login_reports(raws@),
            event is Disconnect ==> out.reports@.map_values(|l: String| l@) == seq![
                "Client disconnected from server"@,
            ],
            event is Terminate ==> out.reports@ == Seq::<String>::empty(),
    {
        match event {
            Event::Chat(raws) => self.handle_chat(&raws),
            Event::Login(raws) => {
                let reports = Consumer::handle_login(&raws);
                StepOutput { lines: Vec::new(), reports }
            },
            Event::Disconnect => {
                let mut reports: Vec<String> = Vec::new();
                reports.push("Client disconnected from server".to_owned());
                proof {
                    assert(reports@.map_values(|l: String| l@) =~= seq![
                        "Client disconnected from server"@,
                    ]);
                }
                StepOutput { lines: Vec::new(), reports }
            },
            Event::Terminate => {
                self.stopped = true;
                StepOutput { lines: Vec::new(), reports: Vec::new() }
            },
        }
    }

    /// Drains a queue until a `Terminate` event or the end of the stream,
    /// and returns every transcript line written, in order. Events behind
    /// the first `Terminate` are left in the queue, unread. A caller that
    /// also wants the per-event diagnostic reports steps through
    /// `handle_event` instead.
    pub fn drain(&mut self, queue: &mut EventQueue) -> (lines: Vec<String>)
        requires
            !old(self).stopped,
            old(queue).wf(),
        ensures
            final(self).stopped,
            final(queue).wf(),
            final(queue).spec_capacity() == old(queue).spec_capacity(),
            final(self).last_timestamp == events_fold(old(self).last_timestamp, old(queue)@).0,
            lines@.map_values(|l: String| l@) == events_fold(
                old(self).last_timestamp,
                old(queue)@,
            ).1,
            final(queue)@ == old(queue)@.skip(events_consumed(old(queue)@)),
        decreases old(queue)@.len(),
    {
        match queue.recv() {
            None => {
                self.stopped = true;
                let lines: Vec<String> = Vec::new();
                proof {
                    assert(old(queue)@.skip(0) =~= old(queue)@);
                    assert(lines@.map_values(|l: String| l@) =~= events_fold(
                        old(self).last_timestamp,
                        old(queue)@,
                    ).1);
                }
                lines
            },
            Some(event) => {
                let mut out = self.handle_event(event);
                if self.stopped {
                    proof {
                        assert(old(queue)@.skip(1) =~= old(queue)@.drop_first());
                        assert(out.lines@.map_values(|l: String| l@) =~= events_fold(
                            old(self).last_timestamp,
                            old(queue)@,
                        ).1);
                    }
                    out.lines
                } else {
                    let mut rest = self.drain(queue);
                    proof {
                        lemma_events_consumed_bounds(old(queue)@.drop_first());
                        assert(old(queue)@.skip(1 + events_consumed(old(queue)@.drop_first()))
                            =~= old(queue)@.drop_first().skip(
                            events_consumed(old(queue)@.drop_first()),
                        ));
                    }
                    out.lines.append(&mut rest);
                    proof {
                        assert(out.lines@.map_values(|l: String| l@) =~= events_fold(
                            old(self).last_timestamp,
                            old(queue)@,
                        ).1);
                    }
                    out.lines
                }
            },
        }
    }
}

/// How many events a drain consumes: everything up to and including the
/// first `Terminate`, or the whole stream when there is none.
pub open spec fn events_consumed(events: Seq<Event>) -> int
    decreases events.len(),
{
    if events.len() == 0 {
        0
    } else if events[0] is Terminate {
        1
    } else {
        1 + events_consumed(events.drop_first())
    }
}

/// Law: in a batch whose records all decode, arrive with strictly
/// increasing times and lie strictly beyond the watermark, exactly the
/// non-suppressed records are logged, each as its transcript line and in
/// batch order, and the watermark ends at the greatest time of a
/// non-suppressed record (suppressed records never advance it).
pub proof fn lemma_ordered_batch_logged(last: u64, raws: Seq<RawChatPayload>)
    requires
        forall|i: int| 0 <= i < raws.len() ==> chat_decodes(#[trigger] raws[i]),
        forall|i: int, j: int|
            0 <= i < j < raws.len() ==> raws[i].time->0 < raws[j].time->0,
        forall|i: int| 0 <= i < raws.len() ==> #[trigger] raws[i].time->0 > last,
    ensures
        chat_fold(last, raws).1 == raws.filter(|r: RawChatPayload| !raw_suppressed(r)).map_values(
            |r: RawChatPayload| raw_line(r),
        ),
        ({
            let accepted = raws.filter(|r: RawChatPayload| !raw_suppressed(r));
            chat_fold(last, raws).0 == if accepted.len() == 0 {
                last
            } else {
                accepted.last().time->0
            }
        }),
        chat_fold(last, raws).0 == last || (exists|i: int|
            0 <= i < raws.len() && !raw_suppressed(raws[i]) && chat_fold(last, raws).0
                == raws[i].time->0),
    decreases raws.len(),
{
    reveal(Seq::filter);
    let pred = |r: RawChatPayload| !raw_suppressed(r);
    let lf = |r: RawChatPayload| raw_line(r);
    if raws.len() == 0 {
        assert(chat_fold(last, raws).1 =~= raws.filter(pred).map_values(lf));
    } else {
        let s = raws.drop_last();
        let x = raws.last();
        assert(forall|i: int| 0 <= i < s.len() ==> #[trigger] s[i] == raws[i]);
        lemma_ordered_batch_logged(last, s);
        let prev = chat_fold(last, s);
        if !raw_suppressed(x) {
            if prev.0 != last {
                let i = choose|i: int|
                    0 <= i < s.len() && !raw_suppressed(s[i]) && prev.0 == s[i].time->0;
                assert(raws[i].time->0 < x.time->0);
            }
            assert(raw_accepted(prev.0, x));
            assert(raws.filter(pred) == s.filter(pred).push(x));
            assert(raws.filter(pred).map_values(lf) =~= s.filter(pred).map_values(lf).push(
                raw_line(x),
            ));
            assert(exists|i: int|
                0 <= i < raws.len() && !raw_suppressed(raws[i]) && chat_fold(last, raws).0
                    == raws[i].time->0) by {
                assert(!raw_suppressed(raws[raws.len() - 1]) && chat_fold(last, raws).0
                    == raws[raws.len() - 1].time->0);
            }
        } else {
            assert(!raw_accepted(prev.0, x));
            assert(raws.filter(pred) == s.filter(pred));
        }
    }
}

/// Law: the watermark never moves backwards: processing a chat batch leaves
/// it at least where it was.
pub proof fn lemma_watermark_monotonic(last: u64, raws: Seq<RawChatPayload>)
    ensures
        chat_fold(last, raws).0 >= last,
    decreases raws.len(),
{
    if raws.len() > 0 {
        lemma_watermark_monotonic(last, raws.drop_last());
    }
}

/// Law: the watermark never moves backwards over a whole drain either.
pub proof fn lemma_drain_watermark_monotonic(last: u64, events: Seq<Event>)
    ensures
        events_fold(last, events).0 >= last,
    decreases events.len(),
{
    if events.len() > 0 {
        match events[0] {
            Event::Terminate => {},
            Event::Chat(raws) => {
                lemma_watermark_monotonic(last, raws@);
                lemma_drain_watermark_monotonic(chat_fold(last, raws@).0, events.drop_first());
            },
            _ => {
                lemma_drain_watermark_monotonic(last, events.drop_first());
            },
        }
    }
}

/// Law: a record whose time does not lie strictly beyond the watermark is
/// dropped: appending it to a batch changes neither the watermark nor the
/// transcript lines.
pub proof fn lemma_stale_record_dropped(last: u64, raws: Seq<RawChatPayload>, raw: RawChatPayload)
    requires
        raw.time is Some ==> raw.time->0 <= chat_fold(last, raws).0,
    ensures
        chat_fold(last, raws.push(raw)) == chat_fold(last, raws),
{
    assert(raws.push(raw).drop_last() =~= raws);
    assert(raws.push(raw).last() == raw);
}

/// Law: a record carrying the operator-whisper annotation is never logged
/// and never advances the watermark, whatever the ordering state.
pub proof fn lemma_suppressed_never_logged(last: u64, raws: Seq<RawChatPayload>, raw: RawChatPayload)
    requires
        raw_suppressed(raw),
    ensures
        chat_fold(last, raws.push(raw)) == chat_fold(last, raws),
{
    assert(raws.push(raw).drop_last() =~= raws);
    assert(raws.push(raw).last() == raw);
}

/// A drain consumes at least nothing and at most the whole stream.
pub proof fn lemma_events_consumed_bounds(events: Seq<Event>)
    ensures
        0 <= events_consumed(events) <= events.len(),
    decreases events.len(),
{
    if events.len() == 0 {
    } else if events[0] is Terminate {
    } else {
        lemma_events_consumed_bounds(events.drop_first());
    }
}

/// Draining an event stream: the watermark after the drain and the
/// transcript lines written, in order, over all consumed events.
pub open spec fn events_fold(last: u64, events: Seq<Event>) -> (u64, Seq<Seq<char>>)
    decreases events.len(),
{
    if events.len() == 0 {
        (last, Seq::empty())
    } else {
        match events[0] {
            Event::Terminate => (last, Seq::empty()),
            Event::Chat(raws) => {
                let step = chat_fold(last, raws@);
                let rest = events_fold(step.0, events.drop_first());
                (rest.0, step.1 + rest.1)
            },
            _ => events_fold(last, events.drop_first()),
        }
    }
}

} // verus!
