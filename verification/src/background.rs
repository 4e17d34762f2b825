//! Downloads of LFS files that go on after their request was answered, and the count of them.
use crate::status::{reply, success_code, HttpStatus, Reply, ReplyView};
use crate::text::{
    decimal, is_digit, law_decimal_reads_back, lemma_decimal, parsed_u64,
    push_decimal,
};
#[allow(unused_imports)]
use vstd::string::StringExecFns;
use vstd::prelude::*;

verus! {

/// How a background download ended, and whether its temporary file is to be removed.
#[derive(Clone, Copy, PartialEq, Eq, Structural, Debug)]
pub struct LfsEnd {
    pub failed: bool,
    pub remove_temp: bool,
}

/// What follows from the answer to a download's request, or from its absence: the download goes on
/// with the body, or it has failed before there was a temporary file.
pub open spec fn after_answer(code: Option<u16>) -> Result<(), LfsEnd> {
    match code {
        Some(c) if success_code(c) => Ok(()),
        _ => Err(LfsEnd { failed: true, remove_temp: false }),
    }
}

/// What follows from the attempt to write the body to the temporary file.
pub open spec fn after_body(complete: bool) -> Result<(), LfsEnd> {
    if complete {
        Ok(())
    } else {
        Err(LfsEnd { failed: true, remove_temp: true })
    }
}

/// What follows from the attempt to rename the temporary file.
pub open spec fn after_rename(done: bool) -> LfsEnd {
    LfsEnd { failed: !done, remove_temp: !done }
}

/// How a background download ends, given the status of the answer (if one came), whether the body
/// was written to the temporary file, and whether that file was renamed.
pub open spec fn background_end(code: Option<u16>, complete: bool, done: bool) -> LfsEnd {
    match after_answer(code) {
        Err(end) => end,
        Ok(_) => match after_body(complete) {
            Err(end) => end,
            Ok(_) => after_rename(done),
        },
    }
}

/// A background download counts as failed unless all of it succeeded, and a temporary file is
/// removed exactly where one was begun and the download failed.
pub proof fn law_background_end(code: Option<u16>, complete: bool, done: bool)
    ensures
        background_end(code, complete, done).failed <==> !(code is Some && success_code(code->0)
            && complete && done),
        background_end(code, complete, done).remove_temp <==> code is Some && success_code(code->0)
            && background_end(code, complete, done).failed,
{
}

/// The code of an answer, if one came.
pub open spec fn answer_code(answer: Option<HttpStatus>) -> Option<u16> {
    match answer {
        Some(status) => Some(status@),
        None => None,
    }
}

/// A background download whose answer has arrived and whose body is to be written.
#[derive(Debug)]
pub struct LfsBody {
    sealed: (),
}

/// A background download whose body is written and whose file is to be renamed.
#[derive(Debug)]
pub struct LfsWritten {
    sealed: (),
}

/// Decides how a background download goes on once its request was sent.
pub fn background_answered(answer: Option<HttpStatus>) -> (next: Result<LfsBody, LfsEnd>)
    ensures
        match next {
            Ok(_) => after_answer(answer_code(answer)) is Ok,
            Err(end) => after_answer(answer_code(answer)) == Err::<(), LfsEnd>(end),
        },
{
    if let Some(status) = answer {
        if status.is_success() {
            return Ok(LfsBody { sealed: () });
        }
    }
    Err(LfsEnd { failed: true, remove_temp: false })
}

impl LfsBody {
    /// Decides how the download goes on once its body was to be written.
    pub fn body_written(self, complete: bool) -> (next: Result<LfsWritten, LfsEnd>)
        ensures
            match next {
                Ok(_) => after_body(complete) is Ok,
                Err(end) => after_body(complete) == Err::<(), LfsEnd>(end),
            },
    {
        if complete {
            Ok(LfsWritten { sealed: () })
        } else {
            Err(LfsEnd { failed: true, remove_temp: true })
        }
    }
}

impl LfsWritten {
    /// Decides how the download ended once its file was to be renamed.
    pub fn renamed(self, done: bool) -> (end: LfsEnd)
        ensures
            end == after_rename(done),
    {
        LfsEnd { failed: !done, remove_temp: !done }
    }
}

/// How many background downloads are under way, and how many have failed so far.
#[derive(Debug)]
pub struct LfsCounters {
    pending: usize,
    failed: usize,
}

/// The two counts.
pub struct CountersView {
    pub pending: nat,
    pub failed: nat,
}

impl View for LfsCounters {
    type V = CountersView;

    closed spec fn view(&self) -> CountersView {
        CountersView { pending: self.pending as nat, failed: self.failed as nat }
    }
}

/// What changes the counts: a download begins, or it ends.
pub enum CountEvent {
    Begun,
    Ended(LfsEnd),
}

/// One more, starting again at zero behind the largest `usize`.
pub open spec fn one_more(n: nat) -> nat {
    if n == usize::MAX {
        0
    } else {
        n + 1
    }
}

/// One less, starting again at the largest `usize` below zero.
pub open spec fn one_less(n: nat) -> nat {
    if n == 0 {
        usize::MAX as nat
    } else {
        (n - 1) as nat
    }
}

/// The counts after an event.
pub open spec fn count_step(counts: CountersView, event: CountEvent) -> CountersView {
    match event {
        CountEvent::Begun => CountersView {
            pending: one_more(counts.pending),
            failed: counts.failed,
        },
        CountEvent::Ended(end) => CountersView {
            pending: one_less(counts.pending),
            failed: if end.failed {
                one_more(counts.failed)
            } else {
                counts.failed
            },
        },
    }
}

impl LfsCounters {
    /// Nothing under way and nothing failed.
    pub fn new() -> (counters: LfsCounters)
        ensures
            counters@ == (CountersView { pending: 0, failed: 0 }),
    {
        LfsCounters { pending: 0, failed: 0 }
    }

    /// Takes note of a download that begins.
    pub fn begin(&mut self)
        ensures
            final(self)@ == count_step(old(self)@, CountEvent::Begun),
    {
        self.pending = self.pending.wrapping_add(1);
    }

    /// Takes note of a download that ended.
    pub fn end(&mut self, end: LfsEnd)
        ensures
            final(self)@ == count_step(old(self)@, CountEvent::Ended(end)),
    {
        if end.failed {
            self.failed = self.failed.wrapping_add(1);
        }
        self.pending = self.pending.wrapping_sub(1);
    }

    /// How many seconds to wait before the counts are reported.
    pub fn poll_delay(&self) -> (seconds: u64)
        ensures
            seconds == (if self@.pending > 0 {
                1u64
            } else {
                0u64
            }),
    {
        if self.pending > 0 {
            1
        } else {
            0
        }
    }
}

/// The counts after a row of events, from the start of the proxy.
pub open spec fn counts_after(events: Seq<CountEvent>) -> CountersView
    decreases events.len(),
{
    if events.len() == 0 {
        CountersView { pending: 0, failed: 0 }
    } else {
        count_step(counts_after(events.drop_last()), events.last())
    }
}

/// How many downloads have begun.
pub open spec fn begun(events: Seq<CountEvent>) -> nat
    decreases events.len(),
{
    if events.len() == 0 {
        0
    } else {
        begun(events.drop_last()) + if events.last() is Begun {
            1nat
        } else {
            0
        }
    }
}

/// How many downloads have ended.
pub open spec fn ended(events: Seq<CountEvent>) -> nat
    decreases events.len(),
{
    if events.len() == 0 {
        0
    } else {
        ended(events.drop_last()) + if events.last() is Ended {
            1nat
        } else {
            0
        }
    }
}

/// How many downloads have failed.
pub open spec fn failures(events: Seq<CountEvent>) -> nat
    decreases events.len(),
{
    if events.len() == 0 {
        0
    } else {
        failures(events.drop_last()) + if events.last() matches CountEvent::Ended(end)
            && end.failed {
            1nat
        } else {
            0
        }
    }
}

/// Whether at no time more downloads have ended than begun.
pub open spec fn orderly(events: Seq<CountEvent>) -> bool {
    forall|n: int|
        0 <= n <= events.len() ==> ended(#[trigger] events.take(n)) <= begun(events.take(n))
}

/// Whether at no time more downloads are under way than a count can hold.
pub open spec fn countable(events: Seq<CountEvent>) -> bool {
    forall|n: int|
        0 <= n <= events.len() ==> begun(#[trigger] events.take(n)) - ended(events.take(n))
            <= usize::MAX
}

proof fn lemma_prefix_is_orderly(events: Seq<CountEvent>)
    requires
        events.len() > 0,
        orderly(events),
        countable(events),
    ensures
        orderly(events.drop_last()),
        countable(events.drop_last()),
        ended(events) <= begun(events),
        begun(events) - ended(events) <= usize::MAX,
{
    let before = events.drop_last();
    assert forall|n: int| 0 <= n <= before.len() implies ended(#[trigger] before.take(n)) <= begun(
        before.take(n),
    ) && begun(before.take(n)) - ended(before.take(n)) <= usize::MAX by {
        assert(before.take(n) =~= events.take(n));
    }
    assert(events.take(events.len() as int) =~= events);
}

/// The first count says how many downloads are under way, as long as there are never more of them
/// at a time than it can hold.
pub proof fn law_pending_is_exact(events: Seq<CountEvent>)
    requires
        orderly(events),
        countable(events),
    ensures
        counts_after(events).pending == begun(events) - ended(events),
    decreases events.len(),
{
    if events.len() > 0 {
        lemma_prefix_is_orderly(events);
        law_pending_is_exact(events.drop_last());
    }
}

/// The second count says how many downloads have failed, as long as it can hold that many.
pub proof fn law_failed_is_exact(events: Seq<CountEvent>)
    requires
        failures(events) <= usize::MAX,
    ensures
        counts_after(events).failed == failures(events),
    decreases events.len(),
{
    if events.len() > 0 {
        law_failed_is_exact(events.drop_last());
    }
}

/// Once a download has begun and ended, the first count is what it was before, whatever it was.
pub proof fn law_each_download_is_counted_down_once(counts: CountersView, end: LfsEnd)
    requires
        counts.pending <= usize::MAX,
    ensures
        ({
            let begun = count_step(counts, CountEvent::Begun);
            count_step(begun, CountEvent::Ended(end)).pending == counts.pending
        }),
{
}

/// A failure stays counted: as time goes on the second count never goes down, as long as it can
/// hold all failures.
pub proof fn law_failures_stay_counted(events: Seq<CountEvent>, n: int)
    requires
        0 <= n <= events.len(),
        failures(events) <= usize::MAX,
    ensures
        counts_after(events.take(n)).failed <= counts_after(events).failed,
    decreases events.len(),
{
    if n == events.len() {
        assert(events.take(n) =~= events);
    } else {
        let before = events.drop_last();
        law_failures_stay_counted(before, n);
        assert(before.take(n) =~= events.take(n));
        law_failed_is_exact(before);
        law_failed_is_exact(events);
    }
}

/// What is answered to a question for the counts.
pub open spec fn status_reply(counts: CountersView) -> ReplyView {
    reply(
        200,
        "{\"pending\":"@ + decimal(counts.pending) + ",\"failed\":"@ + decimal(counts.failed)
            + "}"@,
    )
}

/// Reports the counts.
pub fn handle_lfs_status(counters: &LfsCounters) -> (r: Reply)
    ensures
        r@ == status_reply(counters@),
{
    let mut body: String = "{\"pending\":".to_owned();
    push_decimal(&mut body, counters.pending as u64);
    body.append(",\"failed\":");
    push_decimal(&mut body, counters.failed as u64);
    body.append("}");
    Reply::new(HttpStatus::ok(), body)
}

/// A download goes on only after each step that succeeded: a status of success, a body that was
/// written whole, and a file that was renamed. The first step that does not succeed ends it as
/// failed; its temporary file is removed from the step on that creates one.
pub proof fn law_each_step_must_succeed(code: u16, complete: bool, done: bool)
    ensures
        after_answer(None) == Err::<(), LfsEnd>(LfsEnd { failed: true, remove_temp: false }),
        code / 100 == 2 ==> after_answer(Some(code)) is Ok,
        code / 100 != 2 ==> after_answer(Some(code)) == Err::<(), LfsEnd>(
            LfsEnd { failed: true, remove_temp: false },
        ),
        after_body(complete) is Ok <==> complete,
        !complete ==> after_body(complete) == Err::<(), LfsEnd>(
            LfsEnd { failed: true, remove_temp: true },
        ),
        after_rename(done).failed == !done,
        after_rename(done).remove_temp == !done,
{
}

/// The status of an answer is the one that came.
pub proof fn law_answers_have_their_code(status: HttpStatus)
    ensures
        answer_code(Some(status)) == Some(status@),
        answer_code(None) is None,
{
}

/// A download that begins adds one to the first count and leaves the second as it is; one that ends
/// takes one from the first, and adds one to the second exactly if it failed.
pub proof fn law_events_change_the_counts_by_one(counts: CountersView, end: LfsEnd)
    ensures
        counts.pending < usize::MAX ==> count_step(counts, CountEvent::Begun).pending
            == counts.pending + 1,
        count_step(counts, CountEvent::Begun).failed == counts.failed,
        counts.pending > 0 ==> count_step(counts, CountEvent::Ended(end)).pending == counts.pending
            - 1,
        end.failed && counts.failed < usize::MAX ==> count_step(
            counts,
            CountEvent::Ended(end),
        ).failed == counts.failed + 1,
        !end.failed ==> count_step(counts, CountEvent::Ended(end)).failed == counts.failed,
{
}

/// Behind the largest `usize` the counts start again at zero, and below zero at the largest.
pub proof fn law_full_counts_start_again(pending: nat, failed: nat, end: LfsEnd)
    ensures
        count_step(
            CountersView { pending: usize::MAX as nat, failed },
            CountEvent::Begun,
        ).pending == 0,
        count_step(CountersView { pending: 0, failed }, CountEvent::Ended(end)).pending
            == usize::MAX,
        end.failed ==> count_step(
            CountersView { pending, failed: usize::MAX as nat },
            CountEvent::Ended(end),
        ).failed == 0,
{
}

/// Each event is counted once: as a beginning or an end, and as a failure if it is the end of a
/// download that failed. The counts go on from what they were before it.
pub proof fn law_each_event_counts_once(events: Seq<CountEvent>, end: LfsEnd)
    ensures
        counts_after(Seq::empty()) == (CountersView { pending: 0, failed: 0 }),
        counts_after(events.push(CountEvent::Begun)) == count_step(
            counts_after(events),
            CountEvent::Begun,
        ),
        counts_after(events.push(CountEvent::Ended(end))) == count_step(
            counts_after(events),
            CountEvent::Ended(end),
        ),
        begun(events.push(CountEvent::Begun)) == begun(events) + 1,
        begun(events.push(CountEvent::Ended(end))) == begun(events),
        ended(events.push(CountEvent::Begun)) == ended(events),
        ended(events.push(CountEvent::Ended(end))) == ended(events) + 1,
        failures(events.push(CountEvent::Begun)) == failures(events),
        end.failed ==> failures(events.push(CountEvent::Ended(end))) == failures(events) + 1,
        !end.failed ==> failures(events.push(CountEvent::Ended(end))) == failures(events),
{
    assert(events.push(CountEvent::Begun).drop_last() =~= events);
    assert(events.push(CountEvent::Ended(end)).drop_last() =~= events);
}

/// The report of the counts is a JSON object with two numbers, both written out whole.
pub proof fn law_reports_give_both_counts(counts: CountersView)
    ensures
        status_reply(counts).status == 200,
        status_reply(counts).body == "{\"pending\":"@ + decimal(counts.pending) + ",\"failed\":"@
            + decimal(counts.failed) + "}"@,
{
}

/// What stands behind `"pending":` in a report, up to the comma, reads back as the number of
/// downloads under way, and what stands behind `"failed":` as the number of failures.
pub proof fn law_reports_read_back(counts: CountersView, pending: Seq<char>, failed: Seq<char>)
    requires
        counts.pending <= u64::MAX,
        counts.failed <= u64::MAX,
        status_reply(counts).body == "{\"pending\":"@ + pending + ",\"failed\":"@ + failed + "}"@,
        !pending.contains(','),
    ensures
        parsed_u64(pending) == Some(counts.pending as u64),
        parsed_u64(failed) == Some(counts.failed as u64),
{
    reveal_strlit("{\"pending\":");
    reveal_strlit(",\"failed\":");
    reveal_strlit("}");
    let body = status_reply(counts).body;
    let p = decimal(counts.pending);
    let f = decimal(counts.failed);
    let head = "{\"pending\":"@.len() as int;
    let middle = ",\"failed\":"@;
    lemma_decimal(counts.pending);
    if pending.len() < p.len() {
        assert(body[head + pending.len()] == middle[0]);
        assert(body[head + pending.len()] == p[pending.len() as int]);
        assert(is_digit(p[pending.len() as int]));
    } else if pending.len() > p.len() {
        assert(body[head + p.len()] == middle[0]);
        assert(body[head + p.len()] == pending[p.len() as int]);
        assert(pending.contains(pending[p.len() as int]));
    }
    assert(pending =~= body.subrange(head, head + p.len()));
    assert(p =~= body.subrange(head, head + p.len()));
    let start = head + p.len() + middle.len();
    let given = "{\"pending\":"@ + pending + middle + failed + "}"@;
    assert(given.len() == start + failed.len() + 1);
    assert(body.len() == start + f.len() + 1);
    assert(failed =~= body.subrange(start, start + f.len()));
    assert(f =~= body.subrange(start, start + f.len()));
    law_decimal_reads_back(counts.pending as u64);
    law_decimal_reads_back(counts.failed as u64);
}

/// Two different counts are never reported alike.
pub proof fn law_reports_differ(a: CountersView, b: CountersView)
    requires
        a.pending <= u64::MAX,
        a.failed <= u64::MAX,
        b.pending <= u64::MAX,
        b.failed <= u64::MAX,
        status_reply(a).body == status_reply(b).body,
    ensures
        a.pending == b.pending,
        a.failed == b.failed,
{
    let p = decimal(a.pending);
    lemma_decimal(a.pending);
    assert(!p.contains(',')) by {
        assert forall|i: int| 0 <= i < p.len() implies p[i] != ',' by {
            assert(is_digit(p[i]));
        }
    }
    law_reports_read_back(b, p, decimal(a.failed));
    law_reports_read_back(a, p, decimal(a.failed));
}

} // verus!
