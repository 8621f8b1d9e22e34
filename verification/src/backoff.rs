//! When a failed request is tried again, and after how long.

use crate::json::JsonView;
use crate::rpc;
use crate::text;
use vstd::arithmetic::power2;
use vstd::prelude::*;

verus! {

/// A line that announces another attempt: an emphasised head, and the rest.
#[derive(Debug)]
pub struct Notice {
    pub head: String,
    pub rest: String,
}

/// What a notice says.
pub struct NoticeView {
    pub head: Seq<char>,
    pub rest: Seq<char>,
}

impl View for Notice {
    type V = NoticeView;

    open spec fn view(&self) -> NoticeView {
        NoticeView { head: self.head@, rest: self.rest@ }
    }
}

/// What to do with the outcome of a request.
#[derive(Debug)]
pub enum Step {
    /// Hand the outcome over, after printing what erases the notices.
    Stop { erase: String },
    /// Print the notice, wait, and ask again.
    Wait { seconds: u64, notice: Notice },
}

/// What a step says.
pub enum StepView {
    Stop { erase: Seq<char> },
    Wait { seconds: nat, notice: NoticeView },
}

impl View for Step {
    type V = StepView;

    open spec fn view(&self) -> StepView {
        match self {
            Step::Stop { erase } => StepView::Stop { erase: erase@ },
            Step::Wait { seconds, notice } => StepView::Wait {
                seconds: *seconds as nat,
                notice: notice@,
            },
        }
    }
}

/// The wait in seconds before another attempt, after `attempts` earlier ones.
pub open spec fn delay(attempts: nat) -> nat {
    3 * power2::pow2(attempts)
}

/// What erases a number of lines above the cursor.
pub open spec fn erasure(lines: nat) -> Seq<char> {
    if lines == 0 {
        Seq::empty()
    } else {
        text::repeated("\x1b[1A\x1b[2K"@, lines) + "\r"@
    }
}

/// A failure of a request for a block that says that there were too many.
pub open spec fn is_rate_limit(failure: Seq<char>) -> bool {
    text::occurs_in(failure, "429"@)
}

/// A failure of a request for the leader schedule that may pass.
pub open spec fn is_transient(failure: Seq<char>) -> bool {
    ||| text::occurs_in(failure, "429"@)
    ||| text::occurs_in(failure, "rate limit"@)
    ||| text::occurs_in(failure, "timed out"@)
}

/// The words that announce the wait.
pub open spec fn wait_text(seconds: nat) -> Seq<char> {
    "Retrying in "@ + text::decimal(seconds) + "s..."@
}

/// The words that count the attempts.
pub open spec fn attempt_text(attempt: nat, limit: nat) -> Seq<char> {
    " (attempt "@ + text::decimal(attempt) + "/"@ + text::decimal(limit) + ")"@
}

/// The step after a request for a block, of which `attempts` were repeated
/// before and at most `limit` are.
///
/// A failure is tried again as long as there are attempts left.
pub open spec fn block_step(
    attempts: nat,
    limit: nat,
    slot: u64,
    failure: Option<Seq<char>>,
) -> StepView {
    match failure {
        None => StepView::Stop { erase: erasure(attempts) },
        Some(failure) => if attempts >= limit {
            StepView::Stop { erase: erasure(attempts) }
        } else {
            StepView::Wait {
                seconds: delay(attempts),
                notice: if is_rate_limit(failure) {
                    NoticeView {
                        head: "Rate limited (429)."@,
                        rest: " "@ + wait_text(delay(attempts)) + attempt_text(
                            attempts + 1,
                            limit,
                        ),
                    }
                } else {
                    NoticeView {
                        head: Seq::empty(),
                        rest: "Error fetching block "@ + text::decimal(slot as nat) + ": "@
                            + failure + ". "@ + wait_text(delay(attempts)),
                    }
                },
            }
        },
    }
}

/// The step after a request for the leader schedule.
///
/// Only a failure that may pass is tried again.
pub open spec fn leader_step(attempts: nat, limit: nat, failure: Option<Seq<char>>) -> StepView {
    match failure {
        None => StepView::Stop { erase: erasure(attempts) },
        Some(failure) => if attempts >= limit || !is_transient(failure) {
            StepView::Stop { erase: erasure(attempts) }
        } else {
            StepView::Wait {
                seconds: delay(attempts),
                notice: NoticeView {
                    head: Seq::empty(),
                    rest: "Leader schedule fetch rate limited or timed out. "@ + wait_text(
                        delay(attempts),
                    ) + attempt_text(attempts + 1, limit),
                },
            }
        },
    }
}

/// What a failure that may be missing says.
pub open spec fn failure_view(failure: Option<&String>) -> Option<Seq<char>> {
    match failure {
        Some(failure) => Some(failure@),
        None => None,
    }
}

fn push_wait(line: &mut String, seconds: u64)
    ensures
        final(line)@ == old(line)@ + wait_text(seconds as nat),
{
    line.append("Retrying in ");
    text::push_decimal(line, seconds);
    line.append("s...");
    assert(line@ =~= old(line)@ + wait_text(seconds as nat));
}

fn push_attempt(line: &mut String, attempt: usize, limit: usize)
    ensures
        final(line)@ == old(line)@ + attempt_text(attempt as nat, limit as nat),
{
    line.append(" (attempt ");
    text::push_decimal(line, attempt as u64);
    line.append("/");
    text::push_decimal(line, limit as u64);
    line.append(")");
    assert(line@ =~= old(line)@ + attempt_text(attempt as nat, limit as nat));
}

fn erasing(lines: usize) -> (erase: String)
    ensures
        erase@ == erasure(lines as nat),
{
    if lines == 0 {
        return String::new();
    }
    let mut erase = text::repeat("\x1b[1A\x1b[2K", lines);
    erase.append("\r");
    erase
}

/// The attempts at one request: how many were made again, how long the next
/// wait is, and how many notices stand on the screen.
#[derive(Debug)]
pub struct Backoff {
    attempts: usize,
    delay_secs: u64,
    lines: usize,
    limit: usize,
}

impl Backoff {
    #[verifier::type_invariant]
    spec fn consistent(self) -> bool {
        &&& self.delay_secs == delay(self.attempts as nat)
        &&& self.lines == self.attempts
        &&& self.attempts <= self.limit
    }

    /// How many times the request was made again.
    pub closed spec fn attempts(self) -> nat {
        self.attempts as nat
    }

    /// How many times it may be made again.
    pub closed spec fn limit(self) -> nat {
        self.limit as nat
    }

    /// Between the two states the request was made again, or was not.
    pub open spec fn moved(before: Backoff, after: Backoff, again: bool) -> bool {
        &&& after.limit() == before.limit()
        &&& after.attempts() == before.attempts() + if again {
            1int
        } else {
            0
        }
    }

    /// The state before the first request.
    pub fn new(limit: usize) -> (backoff: Backoff)
        ensures
            backoff.attempts() == 0,
            backoff.limit() == limit,
    {
        proof {
            power2::lemma2_to64();
        }
        Backoff { attempts: 0, delay_secs: 3, lines: 0, limit }
    }

    /// How many times the request was made again.
    pub fn attempts_made(&self) -> (attempts: usize)
        ensures
            attempts == self.attempts(),
    {
        self.attempts
    }

    /// Counts one more attempt and doubles the wait.
    fn advance(&mut self) -> (seconds: u64)
        requires
            old(self).attempts() < old(self).limit(),
            old(self).attempts() < 62,
        ensures
            seconds == delay(old(self).attempts()),
            final(self).attempts() == old(self).attempts() + 1,
            final(self).limit() == old(self).limit(),
    {
        proof {
            use_type_invariant(&*self);
            power2::lemma2_to64_rest();
            power2::lemma_pow2_unfold((self.attempts + 1) as nat);
            if self.attempts < 61 {
                power2::lemma_pow2_strictly_increases(self.attempts as nat, 61);
            }
        }
        let seconds: u64 = self.delay_secs;
        *self = Backoff {
            attempts: self.attempts + 1,
            delay_secs: seconds * 2,
            lines: self.lines + 1,
            limit: self.limit,
        };
        seconds
    }

    /// The step after a request for the block of a slot; `failure` is what went
    /// wrong, where something did.
    pub fn after_block(&mut self, slot: u64, failure: Option<&String>) -> (step: Step)
        requires
            failure is Some && old(self).attempts() < old(self).limit() ==> old(self).attempts()
                < 62,
        ensures
            step@ == block_step(
                old(self).attempts(),
                old(self).limit(),
                slot,
                failure_view(failure),
            ),
            final(self).attempts() == old(self).attempts() + if step is Wait {
                1int
            } else {
                0
            },
            final(self).limit() == old(self).limit(),
            final(self).attempts() <= final(self).limit(),
            Backoff::moved(*old(self), *final(self), step is Wait),
    {
        proof {
            use_type_invariant(&*self);
        }
        let failure = match failure {
            Some(failure) => failure,
            None => return Step::Stop { erase: erasing(self.lines) },
        };
        if self.attempts >= self.limit {
            return Step::Stop { erase: erasing(self.lines) };
        }
        let seconds: u64 = self.advance();
        if text::has_text(failure.as_str(), "429") {
            let mut rest = " ".to_owned();
            push_wait(&mut rest, seconds);
            push_attempt(&mut rest, self.attempts, self.limit);
            let head = "Rate limited (429).".to_owned();
            Step::Wait { seconds, notice: Notice { head, rest } }
        } else {
            let mut rest = "Error fetching block ".to_owned();
            text::push_decimal(&mut rest, slot);
            rest.append(": ");
            rest.append(failure.as_str());
            rest.append(". ");
            push_wait(&mut rest, seconds);
            Step::Wait { seconds, notice: Notice { head: String::new(), rest } }
        }
    }

    /// The step after a request for the leader schedule; `failure` is what went
    /// wrong, where something did.
    pub fn after_leaders(&mut self, failure: Option<&String>) -> (step: Step)
        requires
            failure is Some && old(self).attempts() < old(self).limit() && is_transient(
                failure->0@,
            ) ==> old(self).attempts() < 62,
        ensures
            step@ == leader_step(old(self).attempts(), old(self).limit(), failure_view(failure)),
            final(self).attempts() == old(self).attempts() + if step is Wait {
                1int
            } else {
                0
            },
            final(self).limit() == old(self).limit(),
            final(self).attempts() <= final(self).limit(),
            Backoff::moved(*old(self), *final(self), step is Wait),
    {
        proof {
            use_type_invariant(&*self);
        }
        let failure = match failure {
            Some(failure) => failure,
            None => return Step::Stop { erase: erasing(self.lines) },
        };
        let transient: bool = text::has_text(failure.as_str(), "429") || text::has_text(
            failure.as_str(),
            "rate limit",
        ) || text::has_text(failure.as_str(), "timed out");
        if self.attempts >= self.limit || !transient {
            return Step::Stop { erase: erasing(self.lines) };
        }
        let seconds: u64 = self.advance();
        let mut rest = "Leader schedule fetch rate limited or timed out. ".to_owned();
        push_wait(&mut rest, seconds);
        push_attempt(&mut rest, self.attempts, self.limit);
        Step::Wait { seconds, notice: Notice { head: String::new(), rest } }
    }
}

/// How a request went that was made until a step was to stop: how often it was
/// made, the seconds waited in between, and what was printed at the end.
pub struct Run {
    pub calls: nat,
    pub waited: nat,
    pub erased: Option<Seq<char>>,
}

impl Run {
    /// The run with one more call in front.
    pub open spec fn after_wait(self, seconds: nat) -> Run {
        Run { calls: self.calls + 1, waited: self.waited + seconds, ..self }
    }
}

/// The run of a request for a block whose calls have the given outcomes; an
/// outcome is the failure, where there is one.
pub open spec fn block_run(
    attempts: nat,
    limit: nat,
    slot: u64,
    outcomes: Seq<Option<Seq<char>>>,
) -> Run
    decreases outcomes.len(),
{
    if outcomes.len() == 0 {
        Run { calls: 0, waited: 0, erased: None }
    } else {
        match block_step(attempts, limit, slot, outcomes[0]) {
            StepView::Stop { erase } => Run { calls: 1, waited: 0, erased: Some(erase) },
            StepView::Wait { seconds, .. } => block_run(
                attempts + 1,
                limit,
                slot,
                outcomes.drop_first(),
            ).after_wait(seconds),
        }
    }
}

/// The run of a request for the leader schedule.
pub open spec fn leader_run(
    attempts: nat,
    limit: nat,
    outcomes: Seq<Option<Seq<char>>>,
) -> Run
    decreases outcomes.len(),
{
    if outcomes.len() == 0 {
        Run { calls: 0, waited: 0, erased: None }
    } else {
        match leader_step(attempts, limit, outcomes[0]) {
            StepView::Stop { erase } => Run { calls: 1, waited: 0, erased: Some(erase) },
            StepView::Wait { seconds, .. } => leader_run(
                attempts + 1,
                limit,
                outcomes.drop_first(),
            ).after_wait(seconds),
        }
    }
}

proof fn lemma_block_run(
    attempts: nat,
    limit: nat,
    slot: u64,
    outcomes: Seq<Option<Seq<char>>>,
    last: nat,
)
    requires
        attempts + last <= limit,
        last < outcomes.len(),
        forall|i: int| 0 <= i < last ==> (#[trigger] outcomes[i]) is Some,
        attempts + last == limit || outcomes[last as int] is None,
    ensures
        block_run(attempts, limit, slot, outcomes) == (Run {
            calls: last + 1,
            waited: (delay(attempts + last) - delay(attempts)) as nat,
            erased: Some(erasure(attempts + last)),
        }),
        delay(attempts + last) >= delay(attempts),
    decreases last,
{
    if last > 0 {
        let rest = outcomes.drop_first();
        assert(outcomes[0] is Some);
        assert forall|i: int| 0 <= i < last - 1 implies (#[trigger] rest[i]) is Some by {
            assert(rest[i] == outcomes[i + 1]);
        }
        lemma_block_run(attempts + 1, limit, slot, rest, (last - 1) as nat);
        power2::lemma_pow2_unfold(attempts + 1);
    }
}

proof fn lemma_leader_run(
    attempts: nat,
    limit: nat,
    outcomes: Seq<Option<Seq<char>>>,
    last: nat,
)
    requires
        attempts + last <= limit,
        last < outcomes.len(),
        forall|i: int|
            0 <= i < last ==> (#[trigger] outcomes[i]) is Some && is_transient(outcomes[i]->0),
        attempts + last == limit || outcomes[last as int] is None || !is_transient(
            outcomes[last as int]->0,
        ),
    ensures
        leader_run(attempts, limit, outcomes) == (Run {
            calls: last + 1,
            waited: (delay(attempts + last) - delay(attempts)) as nat,
            erased: Some(erasure(attempts + last)),
        }),
        delay(attempts + last) >= delay(attempts),
    decreases last,
{
    if last > 0 {
        let rest = outcomes.drop_first();
        assert(outcomes[0] is Some);
        assert forall|i: int| 0 <= i < last - 1 implies (#[trigger] rest[i]) is Some
            && is_transient(rest[i]->0) by {
            assert(rest[i] == outcomes[i + 1]);
        }
        lemma_leader_run(attempts + 1, limit, rest, (last - 1) as nat);
        power2::lemma_pow2_unfold(attempts + 1);
    }
}

/// A request for a block ends with its first success, or with the failure after
/// `limit` repetitions; the waits of 3, 6, 12, .. seconds add up to
/// `3 * (2^n - 1)` over `n` repetitions, and the `n` notices are erased.
pub proof fn law_block_run(limit: nat, slot: u64, outcomes: Seq<Option<Seq<char>>>, last: nat)
    requires
        last <= limit,
        last < outcomes.len(),
        forall|i: int| 0 <= i < last ==> (#[trigger] outcomes[i]) is Some,
        last == limit || outcomes[last as int] is None,
    ensures
        block_run(0, limit, slot, outcomes) == (Run {
            calls: last + 1,
            waited: (3 * (power2::pow2(last) - 1)) as nat,
            erased: Some(erasure(last)),
        }),
{
    power2::lemma2_to64();
    lemma_block_run(0, limit, slot, outcomes, last);
}

/// A request for the leader schedule ends with its first success, with the
/// first failure that will not pass, or with the failure after `limit`
/// repetitions; waits and notices are as for a block.
pub proof fn law_leader_run(limit: nat, outcomes: Seq<Option<Seq<char>>>, last: nat)
    requires
        last <= limit,
        last < outcomes.len(),
        forall|i: int|
            0 <= i < last ==> (#[trigger] outcomes[i]) is Some && is_transient(outcomes[i]->0),
        last == limit || outcomes[last as int] is None || !is_transient(outcomes[last as int]->0),
    ensures
        leader_run(0, limit, outcomes) == (Run {
            calls: last + 1,
            waited: (3 * (power2::pow2(last) - 1)) as nat,
            erased: Some(erasure(last)),
        }),
{
    power2::lemma2_to64();
    lemma_leader_run(0, limit, outcomes, last);
}

/// No request is made more than `limit` times over the first.
pub proof fn law_calls_are_bounded(
    attempts: nat,
    limit: nat,
    slot: u64,
    outcomes: Seq<Option<Seq<char>>>,
)
    requires
        attempts <= limit,
    ensures
        block_run(attempts, limit, slot, outcomes).calls <= limit - attempts + 1,
        leader_run(attempts, limit, outcomes).calls <= limit - attempts + 1,
    decreases outcomes.len(),
{
    if outcomes.len() > 0 && attempts < limit {
        law_calls_are_bounded(attempts + 1, limit, slot, outcomes.drop_first());
    }
}

/// The failure that a reply with code 429 is read as is announced as a rate
/// limit, and would pass for the leader schedule too.
pub proof fn law_too_many_requests(reply: JsonView)
    requires
        reply.field("error"@) is Some,
        rpc::error_code(reply.field("error"@)->0) == Some(429i64),
    ensures
        rpc::block_reply(reply) == Err::<rpc::BlockReply, Seq<char>>("429"@),
        is_rate_limit("429"@),
        is_transient("429"@),
{
    assert("429"@.subrange(0, "429"@.len() as int) =~= "429"@);
    assert(text::occurs_at("429"@, "429"@, 0));
}

} // verus!
