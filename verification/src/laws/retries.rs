//! Laws of repeating a request.

use crate::backoff::{self, Backoff, Notice, NoticeView, Step, StepView};
use crate::text;
use vstd::arithmetic::power2;
use vstd::prelude::*;

verus! {

/// The first wait is 3 seconds, and each is twice the one before.
pub proof fn law_waits_double(attempts: nat)
    ensures
        backoff::delay(0) == 3,
        backoff::delay(attempts + 1) == 2 * backoff::delay(attempts),
{
    power2::lemma2_to64();
    power2::lemma_pow2_unfold(attempts + 1);
}

/// Nothing is erased where no notice stands; else each of the lines is, and the
/// cursor returns to the start of the line.
pub proof fn law_erasure(lines: nat)
    ensures
        backoff::erasure(0) == Seq::<char>::empty(),
        backoff::erasure(1) == "\x1b[1A\x1b[2K\r"@,
        lines > 0 ==> backoff::erasure(lines + 1) == "\x1b[1A\x1b[2K"@ + backoff::erasure(lines),
{
    let up = "\x1b[1A\x1b[2K"@;
    reveal_strlit("\x1b[1A\x1b[2K");
    reveal_strlit("\r");
    reveal_strlit("\x1b[1A\x1b[2K\r");
    crate::laws::texts::law_repetition(up, 0);
    crate::laws::texts::law_repetition(up, lines);
    assert(backoff::erasure(1) =~= up + "\r"@);
    assert("\x1b[1A\x1b[2K\r"@ =~= up + "\r"@);
    assert((up + text::repeated(up, lines)) + "\r"@ =~= up + (text::repeated(up, lines) + "\r"@));
}

/// A success ends a request, and so does any failure once there are no attempts
/// left; the notices are then erased.
pub proof fn law_when_a_request_ends(
    attempts: nat,
    limit: nat,
    slot: u64,
    failure: Option<Seq<char>>,
)
    ensures
        failure is None || attempts >= limit ==> backoff::block_step(attempts, limit, slot, failure)
            == (StepView::Stop { erase: backoff::erasure(attempts) }),
        failure is None || attempts >= limit ==> backoff::leader_step(attempts, limit, failure) == (
        StepView::Stop { erase: backoff::erasure(attempts) }),
{
}

/// A request for a block that failed is made again while there are attempts
/// left, after the wait that is due; the notice counts the attempts where the
/// failure speaks of a rate limit, and names slot and failure elsewhere.
pub proof fn law_block_is_asked_for_again(
    attempts: nat,
    limit: nat,
    slot: u64,
    failure: Seq<char>,
)
    requires
        attempts < limit,
    ensures
        text::occurs_in(failure, "429"@) ==> backoff::block_step(
            attempts,
            limit,
            slot,
            Some(failure),
        ) == (StepView::Wait {
            seconds: backoff::delay(attempts),
            notice: (NoticeView {
                head: "Rate limited (429)."@,
                rest: " Retrying in "@ + text::decimal(backoff::delay(attempts))
                    + "s... (attempt "@ + text::decimal(attempts + 1) + "/"@ + text::decimal(limit)
                    + ")"@,
            }),
        }),
        !text::occurs_in(failure, "429"@) ==> backoff::block_step(
            attempts,
            limit,
            slot,
            Some(failure),
        ) == (StepView::Wait {
            seconds: backoff::delay(attempts),
            notice: (NoticeView {
                head: Seq::empty(),
                rest: "Error fetching block "@ + text::decimal(slot as nat) + ": "@ + failure
                    + ". Retrying in "@ + text::decimal(backoff::delay(attempts)) + "s..."@,
            }),
        }),
{
    let wait = text::decimal(backoff::delay(attempts));
    let attempt = text::decimal(attempts + 1);
    let most = text::decimal(limit);
    reveal_strlit(" ");
    reveal_strlit(". ");
    reveal_strlit("Retrying in ");
    reveal_strlit(" Retrying in ");
    reveal_strlit(". Retrying in ");
    reveal_strlit("s...");
    reveal_strlit(" (attempt ");
    reveal_strlit("s... (attempt ");
    assert(" Retrying in "@ =~= " "@ + "Retrying in "@);
    assert(". Retrying in "@ =~= ". "@ + "Retrying in "@);
    assert("s... (attempt "@ =~= "s..."@ + " (attempt "@);
    assert(" "@ + ("Retrying in "@ + wait + "s..."@) + (" (attempt "@ + attempt + "/"@ + most
        + ")"@) =~= " Retrying in "@ + wait + "s... (attempt "@ + attempt + "/"@ + most + ")"@);
    let head = "Error fetching block "@ + text::decimal(slot as nat) + ": "@ + failure;
    assert(head + ". "@ + ("Retrying in "@ + wait + "s..."@) =~= head + ". Retrying in "@ + wait
        + "s..."@);
}

/// A request for the leader schedule that failed is made again, while there are
/// attempts left, exactly where the failure speaks of a rate limit or of time
/// that ran out; the notice counts the attempts.
pub proof fn law_leaders_are_asked_for_again(attempts: nat, limit: nat, failure: Seq<char>)
    requires
        attempts < limit,
    ensures
        text::occurs_in(failure, "429"@) || text::occurs_in(failure, "rate limit"@)
            || text::occurs_in(failure, "timed out"@) ==> backoff::leader_step(
            attempts,
            limit,
            Some(failure),
        ) == (StepView::Wait {
            seconds: backoff::delay(attempts),
            notice: (NoticeView {
                head: Seq::empty(),
                rest: "Leader schedule fetch rate limited or timed out. Retrying in "@
                    + text::decimal(backoff::delay(attempts)) + "s... (attempt "@ + text::decimal(
                    attempts + 1,
                ) + "/"@ + text::decimal(limit) + ")"@,
            }),
        }),
        !text::occurs_in(failure, "429"@) && !text::occurs_in(failure, "rate limit"@)
            && !text::occurs_in(failure, "timed out"@) ==> backoff::leader_step(
            attempts,
            limit,
            Some(failure),
        ) == (StepView::Stop { erase: backoff::erasure(attempts) }),
{
    let wait = text::decimal(backoff::delay(attempts));
    let attempt = text::decimal(attempts + 1);
    let most = text::decimal(limit);
    reveal_strlit("Leader schedule fetch rate limited or timed out. ");
    reveal_strlit("Leader schedule fetch rate limited or timed out. Retrying in ");
    reveal_strlit("Retrying in ");
    reveal_strlit("s...");
    reveal_strlit(" (attempt ");
    reveal_strlit("s... (attempt ");
    let head = "Leader schedule fetch rate limited or timed out. "@;
    let whole = "Leader schedule fetch rate limited or timed out. Retrying in "@;
    assert(whole =~= head + "Retrying in "@);
    assert("s... (attempt "@ =~= "s..."@ + " (attempt "@);
    assert(head + ("Retrying in "@ + wait + "s..."@) + (" (attempt "@ + attempt + "/"@ + most
        + ")"@) =~= whole + wait + "s... (attempt "@ + attempt + "/"@ + most + ")"@);
}

/// A step says what is to be printed and how long to wait.
pub proof fn law_steps(erase: String, seconds: u64, notice: Notice)
    ensures
        (Step::Stop { erase })@ == (StepView::Stop { erase: erase@ }),
        (Step::Wait { seconds, notice })@ == (StepView::Wait {
            seconds: seconds as nat,
            notice: (NoticeView { head: notice.head@, rest: notice.rest@ }),
        }),
{
}

/// A wait counts as one attempt more, the end as none, and how many attempts
/// there may be stays the same.
pub proof fn law_attempts_are_counted(before: Backoff, after: Backoff, again: bool)
    requires
        Backoff::moved(before, after, again),
    ensures
        again ==> after.attempts() == before.attempts() + 1,
        !again ==> after.attempts() == before.attempts(),
        after.limit() == before.limit(),
{
}

/// A failure that is there says what it says.
pub proof fn law_failures(failure: &String)
    ensures
        backoff::failure_view(Some(failure)) == Some(failure@),
        backoff::failure_view(None) is None,
{
}

} // verus!
