use vstd::prelude::*;

verus! {

/// `part` occurs in `text` at position `i`.
pub open spec fn occurs_at(text: Seq<char>, part: Seq<char>, i: int) -> bool {
    0 <= i && i + part.len() <= text.len() && text.subrange(i, i + part.len()) == part
}

/// `part` occurs somewhere in `text` (the empty text occurs everywhere).
pub open spec fn text_contains(text: Seq<char>, part: Seq<char>) -> bool {
    exists|i: int| #[trigger] occurs_at(text, part, i)
}

/// Whether `part` occurs at position `i` of `text`.
fn occurs_at_exec(text: &str, part: &str, i: usize) -> (found: bool)
    requires
        i + part@.len() <= text@.len(),
    ensures
        found == occurs_at(text@, part@, i as int),
{
    let n = text.unicode_len();
    let m = part.unicode_len();
    for j in 0..m
        invariant
            m == part@.len(),
            n == text@.len(),
            i + m <= n,
            forall|t: int| 0 <= t < j ==> text@[i + t] == part@[t],
    {
        if text.get_char(i + j) != part.get_char(j) {
            assert(text@.subrange(i as int, i + m)[j as int] != part@[j as int]);
            return false;
        }
    }
    assert(text@.subrange(i as int, i + m) =~= part@);
    true
}

/// Whether `part` occurs in `text`.
pub fn contains_text(text: &str, part: &str) -> (found: bool)
    ensures
        found == text_contains(text@, part@),
{
    let n = text.unicode_len();
    let m = part.unicode_len();
    if m > n {
        assert forall|i: int| !occurs_at(text@, part@, i) by {}
        return false;
    }
    if m == 0 {
        assert(text@.subrange(0, 0) =~= part@);
        assert(occurs_at(text@, part@, 0));
        return true;
    }
    let mut i: usize = 0;
    while i <= n - m
        invariant
            n == text@.len(),
            m == part@.len(),
            1 <= m <= n,
            i <= n - m + 1,
            forall|t: int| 0 <= t < i ==> !#[trigger] occurs_at(text@, part@, t),
        decreases n - m + 1 - i,
    {
        if occurs_at_exec(text, part, i) {
            return true;
        }
        i = i + 1;
    }
    assert forall|t: int| !#[trigger] occurs_at(text@, part@, t) by {
        if 0 <= t < i {
        }
    }
    false
}

/// Some known error occurs in the message.
pub open spec fn is_known(message: Seq<char>, known_errors: Seq<String>) -> bool {
    exists|k: int| 0 <= k < known_errors.len() && text_contains(message, #[trigger] known_errors[k]@)
}

/// Whether the error message holds one of the known errors.
pub fn is_known_error(message: &str, known_errors: &Vec<String>) -> (known: bool)
    ensures
        known == is_known(message@, known_errors@),
{
    let n = known_errors.len();
    for k in 0..n
        invariant
            n == known_errors.len(),
            forall|t: int| 0 <= t < k ==> !text_contains(message@, #[trigger] known_errors@[t]@),
    {
        if contains_text(message, known_errors[k].as_str()) {
            return true;
        }
    }
    false
}

/// What a retrying request does after one attempt.
#[derive(PartialEq, Eq, Structural, Debug, Clone, Copy)]
pub enum RetryStep {
    /// The attempt succeeded: hand its result back.
    Finish,
    /// The attempt failed with an error that is not known: give up at once.
    Abort,
    /// The attempt failed with a known error: wait, then try again while
    /// attempts remain.
    WaitAndRetry,
    /// The last attempt failed with a known error: wait, then fail with
    /// "request failed after n retries".
    WaitAndGiveUp,
}

/// Decides what follows an attempt: a success ends the request, an error
/// that holds a known error is retried after a delay, any other error ends
/// it.
pub fn after_attempt(succeeded: bool, message: &str, known_errors: &Vec<String>) -> (step: RetryStep)
    ensures
        step == if succeeded {
            RetryStep::Finish
        } else if is_known(message@, known_errors@) {
            RetryStep::WaitAndRetry
        } else {
            RetryStep::Abort
        },
{
    if succeeded {
        RetryStep::Finish
    } else if is_known_error(message, known_errors) {
        RetryStep::WaitAndRetry
    } else {
        RetryStep::Abort
    }
}

/// Decides what follows attempt number `attempt` (counted from 0) of
/// `num_retries`: a success ends the request, an error that is not known
/// aborts it, and a known error is waited out, then retried while attempts
/// remain; after the last attempt the request gives up.
pub fn next_retry_step(
    attempt: usize,
    num_retries: usize,
    succeeded: bool,
    message: &str,
    known_errors: &Vec<String>,
) -> (step: RetryStep)
    requires
        attempt < num_retries,
    ensures
        step == if succeeded {
            RetryStep::Finish
        } else if !is_known(message@, known_errors@) {
            RetryStep::Abort
        } else if attempt + 1 < num_retries {
            RetryStep::WaitAndRetry
        } else {
            RetryStep::WaitAndGiveUp
        },
{
    match after_attempt(succeeded, message, known_errors) {
        RetryStep::WaitAndRetry => if attempt + 1 < num_retries {
            RetryStep::WaitAndRetry
        } else {
            RetryStep::WaitAndGiveUp
        },
        step => step,
    }
}

/// A message that holds a known error word for word is retried.
pub proof fn law_known_error_is_retried(message: Seq<char>, known_errors: Seq<String>, k: int)
    requires
        0 <= k < known_errors.len(),
        known_errors[k]@ == message,
    ensures
        is_known(message, known_errors),
{
    assert(message.subrange(0, message.len() as int) =~= message);
    assert(occurs_at(message, known_errors[k]@, 0));
    assert(text_contains(message, known_errors[k]@));
}

} // verus!
