//! Decisions shared by the dialog automations: which control to take,
//! which synthetic key strokes type a text, when typed text has arrived,
//! how to focus a control of another process, and whether to retry.

use vstd::prelude::*;
use crate::text::{decimal, decimal_string, utf16_encode, encode_utf16, ascii_lowercase, utf16_lossy, before_nul, wide_to_text, eq_ignore_ascii_case};

verus! {

/// Index of the first text satisfying `p`.
pub open spec fn first_such(texts: Seq<Seq<char>>, p: spec_fn(Seq<char>) -> bool) -> Option<int> {
    if exists|i: int| 0 <= i < texts.len() && p(texts[i]) {
        Some(choose|i: int| 0 <= i < texts.len() && p(texts[i]) && forall|k: int| 0 <= k < i ==> !p(texts[k]))
    } else {
        None
    }
}

/// The view of a list of strings.
pub open spec fn strings_model(v: Seq<String>) -> Seq<Seq<char>> {
    v.map_values(|s: String| s@)
}

/// Index of the first `true` among `flags`.
pub open spec fn first_true(flags: Seq<bool>) -> Option<int> {
    if exists|i: int| 0 <= i < flags.len() && flags[i] {
        Some(choose|i: int| 0 <= i < flags.len() && flags[i] && forall|k: int| 0 <= k < i ==> !flags[k])
    } else {
        None
    }
}

/// The first index whose flag is set: the first visible control among
/// candidates, given their visibility.
pub fn first_visible(visible: &Vec<bool>) -> (r: Option<usize>)
    ensures
        match r {
            Some(i) => first_true(visible@) == Some(i as int),
            None => first_true(visible@) is None,
        },
{
    let n = visible.len();
    let mut i: usize = 0;
    while i < n
        invariant
            n == visible@.len(),
            i <= n,
            forall|k: int| 0 <= k < i ==> !visible@[k],
        decreases n - i,
    {
        if visible[i] {
            proof {
                let w = choose|x: int| 0 <= x < visible@.len() && visible@[x] && forall|k: int| 0 <= k < x ==> !visible@[k];
                assert(w == i as int) by {
                    if w < i {
                    } else if w > i {
                    }
                }
            }
            return Some(i);
        }
        i = i + 1;
    }
    None
}

/// One synthetic key event: the UTF-16 code unit sent as a Unicode key
/// (`KEYEVENTF_UNICODE`), pressed or released.
#[derive(Debug, Clone, Copy, PartialEq)]
pub struct KeyStroke {
    pub code_unit: u16,
    pub key_up: bool,
}

/// The key events that type `units`: each code unit pressed, then
/// released, in order.
pub open spec fn strokes_typing(units: Seq<u16>) -> Seq<(u16, bool)> {
    Seq::new(2 * units.len(), |k: int| (units[k / 2], k % 2 == 1))
}

/// How typing a text goes: its code units, the key events that type them,
/// and how long to wait for the control to show them.
#[derive(Debug, PartialEq)]
pub struct TypingPlan {
    pub units: Vec<u16>,
    pub strokes: Vec<KeyStroke>,
    pub drain_budget_ms: u64,
}

/// The time to wait for typed text to arrive: `base_ms` plus 10 ms per
/// code unit.
pub open spec fn drain_budget(base_ms: u64, units: nat) -> int {
    base_ms + units * 10
}

/// Plans typing `text`: its UTF-16 code units, a press and a release per
/// unit, and a wait budget of `base_ms` plus 10 ms per unit.
pub fn plan_typing(text: &str, base_ms: u64) -> (p: TypingPlan)
    requires
        utf16_encode(text@).len() * 10 + base_ms <= u64::MAX,
    ensures
        p.units@ == utf16_encode(text@),
        p.strokes@.map_values(|s: KeyStroke| (s.code_unit, s.key_up)) == strokes_typing(p.units@),
        p.drain_budget_ms == drain_budget(base_ms, p.units@.len()),
{
    let units = encode_utf16(text);
    let n = units.len();
    let mut strokes: Vec<KeyStroke> = Vec::new();
    let mut i: usize = 0;
    while i < n
        invariant
            n == units@.len(),
            i <= n,
            strokes@.map_values(|s: KeyStroke| (s.code_unit, s.key_up)) == strokes_typing(units@.take(i as int)),
        decreases n - i,
    {
        let ghost before = strokes@;
        strokes.push(KeyStroke { code_unit: units[i], key_up: false });
        strokes.push(KeyStroke { code_unit: units[i], key_up: true });
        i = i + 1;
        proof {
            let got = strokes@.map_values(|s: KeyStroke| (s.code_unit, s.key_up));
            let want = strokes_typing(units@.take(i as int));
            let prev = strokes_typing(units@.take(i - 1));
            assert(before.map_values(|s: KeyStroke| (s.code_unit, s.key_up)) == prev);
            assert forall|k: int| 0 <= k < want.len() implies got[k] == want[k] by {
                if k < 2 * (i - 1) {
                    assert(got[k] == prev[k]);
                }
            }
            assert(got =~= want);
        }
    }
    assert(units@.take(n as int) =~= units@);
    let budget = base_ms + (n as u64) * 10;
    TypingPlan { units, strokes, drain_budget_ms: budget }
}

/// Whether to stop waiting for typed text: the control shows at least the
/// expected number of code units, or the budget is spent.
pub fn drain_finished(current_len: usize, expected_len: usize, elapsed_ms: u64, budget_ms: u64) -> (done: bool)
    ensures
        done == (current_len >= expected_len || elapsed_ms > budget_ms),
{
    current_len >= expected_len || elapsed_ms > budget_ms
}

/// The error of a `SendInput` call that took fewer events than given.
pub open spec fn partial_input_message(label: Seq<char>, sent: u32, expected: u32) -> Seq<char> {
    "SendInput partial for "@ + label + ": "@ + decimal(sent as nat) + "/"@ + decimal(expected as nat)
        + " events accepted"@
}

/// Checks that `SendInput` took all `expected` events for the field
/// `label`.
pub fn check_sent(label: &str, sent: u32, expected: u32) -> (r: Result<(), String>)
    ensures
        r is Ok <==> sent == expected,
        r matches Err(e) ==> e@ == partial_input_message(label@, sent, expected),
{
    if sent == expected {
        return Ok(());
    }
    let mut e = "SendInput partial for ".to_string();
    e.append(label);
    e.append(": ");
    e.append(decimal_string(sent as u64).as_str());
    e.append("/");
    e.append(decimal_string(expected as u64).as_str());
    e.append(" events accepted");
    Err(e)
}

/// How to give the keyboard focus to a control of another window.
#[derive(Debug, Clone, Copy, PartialEq)]
pub enum FocusPlan {
    /// The window's thread is unknown: nothing can be focused.
    Unavailable,
    /// The window belongs to this thread: focus directly.
    Direct,
    /// Attach this thread's input queue to the window's thread, focus,
    /// then detach.
    AttachInput,
}

/// Decides how to focus a control whose top window runs on the thread
/// `target_tid`, from the thread `our_tid`.
pub fn focus_plan(our_tid: u32, target_tid: u32) -> (p: FocusPlan)
    ensures
        target_tid == 0 ==> p is Unavailable,
        target_tid != 0 && target_tid == our_tid ==> p is Direct,
        target_tid != 0 && target_tid != our_tid ==> p is AttachInput,
{
    if target_tid == 0 {
        FocusPlan::Unavailable
    } else if target_tid != our_tid {
        FocusPlan::AttachInput
    } else {
        FocusPlan::Direct
    }
}

/// What follows one attempt at filling a dialog in.
#[derive(Debug, PartialEq)]
pub enum RetryStep {
    /// The attempt succeeded: go on.
    Proceed,
    /// A transient failure: wait and try again.
    Wait,
    /// Give up with this error.
    Fail(String),
}

/// The view of a [`RetryStep`].
pub enum RetryModel {
    Proceed,
    Wait,
    Fail(Seq<char>),
}

impl View for RetryStep {
    type V = RetryModel;

    open spec fn view(&self) -> RetryModel {
        match self {
            RetryStep::Proceed => RetryModel::Proceed,
            RetryStep::Wait => RetryModel::Wait,
            RetryStep::Fail(e) => RetryModel::Fail(e@),
        }
    }
}

/// The error once the retry budget of `max_attempts` attempts, `delay_ms`
/// apart, is spent; the time is in whole seconds.
pub open spec fn exhausted_message(max_attempts: u32, delay_ms: u64, last: Seq<char>) -> Seq<char> {
    "Window/UI did not become ready after "@ + decimal(((max_attempts * delay_ms) / 1000) as nat) + "s: "@ + last
}

/// What follows attempt number `attempt` of at most `max_attempts`: go on
/// after a success; give up on an error that is not transient, or on the
/// last attempt; else wait and retry.
pub open spec fn retry_model(
    attempt: u32,
    max_attempts: u32,
    delay_ms: u64,
    outcome: Result<(), Seq<char>>,
    transient: bool,
) -> RetryModel {
    match outcome {
        Ok(()) => RetryModel::Proceed,
        Err(e) => if !transient {
            RetryModel::Fail(e)
        } else if attempt == max_attempts {
            RetryModel::Fail(exhausted_message(max_attempts, delay_ms, e))
        } else {
            RetryModel::Wait
        },
    }
}

/// Decides what follows attempt number `attempt`, given its outcome and
/// whether its error is transient.
pub fn retry_step(attempt: u32, max_attempts: u32, delay_ms: u64, outcome: Result<(), String>, transient: bool) -> (r: RetryStep)
    requires
        max_attempts * delay_ms <= u64::MAX,
    ensures
        r@ == retry_model(attempt, max_attempts, delay_ms, crate::mcp::tools::flow_model(outcome), transient),
{
    match outcome {
        Ok(()) => RetryStep::Proceed,
        Err(e) => {
            if !transient {
                RetryStep::Fail(e)
            } else if attempt == max_attempts {
                let seconds = (max_attempts as u64 * delay_ms) / 1000;
                let mut m = "Window/UI did not become ready after ".to_string();
                m.append(decimal_string(seconds).as_str());
                m.append("s: ");
                m.append(e.as_str());
                RetryStep::Fail(m)
            } else {
                RetryStep::Wait
            }
        },
    }
}

/// Whether a process's executable name, as the process list gives it,
/// is `name` up to ASCII case.
pub fn is_process_named(exe_file: &[u16], name: &str) -> (r: bool)
    ensures
        r == (ascii_lowercase(utf16_lossy(before_nul(exe_file@))) == ascii_lowercase(name@)),
{
    let exe = wide_to_text(exe_file);
    eq_ignore_ascii_case(exe.as_str(), name)
}


/// Retrying is bounded: a success always goes on, an error that is not
/// transient is never retried, and the last attempt never waits, so a flow
/// makes at most `max_attempts` attempts.
pub proof fn retries_are_bounded(
    attempt: u32,
    max_attempts: u32,
    delay_ms: u64,
    outcome: Result<(), Seq<char>>,
    transient: bool,
)
    ensures
        outcome is Ok ==> retry_model(attempt, max_attempts, delay_ms, outcome, transient) == RetryModel::Proceed,
        outcome matches Err(e) ==> (!transient ==> retry_model(attempt, max_attempts, delay_ms, outcome, transient)
            == RetryModel::Fail(e)),
        !(retry_model(max_attempts, max_attempts, delay_ms, outcome, transient) is Wait),
        retry_model(attempt, max_attempts, delay_ms, outcome, transient) is Wait ==> attempt != max_attempts
            && transient && outcome is Err,
{
}


/// A transient error on an attempt before the last is waited out and
/// retried; a transient error on the last attempt gives up with the
/// budget spent and the error; the outcome of an attempt is the only other
/// thing that decides.
pub proof fn transient_errors_are_retried_until_the_last_attempt(
    attempt: u32,
    max_attempts: u32,
    delay_ms: u64,
    e: Seq<char>,
)
    ensures
        attempt != max_attempts ==> retry_model(attempt, max_attempts, delay_ms, Err(e), true) == RetryModel::Wait,
        retry_model(max_attempts, max_attempts, delay_ms, Err(e), true) == RetryModel::Fail(
            "Window/UI did not become ready after "@ + decimal(((max_attempts * delay_ms) / 1000) as nat) + "s: "@ + e,
        ),
        retry_model(attempt, max_attempts, delay_ms, Err(e), false) == RetryModel::Fail(e),
        retry_model(attempt, max_attempts, delay_ms, Ok(()), true) == RetryModel::Proceed,
        retry_model(attempt, max_attempts, delay_ms, Ok(()), false) == RetryModel::Proceed,
{
}


/// `first_such` picks the first text satisfying `p`, and `None` only when
/// no text does.
pub proof fn first_such_is_the_first(texts: Seq<Seq<char>>, p: spec_fn(Seq<char>) -> bool)
    ensures
        match first_such(texts, p) {
            Some(i) => 0 <= i < texts.len() && p(texts[i]) && forall|k: int| 0 <= k < i ==> !p(#[trigger] texts[k]),
            None => forall|k: int| 0 <= k < texts.len() ==> !p(#[trigger] texts[k]),
        },
        forall|i: int|
            0 <= i < texts.len() && p(#[trigger] texts[i]) && (forall|k: int| 0 <= k < i ==> !p(#[trigger] texts[k]))
                ==> first_such(texts, p) == Some(i),
{
    if exists|i: int| 0 <= i < texts.len() && p(texts[i]) {
        let w = choose|i: int| 0 <= i < texts.len() && p(texts[i]) && forall|k: int| 0 <= k < i ==> !p(texts[k]);
        // The least index satisfying `p` is a witness.
        let i0 = choose|i: int| 0 <= i < texts.len() && p(texts[i]);
        least_satisfying(texts, p, i0);
        assert forall|i: int|
            0 <= i < texts.len() && p(#[trigger] texts[i]) && (forall|k: int| 0 <= k < i ==> !p(#[trigger] texts[k]))
                implies first_such(texts, p) == Some(i) by {
            if w < i {
                assert(!p(texts[w]));
            } else if w > i {
                assert(!p(texts[i]));
            }
        }
    }
}

proof fn least_satisfying(texts: Seq<Seq<char>>, p: spec_fn(Seq<char>) -> bool, i: int)
    requires
        0 <= i < texts.len(),
        p(texts[i]),
    ensures
        exists|j: int| 0 <= j < texts.len() && p(texts[j]) && forall|k: int| 0 <= k < j ==> !p(texts[k]),
    decreases i,
{
    if exists|k: int| 0 <= k < i && p(texts[k]) {
        let k = choose|k: int| 0 <= k < i && p(texts[k]);
        least_satisfying(texts, p, k);
    } else {
        assert(forall|k: int| 0 <= k < i ==> !p(texts[k]));
    }
}


/// Typing presses each code unit and then releases it, unit after unit:
/// event `2i` presses unit `i` and event `2i + 1` releases it, and there
/// is no other event.
pub proof fn each_unit_is_pressed_then_released(units: Seq<u16>)
    ensures
        strokes_typing(units).len() == 2 * units.len(),
        forall|i: int| 0 <= i < units.len() ==> #[trigger] strokes_typing(units)[2 * i] == (units[i], false)
            && strokes_typing(units)[2 * i + 1] == (units[i], true),
{
    assert forall|i: int| 0 <= i < units.len() implies #[trigger] strokes_typing(units)[2 * i] == (units[i], false)
        && strokes_typing(units)[2 * i + 1] == (units[i], true) by {
        assert((2 * i) / 2 == i && (2 * i) % 2 == 0);
        assert((2 * i + 1) / 2 == i && (2 * i + 1) % 2 == 1);
    }
}

/// The first visible control is visible and no control before it is; none
/// is found only when no control is visible.
pub proof fn first_visible_is_the_first(flags: Seq<bool>)
    ensures
        match first_true(flags) {
            Some(i) => 0 <= i < flags.len() && flags[i] && forall|k: int| 0 <= k < i ==> !#[trigger] flags[k],
            None => forall|k: int| 0 <= k < flags.len() ==> !#[trigger] flags[k],
        },
{
    if exists|i: int| 0 <= i < flags.len() && flags[i] {
        let i0 = choose|i: int| 0 <= i < flags.len() && flags[i];
        least_true(flags, i0);
    }
}

proof fn least_true(flags: Seq<bool>, i: int)
    requires
        0 <= i < flags.len(),
        flags[i],
    ensures
        exists|j: int| 0 <= j < flags.len() && flags[j] && forall|k: int| 0 <= k < j ==> !flags[k],
    decreases i,
{
    if exists|k: int| 0 <= k < i && flags[k] {
        let k = choose|k: int| 0 <= k < i && flags[k];
        least_true(flags, k);
    } else {
        assert(forall|k: int| 0 <= k < i ==> !flags[k]);
    }
}

} // verus!
