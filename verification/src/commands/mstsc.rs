//! Windows Remote Desktop (mstsc.exe) automation: launch or focus, type an
//! IP/hostname into the "Computer" field, click "Connect". The window
//! handling is the caller's; this module decides which window and controls
//! to act on, what each step reports, and when to retry.

use vstd::prelude::*;
use crate::commands::dialog::{first_such, first_such_is_the_first, strings_model, RetryStep, retry_model, retry_step, TypingPlan, KeyStroke, plan_typing, strokes_typing, drain_budget};
use crate::mcp::tools::flow_model;
use crate::text::{
    has_substring, occurs_at, str_contains, ascii_lowercase, lowercase_chars, contains_chars, without_char,
    remove_char, chars_of, chars_eq, utf16_lossy, before_nul, wide_to_text, utf16_encode,
};

verus! {

/// Outcome of launching or focusing a client.
#[derive(Debug, PartialEq)]
pub struct LaunchResult {
    pub launched: bool,
    pub message: String,
}

/// Executable name of Remote Desktop.
pub const MSTSC_PROCESS_NAME: &'static str = "mstsc.exe";

/// The error every mstsc command gives off Windows.
pub const UNSUPPORTED: &'static str = "mstsc automation is only supported on Windows";

/// The error when no Remote Desktop dialog is open.
pub const WINDOW_NOT_FOUND: &'static str = "mstsc window not found — is Remote Desktop open?";

/// The error when the dialog shows no Computer combo box.
pub const NO_COMBOBOX: &'static str = "No visible ComboBox found in mstsc dialog";

/// The error when the Computer combo box has no edit field.
pub const NO_INNER_EDIT: &'static str = "No inner Edit found inside Computer ComboBox";

/// The error for an empty IP/hostname.
pub const EMPTY_IP: &'static str = "IP string is empty";

/// The error when no Connect button is visible.
pub const NO_CONNECT_BUTTON: &'static str = "Could not locate a visible Connect button in mstsc dialog";

/// Attempts at typing the IP before giving up.
pub const MAX_ATTEMPTS: u32 = 30;

/// Pause between two attempts, in milliseconds.
pub const DELAY_MS: u64 = 300;

/// Pause between typing the IP and clicking Connect, in milliseconds.
pub const SETTLE_BEFORE_CLICK_MS: u64 = 250;

/// Wait budget for typed text to arrive, before the per-unit part.
pub const DRAIN_BASE_MS: u64 = 150;

/// Errors after which the dialog may simply not be ready yet.
pub open spec fn is_transient(err: Seq<char>) -> bool {
    has_substring(err, "mstsc window not found"@) || has_substring(err, "No visible ComboBox"@)
        || has_substring(err, "No inner Edit"@)
}

/// Whether `err` says the dialog is not ready yet, so that the attempt is
/// worth repeating.
pub fn is_transient_mstsc_error(err: &str) -> (r: bool)
    ensures
        r == is_transient(err@),
{
    str_contains(err, "mstsc window not found") || str_contains(err, "No visible ComboBox")
        || str_contains(err, "No inner Edit")
}

/// The text of a NUL-terminated UTF-16 buffer (a process or window name).
pub fn wide_to_string(wide: &[u16]) -> (s: String)
    ensures
        s@ == utf16_lossy(before_nul(wide@)),
{
    wide_to_text(wide)
}

/// What the launch step found or did.
#[derive(Debug, PartialEq)]
pub enum LaunchEvent {
    /// Remote Desktop runs and its window was brought to the front.
    FocusedExisting,
    /// Remote Desktop runs but shows no window yet.
    RunningWithoutWindow,
    /// Remote Desktop was started, or starting it failed with this error.
    Spawned(Result<(), String>),
}

/// What the launch step reports for `event`: (launched, message), or the
/// error.
pub open spec fn launch_model(event: LaunchEvent) -> Result<(bool, Seq<char>), Seq<char>> {
    match event {
        LaunchEvent::FocusedExisting => Ok((false, "Focused existing mstsc window"@)),
        LaunchEvent::RunningWithoutWindow => Ok((false, "mstsc already running (no window yet)"@)),
        LaunchEvent::Spawned(Ok(())) => Ok((true, "Launched mstsc"@)),
        LaunchEvent::Spawned(Err(e)) => Err("Failed to launch mstsc: "@ + e@),
    }
}

/// The report of the launch step.
pub fn launch_outcome(event: LaunchEvent) -> (r: Result<LaunchResult, String>)
    ensures
        match r {
            Ok(l) => launch_model(event) == Ok::<(bool, Seq<char>), Seq<char>>((l.launched, l.message@)),
            Err(e) => launch_model(event) == Err::<(bool, Seq<char>), Seq<char>>(e@),
        },
{
    match event {
        LaunchEvent::FocusedExisting => Ok(LaunchResult { launched: false, message: "Focused existing mstsc window".to_string() }),
        LaunchEvent::RunningWithoutWindow => Ok(LaunchResult {
            launched: false,
            message: "mstsc already running (no window yet)".to_string(),
        }),
        LaunchEvent::Spawned(Ok(())) => Ok(LaunchResult { launched: true, message: "Launched mstsc".to_string() }),
        LaunchEvent::Spawned(Err(e)) => {
            let mut m = "Failed to launch mstsc: ".to_string();
            m.append(e.as_str());
            Err(m)
        },
    }
}

/// A dialog title that names Remote Desktop.
pub open spec fn is_mstsc_title(title: Seq<char>) -> bool {
    has_substring(title, "远程桌面连接"@) || has_substring(title, "Remote Desktop Connection"@)
        || has_substring(title, "远程桌面"@)
}

/// Picks the Remote Desktop dialog among the visible dialogs, given their
/// titles: the first whose title names Remote Desktop.
pub fn select_mstsc_window(titles: &Vec<String>) -> (r: Option<usize>)
    ensures
        match r {
            Some(i) => first_such(strings_model(titles@), |t: Seq<char>| is_mstsc_title(t)) == Some(i as int),
            None => first_such(strings_model(titles@), |t: Seq<char>| is_mstsc_title(t)) is None,
        },
{
    let ghost ts = strings_model(titles@);
    let ghost p = |t: Seq<char>| is_mstsc_title(t);
    let n = titles.len();
    let mut i: usize = 0;
    while i < n
        invariant
            n == titles@.len(),
            ts == strings_model(titles@),
            p == (|t: Seq<char>| is_mstsc_title(t)),
            i <= n,
            forall|k: int| 0 <= k < i ==> !p(ts[k]),
        decreases n - i,
    {
        let t = titles[i].as_str();
        if str_contains(t, "远程桌面连接") || str_contains(t, "Remote Desktop Connection") || str_contains(t, "远程桌面") {
            proof {
                assert(p(ts[i as int]));
                let w = choose|x: int| 0 <= x < ts.len() && p(ts[x]) && forall|k: int| 0 <= k < x ==> !p(ts[k]);
                assert(w == i as int) by {
                    if w < i {
                    } else if w > i {
                    }
                }
            }
            return Some(i);
        }
        assert(!p(ts[i as int]));
        i = i + 1;
    }
    None
}

/// A button text that is exactly "Connect" (in Chinese or English), once
/// the accelerator marks `&` are dropped.
pub open spec fn is_exact_connect(text: Seq<char>) -> bool {
    let s = without_char(text, '&');
    s == "连接"@ || s == "连接(N)"@ || s == "Connect"@ || ascii_lowercase(s) == ascii_lowercase("connect"@)
}

/// A button text that mentions connecting.
pub open spec fn mentions_connect(text: Seq<char>) -> bool {
    has_substring(text, "连接"@) || has_substring(ascii_lowercase(text), "connect"@)
}

/// The Connect button among the visible buttons, given their texts: the
/// first that reads exactly "Connect", else the first that mentions it.
pub open spec fn connect_button(texts: Seq<Seq<char>>) -> Option<int> {
    match first_such(texts, |t: Seq<char>| is_exact_connect(t)) {
        Some(i) => Some(i),
        None => first_such(texts, |t: Seq<char>| mentions_connect(t)),
    }
}

fn exact_connect(t: &str) -> (r: bool)
    ensures
        r == is_exact_connect(t@),
{
    let s = remove_char(t, '&');
    let c1 = chars_of("连接");
    let c2 = chars_of("连接(N)");
    let c3 = chars_of("Connect");
    let lower = lowercase_chars("connect");
    let n = s.len();
    let mut ls: Vec<char> = Vec::new();
    let mut i: usize = 0;
    while i < n
        invariant
            n == s@.len(),
            i <= n,
            ls@ == ascii_lowercase(s@.take(i as int)),
        decreases n - i,
    {
        let c = s[i];
        let lc = if 'A' <= c && c <= 'Z' { ((c as u8) + 32) as char } else { c };
        ls.push(lc);
        i = i + 1;
        assert(ls@ =~= ascii_lowercase(s@.take(i as int)));
    }
    assert(s@.take(n as int) =~= s@);
    chars_eq(&s, &c1) || chars_eq(&s, &c2) || chars_eq(&s, &c3) || chars_eq(&ls, &lower)
}

fn mentions_connect_exec(t: &str) -> (r: bool)
    ensures
        r == mentions_connect(t@),
{
    let lower = lowercase_chars(t);
    let pat = chars_of("connect");
    str_contains(t, "连接") || contains_chars(&lower, &pat)
}

/// Picks the Connect button among the visible buttons, given their texts.
pub fn select_connect_button(texts: &Vec<String>) -> (r: Option<usize>)
    ensures
        match r {
            Some(i) => connect_button(strings_model(texts@)) == Some(i as int),
            None => connect_button(strings_model(texts@)) is None,
        },
{
    let ghost ts = strings_model(texts@);
    let ghost p = |t: Seq<char>| is_exact_connect(t);
    let ghost q = |t: Seq<char>| mentions_connect(t);
    let n = texts.len();
    let mut i: usize = 0;
    while i < n
        invariant
            n == texts@.len(),
            ts == strings_model(texts@),
            p == (|t: Seq<char>| is_exact_connect(t)),
            i <= n,
            forall|k: int| 0 <= k < i ==> !p(ts[k]),
        decreases n - i,
    {
        if exact_connect(texts[i].as_str()) {
            proof {
                assert(p(ts[i as int]));
                let w = choose|x: int| 0 <= x < ts.len() && p(ts[x]) && forall|k: int| 0 <= k < x ==> !p(ts[k]);
                assert(w == i as int) by {
                    if w < i {
                    } else if w > i {
                    }
                }
            }
            return Some(i);
        }
        assert(!p(ts[i as int]));
        i = i + 1;
    }
    assert(first_such(ts, p) is None);
    let mut j: usize = 0;
    while j < n
        invariant
            n == texts@.len(),
            ts == strings_model(texts@),
            q == (|t: Seq<char>| mentions_connect(t)),
            p == (|t: Seq<char>| is_exact_connect(t)),
            first_such(ts, p) is None,
            j <= n,
            forall|k: int| 0 <= k < j ==> !q(ts[k]),
        decreases n - j,
    {
        if mentions_connect_exec(texts[j].as_str()) {
            proof {
                assert(q(ts[j as int]));
                let w = choose|x: int| 0 <= x < ts.len() && q(ts[x]) && forall|k: int| 0 <= k < x ==> !q(ts[k]);
                assert(w == j as int) by {
                    if w < j {
                    } else if w > j {
                    }
                }
            }
            return Some(j);
        }
        assert(!q(ts[j as int]));
        j = j + 1;
    }
    None
}

/// What follows attempt number `attempt` at typing the IP.
pub fn after_inject_attempt(attempt: u32, outcome: Result<(), String>) -> (r: RetryStep)
    ensures
        r@ == retry_model(
            attempt,
            MAX_ATTEMPTS,
            DELAY_MS,
            flow_model(outcome),
            match outcome {
                Ok(()) => false,
                Err(e) => is_transient(e@),
            },
        ),
{
    let transient = match &outcome {
        Ok(()) => false,
        Err(e) => is_transient_mstsc_error(e.as_str()),
    };
    retry_step(attempt, MAX_ATTEMPTS, DELAY_MS, outcome, transient)
}


/// Plans typing the IP/hostname `ip`: refused when it is empty, else its
/// code units, key events and a wait budget of 150 ms plus 10 ms per unit.
pub fn plan_ip_typing(ip: &str) -> (r: Result<TypingPlan, String>)
    requires
        utf16_encode(ip@).len() * 10 + DRAIN_BASE_MS <= u64::MAX,
    ensures
        r is Err <==> utf16_encode(ip@).len() == 0,
        r matches Err(e) ==> e@ == EMPTY_IP@,
        r matches Ok(p) ==> p.units@ == utf16_encode(ip@)
            && p.strokes@.map_values(|s: KeyStroke| (s.code_unit, s.key_up)) == strokes_typing(p.units@)
            && p.drain_budget_ms == drain_budget(DRAIN_BASE_MS, p.units@.len()),
{
    let plan = plan_typing(ip, DRAIN_BASE_MS);
    if plan.units.len() == 0 {
        return Err(EMPTY_IP.to_string());
    }
    Ok(plan)
}


/// The errors of a dialog that is not open or not ready yet are retried;
/// an empty IP is not.
pub proof fn unready_dialog_errors_are_transient()
    ensures
        is_transient(WINDOW_NOT_FOUND@),
        is_transient(NO_COMBOBOX@),
        is_transient(NO_INNER_EDIT@),
        !is_transient(EMPTY_IP@),
{
    reveal_strlit("mstsc window not found — is Remote Desktop open?");
    reveal_strlit("mstsc window not found");
    reveal_strlit("No visible ComboBox found in mstsc dialog");
    reveal_strlit("No visible ComboBox");
    reveal_strlit("No inner Edit found inside Computer ComboBox");
    reveal_strlit("No inner Edit");
    reveal_strlit("IP string is empty");
    assert(occurs_at(WINDOW_NOT_FOUND@, "mstsc window not found"@, 0)) by {
        assert(WINDOW_NOT_FOUND@.subrange(0, 22) =~= "mstsc window not found"@);
    }
    assert(occurs_at(NO_COMBOBOX@, "No visible ComboBox"@, 0)) by {
        assert(NO_COMBOBOX@.subrange(0, 19) =~= "No visible ComboBox"@);
    }
    assert(occurs_at(NO_INNER_EDIT@, "No inner Edit"@, 0)) by {
        assert(NO_INNER_EDIT@.subrange(0, 13) =~= "No inner Edit"@);
    }
    assert forall|i: int| !occurs_at(EMPTY_IP@, "No inner Edit"@, i) by {
        if occurs_at(EMPTY_IP@, "No inner Edit"@, i) {
            assert(EMPTY_IP@.subrange(i, i + 13)[0] == 'N');
        }
    }
    assert forall|i: int| !occurs_at(EMPTY_IP@, "mstsc window not found"@, i) by {}
    assert forall|i: int| !occurs_at(EMPTY_IP@, "No visible ComboBox"@, i) by {}
}


/// The launch step reports `launched` exactly when it spawned a new
/// process: focusing a running client, or finding it without a window,
/// reports `false`; a successful spawn reports `true`; a failed spawn is an
/// error.
pub proof fn launched_means_spawned(event: LaunchEvent)
    ensures
        launch_model(event) matches Ok((launched, _)) ==> (launched <==> event matches LaunchEvent::Spawned(Ok(()))),
        event matches LaunchEvent::Spawned(Ok(())) ==> launch_model(event) matches Ok((true, _)),
        event is FocusedExisting ==> launch_model(event) matches Ok((false, _)),
        event is RunningWithoutWindow ==> launch_model(event) matches Ok((false, _)),
        event matches LaunchEvent::Spawned(Err(_)) ==> launch_model(event) is Err,
{
}


/// The Remote Desktop dialog is the first visible dialog whose title
/// contains "远程桌面连接", "Remote Desktop Connection" or "远程桌面": a
/// title containing any of them is recognised, and nothing else is.
pub proof fn remote_desktop_titles_are_recognised(titles: Seq<Seq<char>>, i: int)
    ensures
        first_such(titles, |t: Seq<char>| is_mstsc_title(t)) == Some(i) <==> {
            &&& 0 <= i < titles.len()
            &&& has_substring(titles[i], "远程桌面连接"@) || has_substring(titles[i], "Remote Desktop Connection"@)
                || has_substring(titles[i], "远程桌面"@)
            &&& forall|k: int| 0 <= k < i ==> !(has_substring(#[trigger] titles[k], "远程桌面连接"@)
                || has_substring(titles[k], "Remote Desktop Connection"@) || has_substring(titles[k], "远程桌面"@))
        },
        first_such(titles, |t: Seq<char>| is_mstsc_title(t)) is None <==> forall|k: int| 0 <= k < titles.len()
            ==> !(has_substring(#[trigger] titles[k], "远程桌面连接"@)
                || has_substring(titles[k], "Remote Desktop Connection"@) || has_substring(titles[k], "远程桌面"@)),
{
    first_such_is_the_first(titles, |t: Seq<char>| is_mstsc_title(t));
    if 0 <= i < titles.len() {
        if (has_substring(titles[i], "远程桌面连接"@) || has_substring(titles[i], "Remote Desktop Connection"@)
            || has_substring(titles[i], "远程桌面"@)) {
            assert((|t: Seq<char>| is_mstsc_title(t))(titles[i]));
        }
    }
    if !(first_such(titles, |t: Seq<char>| is_mstsc_title(t)) is None) {
        let j = first_such(titles, |t: Seq<char>| is_mstsc_title(t))->0;
        assert((|t: Seq<char>| is_mstsc_title(t))(titles[j]));
    }
}

/// A button reading exactly "连接", "连接(N)" or "Connect" (any ASCII case),
/// once "&" marks are dropped, is always preferred over one that only
/// mentions connecting ("连接", or "connect" in any ASCII case); the first
/// such is clicked, and none only when no button qualifies either way.
pub proof fn exact_connect_button_is_preferred(texts: Seq<Seq<char>>)
    ensures
        (exists|i: int| 0 <= i < texts.len() && reads_connect(#[trigger] texts[i])) ==> {
            &&& connect_button(texts) matches Some(j)
            &&& 0 <= j < texts.len()
            &&& reads_connect(texts[j])
            &&& forall|k: int| 0 <= k < j ==> !reads_connect(#[trigger] texts[k])
        },
        (forall|i: int| 0 <= i < texts.len() ==> !reads_connect(#[trigger] texts[i])) ==> match connect_button(texts) {
            Some(j) => {
                &&& 0 <= j < texts.len()
                &&& has_substring(texts[j], "连接"@) || has_substring(ascii_lowercase(texts[j]), "connect"@)
                &&& forall|k: int| 0 <= k < j ==> !(has_substring(#[trigger] texts[k], "连接"@)
                    || has_substring(ascii_lowercase(texts[k]), "connect"@))
            },
            None => forall|k: int| 0 <= k < texts.len() ==> !(has_substring(#[trigger] texts[k], "连接"@)
                || has_substring(ascii_lowercase(texts[k]), "connect"@)),
        },
{
    first_such_is_the_first(texts, |t: Seq<char>| is_exact_connect(t));
    first_such_is_the_first(texts, |t: Seq<char>| mentions_connect(t));
    assert forall|t: Seq<char>| #[trigger] reads_connect(t) == is_exact_connect(t) by {
        reads_connect_is_exact(t);
    }
    if exists|i: int| 0 <= i < texts.len() && reads_connect(#[trigger] texts[i]) {
        let i = choose|i: int| 0 <= i < texts.len() && reads_connect(#[trigger] texts[i]);
        assert((|t: Seq<char>| is_exact_connect(t))(texts[i]));
    }
    if let Some(j) = connect_button(texts) {
        if first_such(texts, |t: Seq<char>| is_exact_connect(t)) is Some {
            assert((|t: Seq<char>| is_exact_connect(t))(texts[j]));
            assert forall|k: int| 0 <= k < j implies !reads_connect(#[trigger] texts[k]) by {
                assert(!(|t: Seq<char>| is_exact_connect(t))(texts[k]));
            }
        }
    }
}

proof fn reads_connect_is_exact(t: Seq<char>)
    ensures
        reads_connect(t) == is_exact_connect(t),
{
}

/// The text of a button that reads exactly "Connect", "&" marks dropped.
pub open spec fn reads_connect(text: Seq<char>) -> bool {
    without_char(text, '&') == "连接"@ || without_char(text, '&') == "连接(N)"@
        || without_char(text, '&') == "Connect"@
        || ascii_lowercase(without_char(text, '&')) == ascii_lowercase("connect"@)
}

} // verus!
