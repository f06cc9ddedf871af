//! Sangfor VDI client automation: launch or focus the client, type the
//! username and password into its login dialog, click "登录" (log in). The
//! window handling is the caller's; this module decides which window,
//! fields and button to act on, what each step reports, and when to retry.

use vstd::prelude::*;
use crate::commands::dialog::{first_such, strings_model, RetryStep, retry_model, retry_step, TypingPlan, KeyStroke, plan_typing, strokes_typing, drain_budget};
use crate::mcp::tools::flow_model;
use crate::text::{has_substring, occurs_at, str_contains, str_eq, trim, trimmed, utf16_lossy, before_nul, wide_to_text, utf16_encode};

verus! {

/// Outcome of launching or focusing the client.
#[derive(Debug, PartialEq)]
pub struct LaunchResult {
    /// True if a new process was spawned; false if an existing one was focused.
    pub launched: bool,
    /// Human-readable status (locale-neutral English; the UI translates).
    pub message: String,
}

/// Where the Sangfor client is installed.
pub const SANGFOR_EXE_PATH: &'static str = "C:\\Program Files (x86)\\Sangfor\\VDI\\SangforCSClient\\SangforCSClient.exe";

/// Executable name of the Sangfor client.
pub const SANGFOR_PROCESS_NAME: &'static str = "SangforCSClient.exe";

/// The error every Sangfor command gives off Windows.
pub const UNSUPPORTED: &'static str = "Sangfor client automation is only supported on Windows";

/// The error when no login dialog is open.
pub const WINDOW_NOT_FOUND: &'static str = "Sangfor login window not found — is the client open?";

/// The error when the current tab shows no username field.
pub const NO_USERNAME_FIELD: &'static str = "Could not locate a visible username Edit on the current tab";

/// The error when the current tab shows no password field.
pub const NO_PASSWORD_FIELD: &'static str = "Could not locate a visible password Edit on the current tab";

/// The error when no login button is visible.
pub const NO_LOGIN_BUTTON: &'static str = "Could not locate a visible \"登录\" button on the current tab";

/// Attempts at typing the credentials before giving up.
pub const MAX_ATTEMPTS: u32 = 120;

/// Pause between two attempts, in milliseconds.
pub const DELAY_MS: u64 = 500;

/// Pause between typing the credentials and clicking the button, in
/// milliseconds.
pub const SETTLE_BEFORE_CLICK_MS: u64 = 250;

/// Wait budget for typed text to arrive, before the per-unit part.
pub const DRAIN_BASE_MS: u64 = 100;

/// Style bit of a password edit field (`ES_PASSWORD`).
pub const ES_PASSWORD: i32 = 0x0020;

/// Style bit of a read-only edit field (`ES_READONLY`).
pub const ES_READONLY: i32 = 0x0800;

/// Errors after which the dialog may simply not be ready yet.
pub open spec fn is_transient(err: Seq<char>) -> bool {
    has_substring(err, "login window not found"@) || has_substring(err, "Expected at least"@)
        || has_substring(err, "Could not locate a visible"@)
}

/// Whether `err` says the dialog is not ready yet, so that the attempt is
/// worth repeating.
pub fn is_transient_sangfor_error(err: &str) -> (r: bool)
    ensures
        r == is_transient(err@),
{
    str_contains(err, "login window not found") || str_contains(err, "Expected at least")
        || str_contains(err, "Could not locate a visible")
}

/// The text of a NUL-terminated UTF-16 buffer (a process or window name).
pub fn wide_to_string(wide: &[u16]) -> (s: String)
    ensures
        s@ == utf16_lossy(before_nul(wide@)),
{
    wide_to_text(wide)
}

/// What the launch step found or did.
#[derive(Debug, PartialEq)]
pub enum LaunchEvent {
    /// The client runs and its window was brought to the front.
    FocusedExisting,
    /// The client runs but shows no window yet.
    RunningWithoutWindow,
    /// The client does not run and is not installed where expected.
    ExecutableMissing,
    /// The client was started, or starting it failed with this error.
    Spawned(Result<(), String>),
}

/// What the launch step reports for `event`: (launched, message), or the
/// error.
pub open spec fn launch_model(event: LaunchEvent) -> Result<(bool, Seq<char>), Seq<char>> {
    match event {
        LaunchEvent::FocusedExisting => Ok((false, "Focused existing Sangfor client window"@)),
        LaunchEvent::RunningWithoutWindow => Ok((false, "Sangfor client already running (no window yet)"@)),
        LaunchEvent::ExecutableMissing => Err("Sangfor client not found at "@ + SANGFOR_EXE_PATH@),
        LaunchEvent::Spawned(Ok(())) => Ok((true, "Launched Sangfor client"@)),
        LaunchEvent::Spawned(Err(e)) => Err("Failed to launch Sangfor client: "@ + e@),
    }
}

/// The report of the launch step.
pub fn launch_outcome(event: LaunchEvent) -> (r: Result<LaunchResult, String>)
    ensures
        match r {
            Ok(l) => launch_model(event) == Ok::<(bool, Seq<char>), Seq<char>>((l.launched, l.message@)),
            Err(e) => launch_model(event) == Err::<(bool, Seq<char>), Seq<char>>(e@),
        },
{
    match event {
        LaunchEvent::FocusedExisting => Ok(LaunchResult {
            launched: false,
            message: "Focused existing Sangfor client window".to_string(),
        }),
        LaunchEvent::RunningWithoutWindow => Ok(LaunchResult {
            launched: false,
            message: "Sangfor client already running (no window yet)".to_string(),
        }),
        LaunchEvent::ExecutableMissing => {
            let mut m = "Sangfor client not found at ".to_string();
            m.append(SANGFOR_EXE_PATH);
            Err(m)
        },
        LaunchEvent::Spawned(Ok(())) => Ok(LaunchResult { launched: true, message: "Launched Sangfor client".to_string() }),
        LaunchEvent::Spawned(Err(e)) => {
            let mut m = "Failed to launch Sangfor client: ".to_string();
            m.append(e.as_str());
            Err(m)
        },
    }
}

/// A dialog title that names the Sangfor client.
pub open spec fn is_sangfor_title(title: Seq<char>) -> bool {
    has_substring(title, "接入客户端"@) || has_substring(title, "SANGFOR"@) || has_substring(title, "深信服"@)
        || has_substring(title, "aDesk"@)
}

/// The login dialog among the visible dialogs: the first whose title names
/// the client, else the first dialog at all.
pub open spec fn login_window(titles: Seq<Seq<char>>) -> Option<int> {
    match first_such(titles, |t: Seq<char>| is_sangfor_title(t)) {
        Some(i) => Some(i),
        None => if titles.len() > 0 {
            Some(0)
        } else {
            None
        },
    }
}

/// Picks the login dialog among the visible dialogs, given their titles.
pub fn select_login_window(titles: &Vec<String>) -> (r: Option<usize>)
    ensures
        match r {
            Some(i) => login_window(strings_model(titles@)) == Some(i as int),
            None => login_window(strings_model(titles@)) is None,
        },
{
    let ghost ts = strings_model(titles@);
    let ghost p = |t: Seq<char>| is_sangfor_title(t);
    let n = titles.len();
    let mut i: usize = 0;
    while i < n
        invariant
            n == titles@.len(),
            ts == strings_model(titles@),
            p == (|t: Seq<char>| is_sangfor_title(t)),
            i <= n,
            forall|k: int| 0 <= k < i ==> !p(ts[k]),
        decreases n - i,
    {
        let t = titles[i].as_str();
        if str_contains(t, "接入客户端") || str_contains(t, "SANGFOR") || str_contains(t, "深信服") || str_contains(t, "aDesk") {
            proof {
                assert(p(ts[i as int]));
                let w = choose|x: int| 0 <= x < ts.len() && p(ts[x]) && forall|k: int| 0 <= k < x ==> !p(ts[k]);
                assert(w == i as int) by {
                    if w < i {
                    } else if w > i {
                    }
                }
            }
            return Some(i);
        }
        assert(!p(ts[i as int]));
        i = i + 1;
    }
    assert(first_such(ts, p) is None);
    if n > 0 {
        Some(0)
    } else {
        None
    }
}

/// What the login dialog shows of one edit field.
#[derive(Debug, Clone, Copy, PartialEq)]
pub struct EditInfo {
    pub visible: bool,
    pub readonly: bool,
    pub password: bool,
    pub width: i32,
    pub height: i32,
}

/// Reads an edit field's style bits and window rectangle (left, top,
/// right, bottom; `None` where it could not be had, taken as 0 × 0).
pub fn edit_info(style: i32, visible: bool, rect: Option<(i32, i32, i32, i32)>) -> (e: EditInfo)
    requires
        rect matches Some(r) ==> i32::MIN <= r.2 - r.0 <= i32::MAX && i32::MIN <= r.3 - r.1 <= i32::MAX,
    ensures
        e.visible == visible,
        e.readonly == (style & ES_READONLY != 0),
        e.password == (style & ES_PASSWORD != 0),
        match rect {
            Some(r) => e.width == r.2 - r.0 && e.height == r.3 - r.1,
            None => e.width == 0 && e.height == 0,
        },
{
    let (width, height) = match rect {
        Some((left, top, right, bottom)) => (right - left, bottom - top),
        None => (0, 0),
    };
    EditInfo { visible, readonly: (style & ES_READONLY) != 0, password: (style & ES_PASSWORD) != 0, width, height }
}

/// An edit field of the current tab that takes input: visible, writable,
/// and at least 80 × 18 pixels. (Every tab's fields coexist in the dialog;
/// only the current tab's are visible.)
pub open spec fn is_input_field(e: EditInfo) -> bool {
    e.visible && !e.readonly && e.height >= 18 && e.width >= 80
}

/// Index of the first field satisfying `p`.
pub open spec fn first_field(fields: Seq<EditInfo>, p: spec_fn(EditInfo) -> bool) -> Option<int> {
    if exists|i: int| 0 <= i < fields.len() && p(fields[i]) {
        Some(choose|i: int| 0 <= i < fields.len() && p(fields[i]) && forall|k: int| 0 <= k < i ==> !p(fields[k]))
    } else {
        None
    }
}

/// The username field: the first input field that is not a password field.
pub open spec fn is_username_field(e: EditInfo) -> bool {
    is_input_field(e) && !e.password
}

/// The password field: the first input field that is a password field.
pub open spec fn is_password_field(e: EditInfo) -> bool {
    is_input_field(e) && e.password
}

fn first_field_exec(fields: &Vec<EditInfo>, password: bool) -> (r: Option<usize>)
    ensures
        password ==> match r {
            Some(i) => first_field(fields@, |e: EditInfo| is_password_field(e)) == Some(i as int),
            None => first_field(fields@, |e: EditInfo| is_password_field(e)) is None,
        },
        !password ==> match r {
            Some(i) => first_field(fields@, |e: EditInfo| is_username_field(e)) == Some(i as int),
            None => first_field(fields@, |e: EditInfo| is_username_field(e)) is None,
        },
{
    let ghost p = if password {
        |e: EditInfo| is_password_field(e)
    } else {
        |e: EditInfo| is_username_field(e)
    };
    let n = fields.len();
    let mut i: usize = 0;
    while i < n
        invariant
            n == fields@.len(),
            password ==> p == (|e: EditInfo| is_password_field(e)),
            !password ==> p == (|e: EditInfo| is_username_field(e)),
            i <= n,
            forall|k: int| 0 <= k < i ==> !p(fields@[k]),
        decreases n - i,
    {
        let e = &fields[i];
        if e.visible && !e.readonly && e.height >= 18 && e.width >= 80 && e.password == password {
            proof {
                assert(p(fields@[i as int]));
                let w = choose|x: int| 0 <= x < fields@.len() && p(fields@[x]) && forall|k: int| 0 <= k < x ==> !p(fields@[k]);
                assert(w == i as int) by {
                    if w < i {
                    } else if w > i {
                    }
                }
            }
            return Some(i);
        }
        assert(!p(fields@[i as int]));
        i = i + 1;
    }
    None
}

/// Picks the username and password fields among the dialog's edit fields
/// (indices into `fields`), or the error naming the one that is missing.
pub fn select_credential_fields(fields: &Vec<EditInfo>) -> (r: Result<(usize, usize), String>)
    ensures
        match r {
            Ok((u, p)) => first_field(fields@, |e: EditInfo| is_username_field(e)) == Some(u as int)
                && first_field(fields@, |e: EditInfo| is_password_field(e)) == Some(p as int),
            Err(msg) => {
                ||| first_field(fields@, |e: EditInfo| is_username_field(e)) is None && msg@ == NO_USERNAME_FIELD@
                ||| first_field(fields@, |e: EditInfo| is_username_field(e)) is Some
                    && first_field(fields@, |e: EditInfo| is_password_field(e)) is None
                    && msg@ == NO_PASSWORD_FIELD@
            },
        },
{
    let username = match first_field_exec(fields, false) {
        Some(u) => u,
        None => return Err(NO_USERNAME_FIELD.to_string()),
    };
    let password = match first_field_exec(fields, true) {
        Some(p) => p,
        None => return Err(NO_PASSWORD_FIELD.to_string()),
    };
    Ok((username, password))
}

/// Plans typing `text` into a field: nothing to type when it is empty,
/// else its code units, key events and a wait budget of 100 ms plus 10 ms
/// per unit.
pub fn plan_field_typing(text: &str) -> (r: Option<TypingPlan>)
    requires
        utf16_encode(text@).len() * 10 + DRAIN_BASE_MS <= u64::MAX,
    ensures
        r is None <==> utf16_encode(text@).len() == 0,
        r matches Some(p) ==> p.units@ == utf16_encode(text@)
            && p.strokes@.map_values(|s: KeyStroke| (s.code_unit, s.key_up)) == strokes_typing(p.units@)
            && p.drain_budget_ms == drain_budget(DRAIN_BASE_MS, p.units@.len()),
{
    let plan = plan_typing(text, DRAIN_BASE_MS);
    if plan.units.len() == 0 {
        return None;
    }
    Some(plan)
}

/// Extra pause after typing into a password field, which never reports
/// its length: 100 ms plus 8 ms per code unit.
pub fn password_settle_ms(units: usize) -> (ms: u64)
    requires
        units * 8 + 100 <= u64::MAX,
    ensures
        ms == 100 + units * 8,
{
    100 + (units as u64) * 8
}

/// A button text that is exactly "登录" (log in), surrounding white space
/// aside.
pub open spec fn is_exact_login(text: Seq<char>) -> bool {
    trimmed(text) == "登录"@
}

/// A button text that mentions logging in but not auto-login ("自动登录").
pub open spec fn mentions_login(text: Seq<char>) -> bool {
    has_substring(text, "登录"@) && !has_substring(text, "自动"@)
}

/// The login button among the visible buttons, given their texts: the
/// first that reads exactly "登录", else the first that mentions logging
/// in without "自动".
pub open spec fn login_button(texts: Seq<Seq<char>>) -> Option<int> {
    match first_such(texts, |t: Seq<char>| is_exact_login(t)) {
        Some(i) => Some(i),
        None => first_such(texts, |t: Seq<char>| mentions_login(t)),
    }
}

fn exact_login(t: &str) -> (r: bool)
    ensures
        r == is_exact_login(t@),
{
    let s = trim(t);
    str_eq(s.as_str(), "登录")
}

fn loose_login(t: &str) -> (r: bool)
    ensures
        r == mentions_login(t@),
{
    str_contains(t, "登录") && !str_contains(t, "自动")
}

/// Picks the login button among the visible buttons, given their texts.
pub fn select_login_button(texts: &Vec<String>) -> (r: Option<usize>)
    ensures
        match r {
            Some(i) => login_button(strings_model(texts@)) == Some(i as int),
            None => login_button(strings_model(texts@)) is None,
        },
{
    let ghost ts = strings_model(texts@);
    let ghost p = |t: Seq<char>| is_exact_login(t);
    let ghost q = |t: Seq<char>| mentions_login(t);
    let n = texts.len();
    let mut i: usize = 0;
    while i < n
        invariant
            n == texts@.len(),
            ts == strings_model(texts@),
            p == (|t: Seq<char>| is_exact_login(t)),
            i <= n,
            forall|k: int| 0 <= k < i ==> !p(ts[k]),
        decreases n - i,
    {
        if exact_login(texts[i].as_str()) {
            proof {
                assert(p(ts[i as int]));
                let w = choose|x: int| 0 <= x < ts.len() && p(ts[x]) && forall|k: int| 0 <= k < x ==> !p(ts[k]);
                assert(w == i as int) by {
                    if w < i {
                    } else if w > i {
                    }
                }
            }
            return Some(i);
        }
        assert(!p(ts[i as int]));
        i = i + 1;
    }
    assert(first_such(ts, p) is None);
    let mut j: usize = 0;
    while j < n
        invariant
            n == texts@.len(),
            ts == strings_model(texts@),
            q == (|t: Seq<char>| mentions_login(t)),
            p == (|t: Seq<char>| is_exact_login(t)),
            first_such(ts, p) is None,
            j <= n,
            forall|k: int| 0 <= k < j ==> !q(ts[k]),
        decreases n - j,
    {
        if loose_login(texts[j].as_str()) {
            proof {
                assert(q(ts[j as int]));
                let w = choose|x: int| 0 <= x < ts.len() && q(ts[x]) && forall|k: int| 0 <= k < x ==> !q(ts[k]);
                assert(w == j as int) by {
                    if w < j {
                    } else if w > j {
                    }
                }
            }
            return Some(j);
        }
        assert(!q(ts[j as int]));
        j = j + 1;
    }
    None
}

/// What follows attempt number `attempt` at typing the credentials.
pub fn after_inject_attempt(attempt: u32, outcome: Result<(), String>) -> (r: RetryStep)
    ensures
        r@ == retry_model(
            attempt,
            MAX_ATTEMPTS,
            DELAY_MS,
            flow_model(outcome),
            match outcome {
                Ok(()) => false,
                Err(e) => is_transient(e@),
            },
        ),
{
    let transient = match &outcome {
        Ok(()) => false,
        Err(e) => is_transient_sangfor_error(e.as_str()),
    };
    retry_step(attempt, MAX_ATTEMPTS, DELAY_MS, outcome, transient)
}


/// The errors of a login dialog that is not open or whose current tab does
/// not show its fields or button yet are retried.
pub proof fn unready_dialog_errors_are_transient()
    ensures
        is_transient(WINDOW_NOT_FOUND@),
        is_transient(NO_USERNAME_FIELD@),
        is_transient(NO_PASSWORD_FIELD@),
        is_transient(NO_LOGIN_BUTTON@),
{
    reveal_strlit("Sangfor login window not found — is the client open?");
    reveal_strlit("login window not found");
    reveal_strlit("Could not locate a visible username Edit on the current tab");
    reveal_strlit("Could not locate a visible password Edit on the current tab");
    reveal_strlit("Could not locate a visible \"登录\" button on the current tab");
    reveal_strlit("Could not locate a visible");
    assert(occurs_at(WINDOW_NOT_FOUND@, "login window not found"@, 8)) by {
        assert(WINDOW_NOT_FOUND@.subrange(8, 30) =~= "login window not found"@);
    }
    assert(occurs_at(NO_USERNAME_FIELD@, "Could not locate a visible"@, 0)) by {
        assert(NO_USERNAME_FIELD@.subrange(0, 26) =~= "Could not locate a visible"@);
    }
    assert(occurs_at(NO_PASSWORD_FIELD@, "Could not locate a visible"@, 0)) by {
        assert(NO_PASSWORD_FIELD@.subrange(0, 26) =~= "Could not locate a visible"@);
    }
    assert(occurs_at(NO_LOGIN_BUTTON@, "Could not locate a visible"@, 0)) by {
        assert(NO_LOGIN_BUTTON@.subrange(0, 26) =~= "Could not locate a visible"@);
    }
}

/// The "自动登录" (auto-login) check box is never taken for the login
/// button by the loose rule.
pub proof fn auto_login_is_not_the_login_button()
    ensures
        !mentions_login("自动登录"@),
{
    reveal_strlit("自动登录");
    reveal_strlit("自动");
    assert(occurs_at("自动登录"@, "自动"@, 0)) by {
        assert("自动登录"@.subrange(0, 2) =~= "自动"@);
    }
}


/// The launch step reports `launched` exactly when it spawned a new
/// process: focusing a running client, or finding it without a window,
/// reports `false`; a successful spawn reports `true`; a failed spawn is an
/// error.
pub proof fn launched_means_spawned(event: LaunchEvent)
    ensures
        launch_model(event) matches Ok((launched, _)) ==> (launched <==> event matches LaunchEvent::Spawned(Ok(()))),
        event matches LaunchEvent::Spawned(Ok(())) ==> launch_model(event) matches Ok((true, _)),
        event is FocusedExisting ==> launch_model(event) matches Ok((false, _)),
        event is RunningWithoutWindow ==> launch_model(event) matches Ok((false, _)),
        event matches LaunchEvent::Spawned(Err(_)) ==> launch_model(event) is Err,
{
}


/// A button reading exactly "登录" (surrounding white space aside) is
/// always preferred: whenever one is visible, the first such is clicked.
/// Only when none is does the first button that mentions "登录" without
/// "自动" get clicked, and none when no button does.
pub proof fn exact_login_button_is_preferred(texts: Seq<Seq<char>>)
    ensures
        (exists|i: int| 0 <= i < texts.len() && trimmed(#[trigger] texts[i]) == "登录"@) ==> {
            &&& login_button(texts) matches Some(j)
            &&& 0 <= j < texts.len()
            &&& trimmed(texts[j]) == "登录"@
            &&& forall|k: int| 0 <= k < j ==> trimmed(#[trigger] texts[k]) != "登录"@
        },
        (forall|i: int| 0 <= i < texts.len() ==> trimmed(#[trigger] texts[i]) != "登录"@) ==> match login_button(texts) {
            Some(j) => {
                &&& 0 <= j < texts.len()
                &&& has_substring(texts[j], "登录"@) && !has_substring(texts[j], "自动"@)
                &&& forall|k: int|
                    0 <= k < j ==> !(has_substring(#[trigger] texts[k], "登录"@) && !has_substring(texts[k], "自动"@))
            },
            None => forall|k: int|
                0 <= k < texts.len() ==> !(has_substring(#[trigger] texts[k], "登录"@) && !has_substring(texts[k], "自动"@)),
        },
{
    crate::commands::dialog::first_such_is_the_first(texts, |t: Seq<char>| is_exact_login(t));
    crate::commands::dialog::first_such_is_the_first(texts, |t: Seq<char>| mentions_login(t));
    if exists|i: int| 0 <= i < texts.len() && trimmed(#[trigger] texts[i]) == "登录"@ {
        let i = choose|i: int| 0 <= i < texts.len() && trimmed(#[trigger] texts[i]) == "登录"@;
        assert((|t: Seq<char>| is_exact_login(t))(texts[i]));
    }
}

/// The login dialog is the first visible dialog whose title names the
/// client ("接入客户端", "SANGFOR", "深信服" or "aDesk"); when no title
/// does, the first dialog; none only when there is no dialog.
pub proof fn login_window_by_title(titles: Seq<Seq<char>>)
    ensures
        login_window(titles) is None <==> titles.len() == 0,
        (exists|i: int| 0 <= i < titles.len() && (has_substring(#[trigger] titles[i], "接入客户端"@)
            || has_substring(titles[i], "SANGFOR"@) || has_substring(titles[i], "深信服"@)
            || has_substring(titles[i], "aDesk"@))) ==> {
            &&& login_window(titles) matches Some(j)
            &&& 0 <= j < titles.len()
            &&& has_substring(titles[j], "接入客户端"@) || has_substring(titles[j], "SANGFOR"@)
                || has_substring(titles[j], "深信服"@) || has_substring(titles[j], "aDesk"@)
            &&& forall|k: int| 0 <= k < j ==> !(has_substring(#[trigger] titles[k], "接入客户端"@)
                || has_substring(titles[k], "SANGFOR"@) || has_substring(titles[k], "深信服"@)
                || has_substring(titles[k], "aDesk"@))
        },
        (forall|i: int| 0 <= i < titles.len() ==> !(has_substring(#[trigger] titles[i], "接入客户端"@)
            || has_substring(titles[i], "SANGFOR"@) || has_substring(titles[i], "深信服"@)
            || has_substring(titles[i], "aDesk"@))) && titles.len() > 0 ==> login_window(titles) == Some(0int),
{
    crate::commands::dialog::first_such_is_the_first(titles, |t: Seq<char>| is_sangfor_title(t));
    if exists|i: int| 0 <= i < titles.len() && (has_substring(#[trigger] titles[i], "接入客户端"@)
        || has_substring(titles[i], "SANGFOR"@) || has_substring(titles[i], "深信服"@)
        || has_substring(titles[i], "aDesk"@)) {
        let i = choose|i: int| 0 <= i < titles.len() && (has_substring(#[trigger] titles[i], "接入客户端"@)
            || has_substring(titles[i], "SANGFOR"@) || has_substring(titles[i], "深信服"@)
            || has_substring(titles[i], "aDesk"@));
        assert((|t: Seq<char>| is_sangfor_title(t))(titles[i]));
    }
}


/// The username field is the first edit field that is visible, writable,
/// at least 80 × 18 and not a password field; the password field the first
/// such field that is a password field. A missing username field is
/// reported before a missing password field.
pub proof fn credential_fields_are_the_first_usable(fields: Seq<EditInfo>)
    ensures
        match first_field(fields, |e: EditInfo| is_username_field(e)) {
            Some(u) => {
                &&& 0 <= u < fields.len()
                &&& fields[u].visible && !fields[u].readonly && fields[u].height >= 18 && fields[u].width >= 80
                &&& !fields[u].password
                &&& forall|k: int| 0 <= k < u ==> !(#[trigger] fields[k].visible && !fields[k].readonly
                    && fields[k].height >= 18 && fields[k].width >= 80 && !fields[k].password)
            },
            None => forall|k: int| 0 <= k < fields.len() ==> !(#[trigger] fields[k].visible && !fields[k].readonly
                && fields[k].height >= 18 && fields[k].width >= 80 && !fields[k].password),
        },
        match first_field(fields, |e: EditInfo| is_password_field(e)) {
            Some(p) => {
                &&& 0 <= p < fields.len()
                &&& fields[p].visible && !fields[p].readonly && fields[p].height >= 18 && fields[p].width >= 80
                &&& fields[p].password
                &&& forall|k: int| 0 <= k < p ==> !(#[trigger] fields[k].visible && !fields[k].readonly
                    && fields[k].height >= 18 && fields[k].width >= 80 && fields[k].password)
            },
            None => forall|k: int| 0 <= k < fields.len() ==> !(#[trigger] fields[k].visible && !fields[k].readonly
                && fields[k].height >= 18 && fields[k].width >= 80 && fields[k].password),
        },
{
    first_field_is_the_first(fields, |e: EditInfo| is_username_field(e));
    first_field_is_the_first(fields, |e: EditInfo| is_password_field(e));
}

proof fn first_field_is_the_first(fields: Seq<EditInfo>, p: spec_fn(EditInfo) -> bool)
    ensures
        match first_field(fields, p) {
            Some(i) => 0 <= i < fields.len() && p(fields[i]) && forall|k: int| 0 <= k < i ==> !p(#[trigger] fields[k]),
            None => forall|k: int| 0 <= k < fields.len() ==> !p(#[trigger] fields[k]),
        },
{
    if exists|i: int| 0 <= i < fields.len() && p(fields[i]) {
        let i0 = choose|i: int| 0 <= i < fields.len() && p(fields[i]);
        least_field(fields, p, i0);
    }
}

proof fn least_field(fields: Seq<EditInfo>, p: spec_fn(EditInfo) -> bool, i: int)
    requires
        0 <= i < fields.len(),
        p(fields[i]),
    ensures
        exists|j: int| 0 <= j < fields.len() && p(fields[j]) && forall|k: int| 0 <= k < j ==> !p(fields[k]),
    decreases i,
{
    if exists|k: int| 0 <= k < i && p(fields[k]) {
        let k = choose|k: int| 0 <= k < i && p(fields[k]);
        least_field(fields, p, k);
    } else {
        assert(forall|k: int| 0 <= k < i ==> !p(fields[k]));
    }
}

} // verus!
