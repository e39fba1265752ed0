//! The guardrail executor: classify each action by risk, decide between
//! executing now, queuing for human confirmation, or blocking; map concrete
//! actions to device commands; and record every decision in an append-only
//! log.  The device driver itself is an external collaborator: this module
//! decides and hands back the command to run.

use vstd::prelude::*;
use crate::util::{
    str_chars, chars_to_string, str_eq, seq_contains, contains_sub, upper_seq, to_upper_chars,
    i64_to_string, u64_to_string, dec_int, dec_digits, spec_replace, replace_chars,
};
use crate::json::{obj_field, str_content, int_content, jv_get, jv_as_str, jv_as_i64, jv_clone};
use crate::brain::{AgentAction, ActionView, action_view};
use crate::clock::{new_action_id, now_rfc3339};

verus! {

// ── Data types ──────────────────────────────────────────────────────────────

/// A high-risk action awaiting human approval.
pub struct PendingConfirmation {
    pub action_id: String,
    pub action: AgentAction,
    pub timestamp: String,
    /// Unset until decided; decided exactly once.
    pub confirmed: Option<bool>,
}

/// A generic instruction forwarded to the companion channel.
pub struct DeviceAction {
    pub id: String,
    pub action_type: String,
    pub params: Option<serde_json::Value>,
}

/// One immutable record of an execution decision.
pub struct ActionLogEntry {
    pub timestamp: String,
    pub action_type: String,
    pub classification: String,
    pub result: String,
}

/// A concrete device command, for the driver to run.
pub enum DeviceCommand {
    /// One device shell invocation, as its argument list.
    Adb(Vec<String>),
    /// Two device invocations in order (capture, then pull).
    Adb2(Vec<String>, Vec<String>),
    /// Wait this many milliseconds.
    Sleep(u64),
    /// Surface this text to the human.
    Notify(String),
    /// Forward an unrecognized action to the companion channel.
    Forward(DeviceAction),
}

/// What the executor decided for one action.
pub enum ExecutionPlan {
    /// Queued for confirmation under this identifier.
    Pending(String),
    /// Unknown classification: blocked, never executed.
    Blocked,
    /// Dry-run mode: logged as simulated, driver untouched.
    Simulated(String),
    /// Execute this command now via the device driver.
    Run(DeviceCommand),
}

/// The outcome of a confirmation call.
pub enum ConfirmOutcome {
    /// Approved: run this command via the device driver.
    Approved(DeviceCommand),
    /// Denied: nothing runs.
    Denied,
}

// ── Views ───────────────────────────────────────────────────────────────────

/// The mathematical content of a pending confirmation.
pub ghost struct PendView {
    pub action_id: Seq<char>,
    pub action: ActionView,
    pub timestamp: Seq<char>,
    pub confirmed: Option<bool>,
}

/// The view of a concrete pending confirmation.
pub open spec fn pend_view(p: PendingConfirmation) -> PendView {
    PendView {
        action_id: p.action_id@,
        action: action_view(p.action),
        timestamp: p.timestamp@,
        confirmed: p.confirmed,
    }
}

/// The views of a pending list.
pub open spec fn pv_seq(s: Seq<PendingConfirmation>) -> Seq<PendView> {
    s.map_values(|p: PendingConfirmation| pend_view(p))
}

/// The mathematical content of a log entry.
pub ghost struct LogView {
    pub timestamp: Seq<char>,
    pub action_type: Seq<char>,
    pub classification: Seq<char>,
    pub result: Seq<char>,
}

/// The view of a concrete log entry.
pub open spec fn log_view(e: ActionLogEntry) -> LogView {
    LogView {
        timestamp: e.timestamp@,
        action_type: e.action_type@,
        classification: e.classification@,
        result: e.result@,
    }
}

/// The views of a log.
pub open spec fn lv_seq(s: Seq<ActionLogEntry>) -> Seq<LogView> {
    s.map_values(|e: ActionLogEntry| log_view(e))
}

/// The mathematical content of an outgoing companion entry.
pub open spec fn out_view(d: DeviceAction) -> (Seq<char>, Seq<char>, Option<serde_json::Value>) {
    (d.id@, d.action_type@, d.params)
}

/// The views of the outgoing queue.
pub open spec fn ov_seq(s: Seq<DeviceAction>) -> Seq<
    (Seq<char>, Seq<char>, Option<serde_json::Value>),
> {
    s.map_values(|d: DeviceAction| out_view(d))
}

/// The log grew by exactly one entry of the given content; the entry's
/// timestamp is the clock's and is not constrained.
pub open spec fn log_appended(
    pre: Seq<LogView>,
    post: Seq<LogView>,
    ty: Seq<char>,
    cls: Seq<char>,
    result: Seq<char>,
) -> bool {
    &&& post.len() == pre.len() + 1
    &&& post.subrange(0, pre.len() as int) == pre
    &&& post.last().action_type == ty
    &&& post.last().classification == cls
    &&& post.last().result == result
}

/// The outgoing queue after dispatching a command: grown by exactly the
/// forwarded action when the command forwards, unchanged otherwise.
pub open spec fn outgoing_after(
    pre: Seq<(Seq<char>, Seq<char>, Option<serde_json::Value>)>,
    post: Seq<(Seq<char>, Seq<char>, Option<serde_json::Value>)>,
    av: ActionView,
    id: Seq<char>,
) -> bool {
    match spec_device_command(av, id) {
        CmdView::VForward(fid, fty, fp) => post == pre.push((id, av.action_type, av.params)),
        _ => post == pre,
    }
}

/// The first pending entry under an identifier.
pub open spec fn find_pending(s: Seq<PendView>, id: Seq<char>) -> Option<int>
    decreases s.len(),
{
    if s.len() == 0 {
        None
    } else if s[0].action_id == id {
        Some(0)
    } else {
        match find_pending(s.drop_first(), id) {
            Some(i) => Some(i + 1),
            None => None,
        }
    }
}

// ── Classification ──────────────────────────────────────────────────────────

/// Whether the action's package parameter matches a restricted-app entry by
/// substring.
pub open spec fn restricted_pkg(restricted: Seq<Seq<char>>, params: Option<serde_json::Value>)
    -> bool {
    match params {
        None => false,
        Some(v) => match obj_field(v, "package"@) {
            None => false,
            Some(f) => match str_content(f) {
                None => false,
                Some(pkg) => exists|i: int|
                    0 <= i < restricted.len() && seq_contains(pkg, #[trigger] restricted[i]),
            },
        },
    }
}

/// The effective risk tier: the declared one, upper-cased, forced to RED when
/// the action touches a restricted app.  This override cannot be bypassed by
/// the model.
pub open spec fn spec_effective_class(restricted: Seq<Seq<char>>, a: ActionView) -> Seq<char> {
    if restricted_pkg(restricted, a.params) {
        "RED"@
    } else {
        upper_seq(a.classification)
    }
}

// ── Device dispatch ─────────────────────────────────────────────────────────

/// An integer parameter with a default.
pub open spec fn spec_param_int(params: Option<serde_json::Value>, key: Seq<char>, dflt: int)
    -> int {
    match params {
        None => dflt,
        Some(v) => match obj_field(v, key) {
            None => dflt,
            Some(f) => match int_content(f) {
                Some(n) => n,
                None => dflt,
            },
        },
    }
}

/// A non-negative integer parameter with a default.
pub open spec fn spec_param_u64(params: Option<serde_json::Value>, key: Seq<char>, dflt: int)
    -> int {
    match params {
        None => dflt,
        Some(v) => match obj_field(v, key) {
            None => dflt,
            Some(f) => match int_content(f) {
                Some(n) => if 0 <= n {
                    n
                } else {
                    dflt
                },
                None => dflt,
            },
        },
    }
}

/// A string parameter with a default.
pub open spec fn spec_param_str(params: Option<serde_json::Value>, key: Seq<char>, dflt: Seq<char>)
    -> Seq<char> {
    match params {
        None => dflt,
        Some(v) => match obj_field(v, key) {
            None => dflt,
            Some(f) => match str_content(f) {
                Some(s) => s,
                None => dflt,
            },
        },
    }
}

/// A string parameter read from either of two keys.
pub open spec fn spec_param_str2(
    params: Option<serde_json::Value>,
    key1: Seq<char>,
    key2: Seq<char>,
    dflt: Seq<char>,
) -> Seq<char> {
    match params {
        None => dflt,
        Some(v) => match obj_field(v, key1) {
            Some(f) => match str_content(f) {
                Some(s) => s,
                None => dflt,
            },
            None => match obj_field(v, key2) {
                Some(f) => match str_content(f) {
                    Some(s) => s,
                    None => dflt,
                },
                None => dflt,
            },
        },
    }
}

/// An integer parameter read from either of two keys, with a default.
pub open spec fn spec_param_u64_2(
    params: Option<serde_json::Value>,
    key1: Seq<char>,
    key2: Seq<char>,
    dflt: int,
) -> int {
    match params {
        None => dflt,
        Some(v) => match obj_field(v, key1) {
            Some(f) => match int_content(f) {
                Some(n) => if 0 <= n {
                    n
                } else {
                    dflt
                },
                None => dflt,
            },
            None => match obj_field(v, key2) {
                Some(f) => match int_content(f) {
                    Some(n) => if 0 <= n {
                        n
                    } else {
                        dflt
                    },
                    None => dflt,
                },
                None => dflt,
            },
        },
    }
}

/// The shell escaping applied to typed text: backslashes doubled, spaces
/// turned into the input tool's space token, and shell metacharacters
/// escaped.
pub open spec fn spec_escape_text(s: Seq<char>) -> Seq<char> {
    let e1 = spec_replace(s, seq!['\\'], "\\\\"@);
    let e2 = spec_replace(e1, seq![' '], "%s"@);
    let e3 = spec_replace(e2, seq!['&'], "\\&"@);
    let e4 = spec_replace(e3, seq!['<'], "\\<"@);
    let e5 = spec_replace(e4, seq!['>'], "\\>"@);
    let e6 = spec_replace(e5, seq!['|'], "\\|"@);
    let e7 = spec_replace(e6, seq![';'], "\\;"@);
    let e8 = spec_replace(e7, seq!['('], "\\("@);
    let e9 = spec_replace(e8, seq![')'], "\\)"@);
    let e10 = spec_replace(e9, seq!['\''], "\\'"@);
    let e11 = spec_replace(e10, seq!['"'], "\\\""@);
    let e12 = spec_replace(e11, seq!['$'], "\\$"@);
    spec_replace(e12, seq!['`'], "\\`"@)
}

/// The mathematical content of a device command.
pub ghost enum CmdView {
    VAdb(Seq<Seq<char>>),
    VAdb2(Seq<Seq<char>>, Seq<Seq<char>>),
    VSleep(u64),
    VNotify(Seq<char>),
    VForward(Seq<char>, Seq<char>, Option<serde_json::Value>),
}

/// The view of a concrete device command.
pub open spec fn cmd_view(c: DeviceCommand) -> CmdView {
    match c {
        DeviceCommand::Adb(args) => CmdView::VAdb(args@.map_values(|s: String| s@)),
        DeviceCommand::Adb2(a, b) => CmdView::VAdb2(a@.map_values(|s: String| s@),
            b@.map_values(|s: String| s@)),
        DeviceCommand::Sleep(ms) => CmdView::VSleep(ms),
        DeviceCommand::Notify(m) => CmdView::VNotify(m@),
        DeviceCommand::Forward(da) => CmdView::VForward(da.id@, da.action_type@, da.params),
    }
}

/// The device command an action maps to — each recognized action type becomes
/// exactly one driver call; anything else is forwarded verbatim.
pub open spec fn spec_device_command(a: ActionView, id: Seq<char>) -> CmdView {
    let p = a.params;
    if a.action_type == "tap"@ {
        CmdView::VAdb(seq!["shell"@, "input"@, "tap"@, dec_int(spec_param_int(p, "x"@, 0)),
            dec_int(spec_param_int(p, "y"@, 0))])
    } else if a.action_type == "long_press"@ {
        let x = dec_int(spec_param_int(p, "x"@, 0));
        let y = dec_int(spec_param_int(p, "y"@, 0));
        CmdView::VAdb(seq!["shell"@, "input"@, "swipe"@, x, y, x, y, dec_int(
            spec_param_u64(p, "ms"@, 1000))])
    } else if a.action_type == "swipe"@ {
        CmdView::VAdb(seq!["shell"@, "input"@, "swipe"@, dec_int(spec_param_int(p, "x1"@, 0)),
            dec_int(spec_param_int(p, "y1"@, 0)), dec_int(spec_param_int(p, "x2"@, 0)), dec_int(
            spec_param_int(p, "y2"@, 0)), dec_int(spec_param_u64_2(p, "ms"@, "duration_ms"@,
            300))])
    } else if a.action_type == "type_text"@ {
        let t = spec_param_str(p, "text"@, Seq::empty());
        if t.len() == 0 {
            CmdView::VNotify("type_text: empty text, skipped"@)
        } else {
            CmdView::VAdb(seq!["shell"@, "input"@, "text"@, spec_escape_text(t)])
        }
    } else if a.action_type == "press_key"@ {
        CmdView::VAdb(seq!["shell"@, "input"@, "keyevent"@, spec_param_str(p, "key"@,
            "KEYCODE_HOME"@)])
    } else if a.action_type == "launch_app"@ {
        CmdView::VAdb(seq!["shell"@, "monkey"@, "-p"@, spec_param_str(p, "package"@, Seq::empty()),
            "-c"@, "android.intent.category.LAUNCHER"@, "1"@])
    } else if a.action_type == "home"@ || a.action_type == "go_home"@ {
        CmdView::VAdb(seq!["shell"@, "input"@, "keyevent"@, "KEYCODE_HOME"@])
    } else if a.action_type == "back"@ || a.action_type == "go_back"@ {
        CmdView::VAdb(seq!["shell"@, "input"@, "keyevent"@, "KEYCODE_BACK"@])
    } else if a.action_type == "recents"@ {
        CmdView::VAdb(seq!["shell"@, "input"@, "keyevent"@, "KEYCODE_APP_SWITCH"@])
    } else if a.action_type == "open_notifications"@ {
        CmdView::VAdb(seq!["shell"@, "cmd"@, "statusbar"@, "expand-notifications"@])
    } else if a.action_type == "scroll_down"@ {
        CmdView::VAdb(seq!["shell"@, "input"@, "swipe"@, "540"@, "1500"@, "540"@, "500"@, "300"@])
    } else if a.action_type == "scroll_up"@ {
        CmdView::VAdb(seq!["shell"@, "input"@, "swipe"@, "540"@, "500"@, "540"@, "1500"@, "300"@])
    } else if a.action_type == "wait"@ {
        CmdView::VSleep(spec_param_u64(p, "ms"@, 1000) as u64)
    } else if a.action_type == "screenshot"@ {
        CmdView::VAdb2(seq!["shell"@, "screencap"@, "-p"@, "/sdcard/hermitdroid_screenshot.png"@],
            seq!["pull"@, "/sdcard/hermitdroid_screenshot.png"@,
            "/tmp/hermitdroid_screenshot.png"@])
    } else if a.action_type == "notify_user"@ {
        CmdView::VNotify(spec_param_str2(p, "text"@, "message"@, Seq::empty()))
    } else {
        CmdView::VForward(id, a.action_type, a.params)
    }
}


/// Read an integer parameter with a default.
fn param_i64(params: &Option<serde_json::Value>, key: &str, dflt: i64) -> (r: i64)
    ensures
        r as int == spec_param_int(*params, key@, dflt as int),
{
    match params {
        None => dflt,
        Some(v) => match jv_get(v, key) {
            None => dflt,
            Some(f) => match jv_as_i64(f) {
                Some(n) => n,
                None => dflt,
            },
        },
    }
}

/// Read a non-negative integer parameter with a default.
fn param_u64(params: &Option<serde_json::Value>, key: &str, dflt: u64) -> (r: u64)
    requires
        dflt < 0x8000000000000000,
    ensures
        r as int == spec_param_u64(*params, key@, dflt as int),
{
    match params {
        None => dflt,
        Some(v) => match jv_get(v, key) {
            None => dflt,
            Some(f) => match jv_as_i64(f) {
                Some(n) => if n >= 0 {
                    n as u64
                } else {
                    dflt
                },
                None => dflt,
            },
        },
    }
}

/// Read a string parameter with a default.
fn param_str(params: &Option<serde_json::Value>, key: &str, dflt: String) -> (r: String)
    ensures
        r@ == spec_param_str(*params, key@, dflt@),
{
    match params {
        None => dflt,
        Some(v) => match jv_get(v, key) {
            None => dflt,
            Some(f) => match jv_as_str(f) {
                Some(st) => st,
                None => dflt,
            },
        },
    }
}

/// Escape typed text for the device input tool; see `spec_escape_text`.
pub fn escape_type_text(s: &str) -> (r: String)
    ensures
        r@ == spec_escape_text(s@),
{
    let v = str_chars(s);
    proof {
        reveal_strlit("\\\\");
        reveal_strlit("%s");
        reveal_strlit("\\&");
        reveal_strlit("\\<");
        reveal_strlit("\\>");
        reveal_strlit("\\|");
        reveal_strlit("\\;");
        reveal_strlit("\\(");
        reveal_strlit("\\)");
        reveal_strlit("\\'");
        reveal_strlit("\\\"");
        reveal_strlit("\\$");
        reveal_strlit("\\`");
    }
    let e1 = replace_one_char(&v, '\\', "\\\\");
    let e2 = replace_one_char(&e1, ' ', "%s");
    let e3 = replace_one_char(&e2, '&', "\\&");
    let e4 = replace_one_char(&e3, '<', "\\<");
    let e5 = replace_one_char(&e4, '>', "\\>");
    let e6 = replace_one_char(&e5, '|', "\\|");
    let e7 = replace_one_char(&e6, ';', "\\;");
    let e8 = replace_one_char(&e7, '(', "\\(");
    let e9 = replace_one_char(&e8, ')', "\\)");
    let e10 = replace_one_char(&e9, '\'', "\\'");
    let e11 = replace_one_char(&e10, '"', "\\\"");
    let e12 = replace_one_char(&e11, '$', "\\$");
    let e13 = replace_one_char(&e12, '`', "\\`");
    chars_to_string(&e13)
}

/// Replace one character by a literal replacement everywhere.
fn replace_one_char(s: &Vec<char>, pat: char, rep: &str) -> (r: Vec<char>)
    ensures
        r@ == spec_replace(s@, seq![pat], rep@),
{
    let mut pv: Vec<char> = Vec::new();
    pv.push(pat);
    proof {
        assert(pv@ =~= seq![pat]);
    }
    let rv = str_chars(rep);
    replace_chars(s, &pv, &rv)
}

/// Push the string of a literal onto an argument list.
fn push_arg(args: &mut Vec<String>, piece: &str)
    ensures
        final(args)@.map_values(|x: String| x@) == old(args)@.map_values(|x: String| x@).push(
            piece@,
        ),
{
    let ghost before = args@.map_values(|x: String| x@);
    args.push(piece.to_owned());
    proof {
        assert(args@.map_values(|x: String| x@) =~= before.push(piece@));
    }
}

/// Push an owned string onto an argument list.
fn push_arg_owned(args: &mut Vec<String>, piece: String)
    ensures
        final(args)@.map_values(|x: String| x@) == old(args)@.map_values(|x: String| x@).push(
            piece@,
        ),
{
    let ghost before = args@.map_values(|x: String| x@);
    let ghost pv = piece@;
    args.push(piece);
    proof {
        assert(args@.map_values(|x: String| x@) =~= before.push(pv));
    }
}

/// Map an action to its device command; see `spec_device_command`.
#[verifier::rlimit(100)]
#[verifier::spinoff_prover]
pub fn device_command(action: &AgentAction, id: &str) -> (c: DeviceCommand)
    ensures
        cmd_view(c) == spec_device_command(action_view(*action), id@),
{
    let ghost av = action_view(*action);
    let t = action.action_type.as_str();
    let p = &action.params;
    if str_eq(t, "tap") {
        let mut args: Vec<String> = Vec::new();
        proof {
            assert(args@.map_values(|x: String| x@) =~= Seq::<Seq<char>>::empty());
        }
        push_arg(&mut args, "shell");
        push_arg(&mut args, "input");
        push_arg(&mut args, "tap");
        push_arg_owned(&mut args, i64_to_string(param_i64(p, "x", 0)));
        push_arg_owned(&mut args, i64_to_string(param_i64(p, "y", 0)));
        proof {
            assert(args@.map_values(|x: String| x@) =~= seq!["shell"@, "input"@, "tap"@, dec_int(
                spec_param_int(av.params, "x"@, 0)), dec_int(spec_param_int(av.params, "y"@, 0))]);
        }
        DeviceCommand::Adb(args)
    } else if str_eq(t, "long_press") {
        let x = i64_to_string(param_i64(p, "x", 0));
        let y = i64_to_string(param_i64(p, "y", 0));
        let ms = u64_to_string(param_u64(p, "ms", 1000));
        proof {
            assert(dec_digits(spec_param_u64(av.params, "ms"@, 1000)) == dec_int(
                spec_param_u64(av.params, "ms"@, 1000)));
        }
        let mut args: Vec<String> = Vec::new();
        proof {
            assert(args@.map_values(|v2: String| v2@) =~= Seq::<Seq<char>>::empty());
        }
        push_arg(&mut args, "shell");
        push_arg(&mut args, "input");
        push_arg(&mut args, "swipe");
        push_arg_owned(&mut args, x.clone());
        push_arg_owned(&mut args, y.clone());
        push_arg_owned(&mut args, x);
        push_arg_owned(&mut args, y);
        push_arg_owned(&mut args, ms);
        proof {
            let gx = dec_int(spec_param_int(av.params, "x"@, 0));
            let gy = dec_int(spec_param_int(av.params, "y"@, 0));
            assert(args@.map_values(|v2: String| v2@) =~= seq!["shell"@, "input"@, "swipe"@, gx,
                gy, gx, gy, dec_int(spec_param_u64(av.params, "ms"@, 1000))]);
        }
        DeviceCommand::Adb(args)
    } else if str_eq(t, "swipe") {
        let ms: u64 = match p {
            None => 300,
            Some(v) => match jv_get(v, "ms") {
                Some(f) => match jv_as_i64(f) {
                    Some(n) => if n >= 0 {
                        n as u64
                    } else {
                        300
                    },
                    None => 300,
                },
                None => match jv_get(v, "duration_ms") {
                    Some(f) => match jv_as_i64(f) {
                        Some(n) => if n >= 0 {
                            n as u64
                        } else {
                            300
                        },
                        None => 300,
                    },
                    None => 300,
                },
            },
        };
        proof {
            assert(ms as int == spec_param_u64_2(av.params, "ms"@, "duration_ms"@, 300));
            assert(dec_digits(ms as int) == dec_int(ms as int));
        }
        let mut args: Vec<String> = Vec::new();
        proof {
            assert(args@.map_values(|v2: String| v2@) =~= Seq::<Seq<char>>::empty());
        }
        push_arg(&mut args, "shell");
        push_arg(&mut args, "input");
        push_arg(&mut args, "swipe");
        push_arg_owned(&mut args, i64_to_string(param_i64(p, "x1", 0)));
        push_arg_owned(&mut args, i64_to_string(param_i64(p, "y1", 0)));
        push_arg_owned(&mut args, i64_to_string(param_i64(p, "x2", 0)));
        push_arg_owned(&mut args, i64_to_string(param_i64(p, "y2", 0)));
        push_arg_owned(&mut args, u64_to_string(ms));
        proof {
            assert(args@.map_values(|v2: String| v2@) =~= seq!["shell"@, "input"@, "swipe"@,
                dec_int(spec_param_int(av.params, "x1"@, 0)), dec_int(spec_param_int(
                av.params, "y1"@, 0)), dec_int(spec_param_int(av.params, "x2"@, 0)), dec_int(
                spec_param_int(av.params, "y2"@, 0)), dec_int(spec_param_u64_2(av.params, "ms"@,
                "duration_ms"@, 300))]);
        }
        DeviceCommand::Adb(args)
    } else if str_eq(t, "type_text") {
        let empty = String::new();
        proof {
            assert(empty@ =~= Seq::<char>::empty());
        }
        let text = param_str(p, "text", empty);
        if text.as_str().is_empty() {
            DeviceCommand::Notify("type_text: empty text, skipped".to_owned())
        } else {
            let escaped = escape_type_text(text.as_str());
            let mut args: Vec<String> = Vec::new();
            proof {
                assert(args@.map_values(|v2: String| v2@) =~= Seq::<Seq<char>>::empty());
            }
            push_arg(&mut args, "shell");
            push_arg(&mut args, "input");
            push_arg(&mut args, "text");
            push_arg_owned(&mut args, escaped);
            proof {
                assert(args@.map_values(|v2: String| v2@) =~= seq!["shell"@, "input"@, "text"@,
                    spec_escape_text(spec_param_str(av.params, "text"@, Seq::empty()))]);
            }
            DeviceCommand::Adb(args)
        }
    } else if str_eq(t, "press_key") {
        let key = param_str(p, "key", "KEYCODE_HOME".to_owned());
        let mut args: Vec<String> = Vec::new();
        proof {
            assert(args@.map_values(|v2: String| v2@) =~= Seq::<Seq<char>>::empty());
        }
        push_arg(&mut args, "shell");
        push_arg(&mut args, "input");
        push_arg(&mut args, "keyevent");
        push_arg_owned(&mut args, key);
        proof {
            assert(args@.map_values(|v2: String| v2@) =~= seq!["shell"@, "input"@, "keyevent"@,
                spec_param_str(av.params, "key"@, "KEYCODE_HOME"@)]);
        }
        DeviceCommand::Adb(args)
    } else if str_eq(t, "launch_app") {
        let empty = String::new();
        proof {
            assert(empty@ =~= Seq::<char>::empty());
        }
        let pkg = param_str(p, "package", empty);
        let mut args: Vec<String> = Vec::new();
        proof {
            assert(args@.map_values(|v2: String| v2@) =~= Seq::<Seq<char>>::empty());
        }
        push_arg(&mut args, "shell");
        push_arg(&mut args, "monkey");
        push_arg(&mut args, "-p");
        push_arg_owned(&mut args, pkg);
        push_arg(&mut args, "-c");
        push_arg(&mut args, "android.intent.category.LAUNCHER");
        push_arg(&mut args, "1");
        proof {
            assert(args@.map_values(|v2: String| v2@) =~= seq!["shell"@, "monkey"@, "-p"@,
                spec_param_str(av.params, "package"@, Seq::empty()), "-c"@,
                "android.intent.category.LAUNCHER"@, "1"@]);
        }
        DeviceCommand::Adb(args)
    } else if str_eq(t, "home") || str_eq(t, "go_home") {
        DeviceCommand::Adb(key_event_args("KEYCODE_HOME"))
    } else if str_eq(t, "back") || str_eq(t, "go_back") {
        DeviceCommand::Adb(key_event_args("KEYCODE_BACK"))
    } else if str_eq(t, "recents") {
        DeviceCommand::Adb(key_event_args("KEYCODE_APP_SWITCH"))
    } else if str_eq(t, "open_notifications") {
        let mut args: Vec<String> = Vec::new();
        proof {
            assert(args@.map_values(|v2: String| v2@) =~= Seq::<Seq<char>>::empty());
        }
        push_arg(&mut args, "shell");
        push_arg(&mut args, "cmd");
        push_arg(&mut args, "statusbar");
        push_arg(&mut args, "expand-notifications");
        proof {
            assert(args@.map_values(|v2: String| v2@) =~= seq!["shell"@, "cmd"@, "statusbar"@,
                "expand-notifications"@]);
        }
        DeviceCommand::Adb(args)
    } else if str_eq(t, "scroll_down") {
        DeviceCommand::Adb(scroll_args("1500", "500"))
    } else if str_eq(t, "scroll_up") {
        DeviceCommand::Adb(scroll_args("500", "1500"))
    } else if str_eq(t, "wait") {
        let ms = param_u64(p, "ms", 1000);
        DeviceCommand::Sleep(ms)
    } else if str_eq(t, "screenshot") {
        let mut a1: Vec<String> = Vec::new();
        proof {
            assert(a1@.map_values(|v2: String| v2@) =~= Seq::<Seq<char>>::empty());
        }
        push_arg(&mut a1, "shell");
        push_arg(&mut a1, "screencap");
        push_arg(&mut a1, "-p");
        push_arg(&mut a1, "/sdcard/hermitdroid_screenshot.png");
        let mut a2: Vec<String> = Vec::new();
        proof {
            assert(a2@.map_values(|v2: String| v2@) =~= Seq::<Seq<char>>::empty());
        }
        push_arg(&mut a2, "pull");
        push_arg(&mut a2, "/sdcard/hermitdroid_screenshot.png");
        push_arg(&mut a2, "/tmp/hermitdroid_screenshot.png");
        proof {
            assert(a1@.map_values(|v2: String| v2@) =~= seq!["shell"@, "screencap"@, "-p"@,
                "/sdcard/hermitdroid_screenshot.png"@]);
            assert(a2@.map_values(|v2: String| v2@) =~= seq!["pull"@,
                "/sdcard/hermitdroid_screenshot.png"@, "/tmp/hermitdroid_screenshot.png"@]);
        }
        DeviceCommand::Adb2(a1, a2)
    } else if str_eq(t, "notify_user") {
        let msg: String = match p {
            None => {
                let e = String::new();
                proof {
                    assert(e@ =~= Seq::<char>::empty());
                }
                e
            },
            Some(v) => match jv_get(v, "text") {
                Some(f) => match jv_as_str(f) {
                    Some(st) => st,
                    None => {
                        let e = String::new();
                        proof {
                            assert(e@ =~= Seq::<char>::empty());
                        }
                        e
                    },
                },
                None => match jv_get(v, "message") {
                    Some(f) => match jv_as_str(f) {
                        Some(st) => st,
                        None => {
                            let e = String::new();
                            proof {
                                assert(e@ =~= Seq::<char>::empty());
                            }
                            e
                        },
                    },
                    None => {
                        let e = String::new();
                        proof {
                            assert(e@ =~= Seq::<char>::empty());
                        }
                        e
                    },
                },
            },
        };
        DeviceCommand::Notify(msg)
    } else {
        let da = DeviceAction {
            id: id.to_owned(),
            action_type: action.action_type.clone(),
            params: match p {
                Some(v) => Some(jv_clone(v)),
                None => None,
            },
        };
        DeviceCommand::Forward(da)
    }
}

/// The argument list of a key event.
fn key_event_args(key: &str) -> (r: Vec<String>)
    ensures
        r@.map_values(|v2: String| v2@) == seq!["shell"@, "input"@, "keyevent"@, key@],
{
    let mut args: Vec<String> = Vec::new();
    proof {
        assert(args@.map_values(|v2: String| v2@) =~= Seq::<Seq<char>>::empty());
    }
    push_arg(&mut args, "shell");
    push_arg(&mut args, "input");
    push_arg(&mut args, "keyevent");
    push_arg(&mut args, key);
    proof {
        assert(args@.map_values(|v2: String| v2@) =~= seq!["shell"@, "input"@, "keyevent"@, key@]);
    }
    args
}

/// The argument list of a vertical scroll swipe.
fn scroll_args(y1: &str, y2: &str) -> (r: Vec<String>)
    ensures
        r@.map_values(|v2: String| v2@) == seq!["shell"@, "input"@, "swipe"@, "540"@, y1@, "540"@,
            y2@, "300"@],
{
    let mut args: Vec<String> = Vec::new();
    proof {
        assert(args@.map_values(|v2: String| v2@) =~= Seq::<Seq<char>>::empty());
    }
    push_arg(&mut args, "shell");
    push_arg(&mut args, "input");
    push_arg(&mut args, "swipe");
    push_arg(&mut args, "540");
    push_arg(&mut args, y1);
    push_arg(&mut args, "540");
    push_arg(&mut args, y2);
    push_arg(&mut args, "300");
    proof {
        assert(args@.map_values(|v2: String| v2@) =~= seq!["shell"@, "input"@, "swipe"@, "540"@,
            y1@, "540"@, y2@, "300"@]);
    }
    args
}


// ── The executor ────────────────────────────────────────────────────────────

/// What one execute decision does, for an action with view `av` under the
/// identifier `id` and timestamp `ts`: a restricted-app action — or any
/// high-risk one without auto-confirmation — is queued and logged as
/// pending; a runnable action is handed to the driver as its exact device
/// command (or logged as simulated in dry-run mode); an unknown tier is
/// blocked and logged; every decision appends one log entry except an
/// immediate run, whose driver result is recorded afterwards.
pub open spec fn execute_step(
    pre: ActionExecutor,
    post: ActionExecutor,
    av: ActionView,
    r: ExecutionPlan,
    id: Seq<char>,
    ts: Seq<char>,
) -> bool {
    let rv = pre.spec_restricted();
    let cls = spec_effective_class(rv, av);
    let restricted = restricted_pkg(rv, av.params);
    let queued = pre.spec_pending().push(
        PendView { action_id: id, action: av, timestamp: ts, confirmed: None },
    );
    let queue_case = restricted || (cls == "RED"@ && !pre.spec_auto_confirm());
    let auto_red = cls == "RED"@ && !restricted && pre.spec_auto_confirm();
    let runnable = cls == "YELLOW"@ || cls == "GREEN"@ || auto_red;
    let unknown = cls != "RED"@ && cls != "YELLOW"@ && cls != "GREEN"@;
    &&& post.spec_restricted() == rv
    &&& post.spec_dry_run() == pre.spec_dry_run()
    &&& post.spec_auto_confirm() == pre.spec_auto_confirm()
    &&& queue_case ==> (r matches ExecutionPlan::Pending(p) && p@ == id && post.spec_pending()
        == queued && log_appended(pre.spec_log(), post.spec_log(), av.action_type, cls,
        "PENDING:"@ + id) && post.spec_outgoing() == pre.spec_outgoing())
    &&& (runnable && !queue_case && !pre.spec_dry_run()) ==> (r matches ExecutionPlan::Run(c)
        && cmd_view(c) == spec_device_command(av, id) && post.spec_pending()
        == pre.spec_pending() && post.spec_log() == pre.spec_log() && outgoing_after(
        pre.spec_outgoing(), post.spec_outgoing(), av, id))
    &&& (runnable && !queue_case && pre.spec_dry_run()) ==> (r matches ExecutionPlan::Simulated(m)
        && log_appended(pre.spec_log(), post.spec_log(), av.action_type, cls, "DRY_RUN"@)
        && post.spec_pending() == pre.spec_pending() && post.spec_outgoing()
        == pre.spec_outgoing())
    &&& unknown ==> (r matches ExecutionPlan::Blocked && post.spec_pending()
        == pre.spec_pending() && post.spec_outgoing() == pre.spec_outgoing() && log_appended(
        pre.spec_log(), post.spec_log(), av.action_type, cls, "BLOCKED"@))
}

/// Decides, per action, between executing now, queuing for confirmation, and
/// blocking; holds the pending list, the outgoing companion queue and the
/// append-only action log.
pub struct ActionExecutor {
    dry_run: bool,
    adb_device: Option<String>,
    restricted_apps: Vec<String>,
    /// Whether high-risk actions run without a human step (an operator
    /// choice; restricted apps always queue regardless).
    auto_confirm_red: bool,
    pending: Vec<PendingConfirmation>,
    outgoing: Vec<DeviceAction>,
    action_log: Vec<ActionLogEntry>,
}

impl ActionExecutor {
    /// The restricted-app entries, as character sequences.
    pub closed spec fn spec_restricted(&self) -> Seq<Seq<char>> {
        self.restricted_apps@.map_values(|s: String| s@)
    }

    /// The pending-confirmation list.
    pub closed spec fn spec_pending(&self) -> Seq<PendView> {
        pv_seq(self.pending@)
    }

    /// The outgoing companion queue.
    pub closed spec fn spec_outgoing(&self) -> Seq<
        (Seq<char>, Seq<char>, Option<serde_json::Value>),
    > {
        ov_seq(self.outgoing@)
    }

    /// The action log.
    pub closed spec fn spec_log(&self) -> Seq<LogView> {
        lv_seq(self.action_log@)
    }

    /// Whether dry-run mode is active.
    pub closed spec fn spec_dry_run(&self) -> bool {
        self.dry_run
    }

    /// Whether high-risk actions auto-confirm.
    pub closed spec fn spec_auto_confirm(&self) -> bool {
        self.auto_confirm_red
    }

    /// A fresh executor with empty queues; high-risk actions auto-confirm by
    /// default, as the operator configuration observed.
    pub fn new(dry_run: bool, adb_device: Option<String>, restricted_apps: Vec<String>) -> (r:
        Self)
        ensures
            r.spec_dry_run() == dry_run,
            r.spec_auto_confirm(),
            r.spec_restricted() == restricted_apps@.map_values(|s: String| s@),
            r.spec_pending().len() == 0,
            r.spec_outgoing().len() == 0,
            r.spec_log().len() == 0,
    {
        let r = ActionExecutor {
            dry_run,
            adb_device,
            restricted_apps,
            auto_confirm_red: true,
            pending: Vec::new(),
            outgoing: Vec::new(),
            action_log: Vec::new(),
        };
        proof {
            assert(r.spec_pending() =~= Seq::<PendView>::empty());
            assert(r.spec_log() =~= Seq::<LogView>::empty());
            assert(r.spec_outgoing() =~= Seq::<
                (Seq<char>, Seq<char>, Option<serde_json::Value>),
            >::empty());
        }
        r
    }

    /// Choose whether high-risk actions may run without a human step.  This
    /// trades safety for convenience, so it is an exposed operator option,
    /// not a hidden default; restricted apps always queue regardless of it.
    pub fn set_auto_confirm(&mut self, auto_confirm: bool)
        ensures
            final(self).spec_auto_confirm() == auto_confirm,
            final(self).spec_dry_run() == old(self).spec_dry_run(),
            final(self).spec_restricted() == old(self).spec_restricted(),
            final(self).spec_pending() == old(self).spec_pending(),
            final(self).spec_outgoing() == old(self).spec_outgoing(),
            final(self).spec_log() == old(self).spec_log(),
    {
        self.auto_confirm_red = auto_confirm;
    }

    /// The pending confirmations, for the confirmation interface.
    pub fn pending(&self) -> (r: &Vec<PendingConfirmation>)
        ensures
            pv_seq(r@) == self.spec_pending(),
    {
        &self.pending
    }

    /// The outgoing companion queue.
    pub fn outgoing(&self) -> (r: &Vec<DeviceAction>)
        ensures
            ov_seq(r@) == self.spec_outgoing(),
    {
        &self.outgoing
    }

    /// The append-only action log.
    pub fn action_log(&self) -> (r: &Vec<ActionLogEntry>)
        ensures
            lv_seq(r@) == self.spec_log(),
    {
        &self.action_log
    }

    /// The effective risk tier of an action; see `spec_effective_class`.
    pub fn effective_classification(&self, action: &AgentAction) -> (r: String)
        ensures
            r@ == spec_effective_class(self.spec_restricted(), action_view(*action)),
    {
        if self.is_restricted(action) {
            "RED".to_owned()
        } else {
            let up = to_upper_chars(&str_chars(action.classification.as_str()));
            chars_to_string(&up)
        }
    }

    /// Whether the action's package parameter hits the restricted list.
    #[verifier::loop_isolation(false)]
    fn is_restricted(&self, action: &AgentAction) -> (r: bool)
        ensures
            r == restricted_pkg(self.spec_restricted(), action_view(*action).params),
    {
        let ghost rv = self.spec_restricted();
        match &action.params {
            None => false,
            Some(v) => {
                match jv_get(v, "package") {
                    None => false,
                    Some(f) => {
                        match jv_as_str(f) {
                            None => false,
                            Some(pkg) => {
                                let pkg_chars = str_chars(pkg.as_str());
                                let n = self.restricted_apps.len();
                                let mut i: usize = 0;
                                while i < n
                                    invariant
                                        i <= n,
                                        n == self.restricted_apps@.len(),
                                        rv == self.spec_restricted(),
                                        pkg_chars@ == pkg@,
                                        forall|j: int|
                                            0 <= j < i ==> !seq_contains(pkg@, #[trigger] rv[j]),
                                    decreases n - i,
                                {
                                    let entry = str_chars(self.restricted_apps[i].as_str());
                                    if contains_sub(&pkg_chars, &entry) {
                                        assert(seq_contains(pkg@, rv[i as int]));
                                        return true;
                                    }
                                    i += 1;
                                }
                                false
                            },
                        }
                    },
                }
            },
        }
    }

    /// Decide and dispatch one action at an explicit identifier and
    /// timestamp; see `execute_step` for the exact effect.
    pub fn execute_at(&mut self, action: &AgentAction, id: String, timestamp: String) -> (r:
        ExecutionPlan)
        ensures
            execute_step(*old(self), *final(self), action_view(*action), r, id@, timestamp@),
    {
        proof {
            reveal_strlit("RED");
            reveal_strlit("YELLOW");
            reveal_strlit("GREEN");
            assert("RED"@.len() == 3 && "YELLOW"@.len() == 6 && "GREEN"@.len() == 5);
            assert("RED"@ != "YELLOW"@ && "RED"@ != "GREEN"@ && "YELLOW"@ != "GREEN"@);
        }
        let classification = self.effective_classification(action);
        let restricted = self.is_restricted(action);
        let cls = classification.as_str();
        if restricted || str_eq(cls, "RED") {
            if restricted || !self.auto_confirm_red {
                let ghost before = self.spec_pending();
                let entry = PendingConfirmation {
                    action_id: id.clone(),
                    action: clone_action(action),
                    timestamp,
                    confirmed: None,
                };
                let ghost ev = pend_view(entry);
                self.pending.push(entry);
                proof {
                    assert(self.spec_pending() =~= before.push(ev));
                }
                let mut res = "PENDING:".to_owned();
                res.append(id.as_str());
                self.push_log(action.action_type.clone(), classification, res);
                return ExecutionPlan::Pending(id);
            }
            if self.dry_run {
                return self.log_dry_run(action, classification);
            }
            let cmd = self.build_command(action, id.as_str());
            return ExecutionPlan::Run(cmd);
        }
        if str_eq(cls, "YELLOW") || str_eq(cls, "GREEN") {
            if self.dry_run {
                return self.log_dry_run(action, classification);
            }
            let cmd = self.build_command(action, id.as_str());
            return ExecutionPlan::Run(cmd);
        }
        self.push_log(action.action_type.clone(), classification, "BLOCKED".to_owned());
        ExecutionPlan::Blocked
    }

    /// Decide and dispatch one action, under a fresh eight-character
    /// identifier and the current time: the full `execute_step` effect holds
    /// for the sampled identifier and timestamp, whatever they were.  In
    /// particular a restricted-app action is always queued for confirmation
    /// and nothing is handed to the device driver.
    pub fn execute(&mut self, action: &AgentAction) -> (r: ExecutionPlan)
        ensures
            exists|idv: Seq<char>, ts: Seq<char>|
                idv.len() == 8 && #[trigger] execute_step(*old(self), *final(self),
                    action_view(*action), r, idv, ts),
            restricted_pkg(old(self).spec_restricted(), action_view(*action).params) ==> (r
                matches ExecutionPlan::Pending(p) && final(self).spec_pending().len() == old(
                self,
            ).spec_pending().len() + 1 && final(self).spec_pending().last().action == action_view(
                *action,
            ) && final(self).spec_pending().last().confirmed is None),
    {
        let id = new_action_id();
        let ts = now_rfc3339();
        let ghost idv = id@;
        let ghost tsv = ts@;
        let r = self.execute_at(action, id, ts);
        proof {
            assert(execute_step(*old(self), *self, action_view(*action), r, idv, tsv));
        }
        r
    }

    /// Build the device command, forwarding unknown types to the companion
    /// queue as the dispatch does.
    fn build_command(&mut self, action: &AgentAction, id: &str) -> (c: DeviceCommand)
        ensures
            cmd_view(c) == spec_device_command(action_view(*action), id@),
            outgoing_after(old(self).spec_outgoing(), final(self).spec_outgoing(),
                action_view(*action), id@),
            final(self).spec_pending() == old(self).spec_pending(),
            final(self).spec_log() == old(self).spec_log(),
            final(self).spec_restricted() == old(self).spec_restricted(),
            final(self).spec_dry_run() == old(self).spec_dry_run(),
            final(self).spec_auto_confirm() == old(self).spec_auto_confirm(),
    {
        let cmd = device_command(action, id);
        let forward = match &cmd {
            DeviceCommand::Forward(_) => true,
            _ => false,
        };
        if forward {
            let da = DeviceAction {
                id: id.to_owned(),
                action_type: action.action_type.clone(),
                params: match &action.params {
                    Some(v) => Some(jv_clone(v)),
                    None => None,
                },
            };
            let ghost before = self.spec_outgoing();
            let ghost dv = out_view(da);
            self.outgoing.push(da);
            proof {
                assert(self.spec_outgoing() =~= before.push(dv));
            }
        }
        cmd
    }

    /// Append one immutable log entry; every decision leaves a trace.
    fn push_log(&mut self, action_type: String, classification: String, result: String)
        ensures
            log_appended(old(self).spec_log(), final(self).spec_log(), action_type@,
                classification@, result@),
            final(self).spec_pending() == old(self).spec_pending(),
            final(self).spec_outgoing() == old(self).spec_outgoing(),
            final(self).spec_restricted() == old(self).spec_restricted(),
            final(self).spec_dry_run() == old(self).spec_dry_run(),
            final(self).spec_auto_confirm() == old(self).spec_auto_confirm(),
    {
        let ghost before = self.spec_log();
        let entry = ActionLogEntry {
            timestamp: now_rfc3339(),
            action_type,
            classification,
            result,
        };
        let ghost ev = log_view(entry);
        self.action_log.push(entry);
        proof {
            assert(self.spec_log() =~= before.push(ev));
            assert(self.spec_log().subrange(0, before.len() as int) =~= before);
        }
    }

    /// Log a simulated execution without touching the device driver.
    fn log_dry_run(&mut self, action: &AgentAction, classification: String) -> (r: ExecutionPlan)
        requires
            old(self).spec_dry_run(),
        ensures
            r matches ExecutionPlan::Simulated(m),
            log_appended(old(self).spec_log(), final(self).spec_log(),
                action_view(*action).action_type, classification@, "DRY_RUN"@),
            final(self).spec_pending() == old(self).spec_pending(),
            final(self).spec_outgoing() == old(self).spec_outgoing(),
            final(self).spec_restricted() == old(self).spec_restricted(),
            final(self).spec_dry_run() == old(self).spec_dry_run(),
            final(self).spec_auto_confirm() == old(self).spec_auto_confirm(),
    {
        let mut msg = "[DRY_RUN] ".to_owned();
        msg.append(action.action_type.as_str());
        msg.append(" (");
        msg.append(classification.as_str());
        msg.append(")");
        self.push_log(action.action_type.clone(), classification, "DRY_RUN".to_owned());
        ExecutionPlan::Simulated(msg)
    }

    /// Record the driver's result for an executed action in the append-only
    /// log.
    pub fn record_result(&mut self, action: &AgentAction, classification: &str, result: &str)
        ensures
            final(self).spec_log().len() == old(self).spec_log().len() + 1,
            final(self).spec_log().subrange(0, old(self).spec_log().len() as int) == old(
                self,
            ).spec_log(),
            final(self).spec_log().last().action_type == action.action_type@,
            final(self).spec_log().last().classification == classification@,
            final(self).spec_log().last().result == result@,
            final(self).spec_pending() == old(self).spec_pending(),
            final(self).spec_restricted() == old(self).spec_restricted(),
    {
        let ghost before = self.spec_log();
        let entry = ActionLogEntry {
            timestamp: now_rfc3339(),
            action_type: action.action_type.clone(),
            classification: classification.to_owned(),
            result: result.to_owned(),
        };
        let ghost ev = log_view(entry);
        self.action_log.push(entry);
        proof {
            assert(self.spec_log() =~= before.push(ev));
            assert(self.spec_log().subrange(0, before.len() as int) =~= before);
        }
    }

    /// Decide a pending high-risk action exactly once.  An unknown identifier
    /// fails with no effect; an already-decided entry fails with no effect,
    /// so nothing is ever executed twice; a denial records the decision,
    /// appends one log entry and hands back no command, so the device driver
    /// is never touched; an approval records the decision, appends one log
    /// entry and hands back the stored action's command to run once (the
    /// driver's own result can be recorded afterwards).
    pub fn confirm(&mut self, action_id: &str, approved: bool) -> (r: Result<
        ConfirmOutcome,
        String,
    >)
        ensures
            ({
                let pv = old(self).spec_pending();
                match find_pending(pv, action_id@) {
                    None => r is Err && *final(self) == *old(self),
                    Some(i) => {
                        if pv[i].confirmed is Some {
                            r is Err && *final(self) == *old(self)
                        } else {
                            &&& final(self).spec_pending() == pv.update(i,
                                PendView { confirmed: Some(approved), ..pv[i] })
                            &&& final(self).spec_restricted() == old(self).spec_restricted()
                            &&& final(self).spec_dry_run() == old(self).spec_dry_run()
                            &&& final(self).spec_auto_confirm() == old(self).spec_auto_confirm()
                            &&& !approved ==> (r == Ok::<ConfirmOutcome, String>(
                                ConfirmOutcome::Denied,
                            ) && log_appended(old(self).spec_log(), final(self).spec_log(),
                                pv[i].action.action_type, "RED-DENIED"@, "DENIED"@)
                                && final(self).spec_outgoing() == old(self).spec_outgoing())
                            &&& approved ==> (r matches Ok(o) && o matches
                                ConfirmOutcome::Approved(c) && cmd_view(c) == spec_device_command(
                                pv[i].action, action_id@) && log_appended(old(self).spec_log(),
                                final(self).spec_log(), pv[i].action.action_type,
                                "RED-CONFIRMED"@, "CONFIRMED"@) && outgoing_after(
                                old(self).spec_outgoing(), final(self).spec_outgoing(),
                                pv[i].action, action_id@))
                        }
                    },
                }
            }),
    {
        let ghost pv = old(self).spec_pending();
        let n = self.pending.len();
        let mut i: usize = 0;
        proof {
            assert(pv.skip(0) =~= pv);
            lemma_find_pending_skip(pv, action_id@, 0);
        }
        while i < n
            invariant
                i <= n,
                n == self.pending@.len(),
                *self == *old(self),
                pv == old(self).spec_pending(),
                forall|j: int| 0 <= j < i ==> pv[j].action_id != action_id@,
                match find_pending(pv, action_id@) {
                    Some(k) => i as int <= k,
                    None => true,
                },
            decreases n - i,
        {
            if str_eq(self.pending[i].action_id.as_str(), action_id) {
                proof {
                    lemma_find_pending_first(pv, action_id@, i as int);
                }
                let already = match self.pending[i].confirmed {
                    Some(_) => true,
                    None => false,
                };
                if already {
                    return Err("pending action already decided".to_owned());
                }
                let mut entry = self.pending.remove(i);
                entry.confirmed = Some(approved);
                let ghost ev = pend_view(entry);
                let cmd_action = clone_action(&entry.action);
                self.pending.insert(i, entry);
                proof {
                    assert(self.spec_pending() =~= pv.update(i as int,
                        PendView { confirmed: Some(approved), ..pv[i as int] }));
                }
                if approved {
                    let cmd = self.build_command(&cmd_action, action_id);
                    self.push_log(cmd_action.action_type.clone(), "RED-CONFIRMED".to_owned(),
                        "CONFIRMED".to_owned());
                    return Ok(ConfirmOutcome::Approved(cmd));
                } else {
                    self.push_log(cmd_action.action_type.clone(), "RED-DENIED".to_owned(),
                        "DENIED".to_owned());
                    return Ok(ConfirmOutcome::Denied);
                }
            }
            proof {
                match find_pending(pv, action_id@) {
                    Some(k) => {
                        lemma_find_pending_first(pv, action_id@, k);
                        assert(pv[k].action_id == action_id@);
                    },
                    None => {},
                }
            }
            i += 1;
        }
        proof {
            match find_pending(pv, action_id@) {
                Some(k) => {
                    lemma_find_pending_first(pv, action_id@, k);
                },
                None => {},
            }
        }
        Err("no such pending action".to_owned())
    }
}

/// A found index is the first whose entry bears the identifier.
proof fn lemma_find_pending_first(s: Seq<PendView>, id: Seq<char>, i: int)
    ensures
        find_pending(s, id) matches Some(k) ==> 0 <= k < s.len() && s[k].action_id == id && forall|
            j: int,
        | 0 <= j < k ==> s[j].action_id != id,
        find_pending(s, id) is None ==> forall|j: int| 0 <= j < s.len() ==> s[j].action_id != id,
        (0 <= i < s.len() && s[i].action_id == id && (forall|j: int|
            0 <= j < i ==> s[j].action_id != id)) ==> find_pending(s, id) == Some(i),
    decreases s.len(),
{
    if s.len() > 0 {
        let d = s.drop_first();
        lemma_find_pending_first(d, id, i - 1);
        assert(forall|j: int| 0 <= j < d.len() ==> d[j] == s[j + 1]);
        if s[0].action_id == id {
        } else {
            match find_pending(d, id) {
                Some(k2) => {
                    assert(find_pending(s, id) == Some(k2 + 1));
                    assert forall|j: int| 0 <= j < k2 + 1 implies s[j].action_id != id by {
                        if j > 0 {
                            assert(s[j] == d[j - 1]);
                        }
                    }
                },
                None => {
                    assert forall|j: int| 0 <= j < s.len() implies s[j].action_id != id by {
                        if j > 0 {
                            assert(s[j] == d[j - 1]);
                        }
                    }
                },
            }
            if 0 <= i < s.len() && s[i].action_id == id && (forall|j: int|
                0 <= j < i ==> s[j].action_id != id) {
                assert(i > 0);
                assert(d[i - 1] == s[i]);
                assert forall|j: int| 0 <= j < i - 1 implies d[j].action_id != id by {
                    assert(d[j] == s[j + 1]);
                }
                assert(find_pending(d, id) == Some(i - 1));
                assert(find_pending(s, id) == Some(i));
            }
        }
    }
}

/// Trivial helper to seed the search loop.
proof fn lemma_find_pending_skip(s: Seq<PendView>, id: Seq<char>, i: int)
    ensures
        find_pending(s, id) matches Some(k) ==> k >= 0,
    decreases s.len(),
{
    if s.len() > 0 {
        lemma_find_pending_skip(s.drop_first(), id, i);
    }
}

/// Copy an action field by field (its JSON parameters included).
pub fn clone_action(a: &AgentAction) -> (r: AgentAction)
    ensures
        action_view(r) == action_view(*a),
{
    AgentAction {
        action_type: a.action_type.clone(),
        params: match &a.params {
            Some(v) => Some(jv_clone(v)),
            None => None,
        },
        classification: a.classification.clone(),
        reason: a.reason.clone(),
        x: a.x,
        y: a.y,
        text: match &a.text {
            Some(s2) => Some(s2.clone()),
            None => None,
        },
        app: match &a.app {
            Some(s2) => Some(s2.clone()),
            None => None,
        },
    }
}


// ── Screen-settle decisions ─────────────────────────────────────────────────

/// The poll interval of the bounded screen-settle wait, in milliseconds.
pub const SETTLE_INTERVAL_MS: u64 = 50;

/// The settle budget after an action, in milliseconds: screen-mutating
/// actions wait longest, typing briefly, everything else not at all.
pub open spec fn spec_settle_budget(t: Seq<char>) -> int {
    if t == "launch_app"@ {
        800
    } else if t == "tap"@ {
        200
    } else if t == "type_text"@ {
        150
    } else {
        0
    }
}

/// The settle budget of an action type; see `spec_settle_budget`.
pub fn settle_budget(action_type: &str) -> (r: u64)
    ensures
        r as int == spec_settle_budget(action_type@),
{
    if str_eq(action_type, "launch_app") {
        800
    } else if str_eq(action_type, "tap") {
        200
    } else if str_eq(action_type, "type_text") {
        150
    } else {
        0
    }
}

/// How many polls a settle budget allows: one per interval, at least one, so
/// the wait always returns by the deadline.
pub open spec fn spec_settle_checks(max_ms: u64) -> int {
    if max_ms / SETTLE_INTERVAL_MS as u64 >= 1 {
        (max_ms / SETTLE_INTERVAL_MS as u64) as int
    } else {
        1
    }
}

/// The poll count of a settle budget; see `spec_settle_checks`.
pub fn settle_checks(max_ms: u64) -> (r: u64)
    ensures
        r as int == spec_settle_checks(max_ms),
        r >= 1,
{
    let polls = max_ms / SETTLE_INTERVAL_MS;
    if polls >= 1 {
        polls
    } else {
        1
    }
}

/// Whether the settle wait may end early: exactly when the foreground
/// activity signature changed between two observations.
pub fn settle_changed(before: &str, after: &str) -> (r: bool)
    ensures
        r == (before@ != after@),
{
    !str_eq(before, after)
}

} // verus!
