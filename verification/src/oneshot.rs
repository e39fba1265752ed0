//! One-shot goal runs: the pure decision helpers of the single-goal loop —
//! detecting a finished goal and describing actions for the terminal.  The
//! loop itself, with its device and model calls, is an outer concern.

use vstd::prelude::*;
use crate::brain::{AgentResponse, AgentAction, ActionView, action_view, response_view};
use crate::util::{
    str_chars, str_eq, contains_sub, to_lower_chars, lower_seq, seq_contains, starts_with,
    has_prefix, spec_truncate, truncate, u64_to_string, dec_digits, dec_int, i64_to_string,
};

verus! {

/// Whether any action declares the goal done.
pub open spec fn has_done_action(actions: Seq<ActionView>) -> bool {
    exists|i: int|
        0 <= i < actions.len() && ((#[trigger] actions[i].action_type) == "done"@
            || actions[i].action_type == "DONE"@)
}

/// Whether a reflection text declares the goal done.
pub open spec fn reflection_says_done(r: Seq<char>) -> bool {
    let l = lower_seq(r);
    ||| seq_contains(l, "goal is complete"@)
    ||| seq_contains(l, "goal completed"@)
    ||| seq_contains(l, "task is done"@)
    ||| seq_contains(l, "task complete"@)
    ||| starts_with(l, "done:"@)
    ||| starts_with(l, "done -"@)
}

/// Whether a response means the goal is complete: an explicit done action,
/// or a reflection phrased as done.
pub open spec fn spec_is_done(actions: Seq<ActionView>, reflection: Option<Seq<char>>) -> bool {
    has_done_action(actions) || (match reflection {
        Some(r) => reflection_says_done(r),
        None => false,
    })
}

/// Check whether the model's response indicates the goal is done.
pub fn is_done(response: &AgentResponse) -> (r: bool)
    ensures
        r == spec_is_done(response_view(*response).actions, response_view(*response).reflection),
{
    let ghost views = response_view(*response).actions;
    let n = response.actions.len();
    let mut i: usize = 0;
    while i < n
        invariant
            i <= n,
            n == response.actions@.len(),
            views == response_view(*response).actions,
            forall|j: int|
                0 <= j < i ==> (#[trigger] views[j].action_type) != "done"@
                    && views[j].action_type != "DONE"@,
        decreases n - i,
    {
        if str_eq(response.actions[i].action_type.as_str(), "done") || str_eq(
            response.actions[i].action_type.as_str(),
            "DONE",
        ) {
            assert(views[i as int].action_type == "done"@ || views[i as int].action_type
                == "DONE"@);
            return true;
        }
        i += 1;
    }
    assert(!has_done_action(views));
    match &response.reflection {
        Some(r) => {
            let l = to_lower_chars(&str_chars(r.as_str()));
            contains_sub(&l, &str_chars("goal is complete")) || contains_sub(
                &l,
                &str_chars("goal completed"),
            ) || contains_sub(&l, &str_chars("task is done")) || contains_sub(
                &l,
                &str_chars("task complete"),
            ) || has_prefix(&l, &str_chars("done:")) || has_prefix(&l, &str_chars("done -"))
        },
        None => false,
    }
}

/// The terminal description of an action: the action word with its target,
/// text or rationale, bounded in length.
pub open spec fn spec_action_desc(a: ActionView) -> Seq<char> {
    if a.action_type == "tap"@ {
        match (a.x, a.y) {
            (Some(x), Some(y)) => "tap @("@ + dec_int(x) + ","@ + dec_int(y) + ") "@
                + spec_truncate(a.reason, 50),
            _ => "tap "@ + spec_truncate(a.reason, 60),
        }
    } else if a.action_type == "type_text"@ {
        let t = match a.text {
            Some(t) => t,
            None => a.reason,
        };
        "type \""@ + spec_truncate(t, 40) + "\""@
    } else if a.action_type == "launch_app"@ {
        let app = match a.app {
            Some(p) => p,
            None => a.reason,
        };
        "launch "@ + app
    } else if a.action_type == "swipe"@ {
        "swipe "@ + spec_truncate(a.reason, 50)
    } else if a.action_type == "back"@ {
        "back"@
    } else if a.action_type == "home"@ {
        "home"@
    } else if a.action_type == "long_press"@ {
        match (a.x, a.y) {
            (Some(x), Some(y)) => "long_press @("@ + dec_int(x) + ","@ + dec_int(y) + ") "@
                + spec_truncate(a.reason, 40),
            _ => "long_press "@ + spec_truncate(a.reason, 50),
        }
    } else if a.action_type == "key"@ {
        let key = match a.text {
            Some(t) => t,
            None => a.reason,
        };
        "key "@ + key
    } else if a.action_type == "wait"@ {
        "wait"@
    } else {
        a.action_type + " "@ + spec_truncate(a.reason, 50)
    }
}

/// Format an action for terminal display; see `spec_action_desc`.
#[verifier::rlimit(100)]
#[verifier::spinoff_prover]
pub fn format_action_desc(action: &AgentAction) -> (r: String)
    ensures
        r@ == spec_action_desc(action_view(*action)),
{
    let t = action.action_type.as_str();
    if str_eq(t, "tap") {
        match (&action.x, &action.y) {
            (Some(x), Some(y)) => {
                let mut out = "tap @(".to_owned();
                let xs = i64_to_string(*x as i64);
                out.append(xs.as_str());
                out.append(",");
                let ys = i64_to_string(*y as i64);
                out.append(ys.as_str());
                out.append(") ");
                let re = truncate(action.reason.as_str(), 50);
                out.append(re.as_str());
                out
            },
            _ => {
                let mut out = "tap ".to_owned();
                let re = truncate(action.reason.as_str(), 60);
                out.append(re.as_str());
                out
            },
        }
    } else if str_eq(t, "type_text") {
        let tx: &str = match &action.text {
            Some(s) => s.as_str(),
            None => action.reason.as_str(),
        };
        let mut out = "type \"".to_owned();
        let tv = truncate(tx, 40);
        out.append(tv.as_str());
        out.append("\"");
        out
    } else if str_eq(t, "launch_app") {
        let app: &str = match &action.app {
            Some(s) => s.as_str(),
            None => action.reason.as_str(),
        };
        let mut out = "launch ".to_owned();
        out.append(app);
        out
    } else if str_eq(t, "swipe") {
        let mut out = "swipe ".to_owned();
        let re = truncate(action.reason.as_str(), 50);
        out.append(re.as_str());
        out
    } else if str_eq(t, "back") {
        "back".to_owned()
    } else if str_eq(t, "home") {
        "home".to_owned()
    } else if str_eq(t, "long_press") {
        match (&action.x, &action.y) {
            (Some(x), Some(y)) => {
                let mut out = "long_press @(".to_owned();
                let xs = i64_to_string(*x as i64);
                out.append(xs.as_str());
                out.append(",");
                let ys = i64_to_string(*y as i64);
                out.append(ys.as_str());
                out.append(") ");
                let re = truncate(action.reason.as_str(), 40);
                out.append(re.as_str());
                out
            },
            _ => {
                let mut out = "long_press ".to_owned();
                let re = truncate(action.reason.as_str(), 50);
                out.append(re.as_str());
                out
            },
        }
    } else if str_eq(t, "key") {
        let key: &str = match &action.text {
            Some(s) => s.as_str(),
            None => action.reason.as_str(),
        };
        let mut out = "key ".to_owned();
        out.append(key);
        out
    } else if str_eq(t, "wait") {
        "wait".to_owned()
    } else {
        let mut out = action.action_type.clone();
        out.append(" ");
        let re = truncate(action.reason.as_str(), 50);
        out.append(re.as_str());
        out
    }
}

/// The per-step prompt of a one-shot run: the step counter, the goal, an
/// urgency note once three quarters of the budget is spent, and the current
/// screen.
pub open spec fn spec_step_prompt(
    screen_text: Seq<char>,
    goal: Seq<char>,
    step: u32,
    max_steps: u32,
    time: Seq<char>,
) -> Seq<char> {
    let urgency: Seq<char> = if step > (max_steps as int * 3) / 4 {
        "\nRunning low on steps! Prioritize completing the goal quickly."@
    } else {
        ""@
    };
    "Step "@ + dec_digits(step as int) + "/"@ + dec_digits(max_steps as int) + " | "@ + time
        + "\nGoal: \""@ + goal + "\""@ + urgency + "\n\n=== CURRENT SCREEN ===\n"@ + screen_text
        + "\n\nWhat is your next action to achieve the goal? Respond in the standard action format.\nIf the goal is complete, use action type \"done\"."@
}

/// Build the per-step user prompt with the current screen state.
pub fn build_oneshot_step_prompt(
    screen_text: &str,
    goal: &str,
    step: u32,
    max_steps: u32,
    time: &str,
) -> (r: String)
    ensures
        r@ == spec_step_prompt(screen_text@, goal@, step, max_steps, time@),
{
    let mut out = "Step ".to_owned();
    let sv = u64_to_string(step as u64);
    out.append(sv.as_str());
    out.append("/");
    let mv = u64_to_string(max_steps as u64);
    out.append(mv.as_str());
    out.append(" | ");
    out.append(time);
    out.append("\nGoal: \"");
    out.append(goal);
    out.append("\"");
    let budget: u64 = (max_steps as u64) * 3 / 4;
    if (step as u64) > budget {
        out.append("\nRunning low on steps! Prioritize completing the goal quickly.");
    } else {
        proof {
            reveal_strlit("");
        }
    }
    out.append("\n\n=== CURRENT SCREEN ===\n");
    out.append(screen_text);
    out.append(
        "\n\nWhat is your next action to achieve the goal? Respond in the standard action format.\nIf the goal is complete, use action type \"done\".",
    );
    out
}

} // verus!
