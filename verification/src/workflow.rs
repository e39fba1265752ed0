//! Reusable model-driven workflows: a named sequence of goal steps.  Loading
//! and running them is an outer concern; the library holds the data and the
//! goal-text assembly.

use vstd::prelude::*;
use crate::util::{str_chars, chars_to_string, lower_char};

verus! {

/// A reusable workflow definition.
pub struct Workflow {
    pub name: String,
    pub description: String,
    pub steps: Vec<WorkflowStep>,
}

/// One workflow step: a goal in plain language, an optional app to launch
/// first, optional form data injected into the goal, and an optional step
/// budget.
pub struct WorkflowStep {
    pub app: Option<String>,
    pub goal: String,
    /// Key-value data the goal prompt should mention.
    pub form_data: Vec<(String, String)>,
    pub max_steps: Option<u32>,
}

/// One form-data line of the effective goal.
pub open spec fn spec_form_line(key: Seq<char>, value: Seq<char>) -> Seq<char> {
    "\n  "@ + key + ": "@ + value
}

/// The form-data lines of a step, in order.
pub open spec fn spec_form_lines(data: Seq<(Seq<char>, Seq<char>)>) -> Seq<char>
    decreases data.len(),
{
    if data.len() == 0 {
        Seq::empty()
    } else {
        spec_form_line(data[0].0, data[0].1) + spec_form_lines(data.drop_first())
    }
}

/// The effective goal of a step: the goal text, followed by the context-data
/// block when form data is present.
pub open spec fn spec_effective_goal(goal: Seq<char>, data: Seq<(Seq<char>, Seq<char>)>) -> Seq<
    char,
> {
    if data.len() == 0 {
        goal
    } else {
        goal + "\n\nContext data to use:"@ + spec_form_lines(data)
    }
}

/// Build the effective goal text of a step by injecting its form data.
pub fn build_effective_goal(step: &WorkflowStep) -> (r: String)
    ensures
        r@ == spec_effective_goal(step.goal@,
            step.form_data@.map_values(|e: (String, String)| (e.0@, e.1@))),
{
    let ghost data = step.form_data@.map_values(|e: (String, String)| (e.0@, e.1@));
    let n = step.form_data.len();
    if n == 0 {
        return step.goal.clone();
    }
    proof {
        reveal_strlit("\n\nContext data to use:");
        reveal_strlit("\n  ");
        reveal_strlit(": ");
    }
    let mut out = step.goal.clone();
    out.append("\n\nContext data to use:");
    let ghost base = step.goal@ + "\n\nContext data to use:"@;
    let mut i: usize = 0;
    proof {
        assert(data.skip(0) =~= data);
    }
    while i < n
        invariant
            i <= n,
            n == step.form_data@.len(),
            data == step.form_data@.map_values(|e: (String, String)| (e.0@, e.1@)),
            out@ + spec_form_lines(data.skip(i as int)) == base + spec_form_lines(data),
        decreases n - i,
    {
        let ghost suffix = data.skip(i as int);
        proof {
            assert(suffix[0] == data[i as int]);
            assert(suffix.drop_first() =~= data.skip(i + 1));
        }
        out.append("\n  ");
        out.append(step.form_data[i].0.as_str());
        out.append(": ");
        out.append(step.form_data[i].1.as_str());
        i += 1;
    }
    proof {
        assert(spec_form_lines(data.skip(n as int)) =~= Seq::<char>::empty());
        assert(out@ =~= out@ + Seq::<char>::empty());
    }
    out
}

/// A filename character survives when it is an ASCII letter, digit, hyphen
/// or underscore; anything else becomes a hyphen; the result is lower-cased.
pub open spec fn spec_filename_char(c: char) -> char {
    if ('a' <= c && c <= 'z') || ('A' <= c && c <= 'Z') || ('0' <= c && c <= '9') || c == '-'
        || c == '_' {
        lower_char(c)
    } else {
        '-'
    }
}

/// The sanitized filename of a workflow name.
pub open spec fn spec_sanitize_filename(s: Seq<char>) -> Seq<char> {
    s.map_values(|c: char| spec_filename_char(c))
}

/// Turn a workflow name into a safe lower-case filename.
pub fn sanitize_filename(name: &str) -> (r: String)
    ensures
        r@ == spec_sanitize_filename(name@),
{
    let v = str_chars(name);
    let n = v.len();
    let mut out: Vec<char> = Vec::new();
    let mut i: usize = 0;
    while i < n
        invariant
            i <= n,
            n == v@.len(),
            v@ == name@,
            out@ == spec_sanitize_filename(name@).subrange(0, i as int),
        decreases n - i,
    {
        let c = v[i];
        let keep = (c >= 'a' && c <= 'z') || (c >= 'A' && c <= 'Z') || (c >= '0' && c <= '9') || c
            == '-' || c == '_';
        let mapped: char = if keep {
            if c >= 'A' && c <= 'Z' {
                ((c as u8) + 32) as char
            } else {
                c
            }
        } else {
            '-'
        };
        assert(mapped == spec_filename_char(v@[i as int]));
        out.push(mapped);
        assert(out@ =~= spec_sanitize_filename(name@).subrange(0, i + 1));
        i += 1;
    }
    assert(out@ =~= spec_sanitize_filename(name@));
    chars_to_string(&out)
}

} // verus!
