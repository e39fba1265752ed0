//! The response normalizer: recover a structured action plan from frequently
//! malformed model output, through layered repair — sanitize, extract a
//! balanced span, parse strictly, repair truncation, salvage individual
//! actions, and fall back to a non-actionable reflection.

use vstd::prelude::*;
use crate::util::{
    str_chars, chars_to_string, copy_range, spec_find, find_sub_from, lemma_spec_find_bounds,
    spec_replace, replace_chars, spec_rfind_char, rfind_char, seq_contains, contains_sub,
    take_chars, take_prefix,
};
use crate::perception::{spec_trim, trim_chars, trim_end};
use crate::json::{
    json_of, obj_field, str_content, int_content, arr_content, null_value, jv_parse, jv_get,
    jv_as_str, jv_as_i64, jv_arr_len, jv_arr_get, jv_is_null, jv_clone,
};

verus! {

// ── Response types ──────────────────────────────────────────────────────────

/// One instruction emitted by the model.
pub struct AgentAction {
    /// The action vocabulary word, for example "tap" or "type_text".
    pub action_type: String,
    /// The open parameter object, kept as parsed JSON when present.
    pub params: Option<serde_json::Value>,
    /// Risk tier: "GREEN", "YELLOW" or "RED"; green when the model omits it.
    pub classification: String,
    /// Free-text rationale.
    pub reason: String,
    pub x: Option<i32>,
    pub y: Option<i32>,
    pub text: Option<String>,
    pub app: Option<String>,
}

/// One parsed model turn.
pub struct AgentResponse {
    /// Ordered actions; insertion order is execution order.
    pub actions: Vec<AgentAction>,
    /// Free-text reflection; the literal "HEARTBEAT_OK" means nothing to do.
    pub reflection: Option<String>,
    /// Text to surface to the human.
    pub message: Option<String>,
    /// Text to persist externally.
    pub memory_write: Option<String>,
}

/// The default risk tier for actions without one.
pub fn default_green() -> (r: String)
    ensures
        r@ == "GREEN"@,
{
    "GREEN".to_owned()
}

/// The mathematical content of an action.
pub ghost struct ActionView {
    pub action_type: Seq<char>,
    pub params: Option<serde_json::Value>,
    pub classification: Seq<char>,
    pub reason: Seq<char>,
    pub x: Option<int>,
    pub y: Option<int>,
    pub text: Option<Seq<char>>,
    pub app: Option<Seq<char>>,
}

/// The view of a concrete action.
pub open spec fn action_view(a: AgentAction) -> ActionView {
    ActionView {
        action_type: a.action_type@,
        params: a.params,
        classification: a.classification@,
        reason: a.reason@,
        x: match a.x {
            Some(v) => Some(v as int),
            None => None,
        },
        y: match a.y {
            Some(v) => Some(v as int),
            None => None,
        },
        text: match a.text {
            Some(s) => Some(s@),
            None => None,
        },
        app: match a.app {
            Some(s) => Some(s@),
            None => None,
        },
    }
}

/// The mathematical content of a response.
pub ghost struct ResponseView {
    pub actions: Seq<ActionView>,
    pub reflection: Option<Seq<char>>,
    pub message: Option<Seq<char>>,
    pub memory_write: Option<Seq<char>>,
}

/// The view of a concrete response.
pub open spec fn response_view(r: AgentResponse) -> ResponseView {
    ResponseView {
        actions: r.actions@.map_values(|a: AgentAction| action_view(a)),
        reflection: match r.reflection {
            Some(s) => Some(s@),
            None => None,
        },
        message: match r.message {
            Some(s) => Some(s@),
            None => None,
        },
        memory_write: match r.memory_write {
            Some(s) => Some(s@),
            None => None,
        },
    }
}

// ── Sanitizing ──────────────────────────────────────────────────────────────

/// Whether a character is JSON insignificant whitespace.
pub open spec fn is_json_ws(c: char) -> bool {
    c == ' ' || c == '\n' || c == '\r' || c == '\t'
}

/// The first position at or after `i` holding a non-whitespace character, or
/// the length when none remains.
pub open spec fn next_non_ws(s: Seq<char>, i: int) -> int
    decreases s.len() - i,
{
    if i < 0 || i >= s.len() {
        s.len() as int
    } else if is_json_ws(s[i]) {
        next_non_ws(s, i + 1)
    } else {
        i
    }
}

/// The text from position `i` on, with every comma dropped whose next
/// non-whitespace character closes an object or array.
pub open spec fn strip_trailing_commas_from(s: Seq<char>, i: int) -> Seq<char>
    decreases s.len() - i,
{
    if i < 0 || i >= s.len() {
        Seq::empty()
    } else if s[i] == ',' && ({
        let j = next_non_ws(s, i + 1);
        j < s.len() && (s[j] == '}' || s[j] == ']')
    }) {
        strip_trailing_commas_from(s, i + 1)
    } else {
        seq![s[i]] + strip_trailing_commas_from(s, i + 1)
    }
}

/// The character fix-ups applied to raw model output: smart quotes become
/// escaped straight quotes, curly apostrophes become plain ones, dashes and
/// spaces are normalized, the byte-order mark is dropped, and trailing commas
/// before a closing brace or bracket are removed.
pub open spec fn spec_sanitize(s: Seq<char>) -> Seq<char> {
    let s1 = spec_replace(s, seq!['\u{201c}'], "\\\""@);
    let s2 = spec_replace(s1, seq!['\u{201d}'], "\\\""@);
    let s3 = spec_replace(s2, seq!['\u{2018}'], "'"@);
    let s4 = spec_replace(s3, seq!['\u{2019}'], "'"@);
    let s5 = spec_replace(s4, seq!['\u{00ab}'], "\\\""@);
    let s6 = spec_replace(s5, seq!['\u{00bb}'], "\\\""@);
    let s7 = spec_replace(s6, seq!['\u{2014}'], "-"@);
    let s8 = spec_replace(s7, seq!['\u{2013}'], "-"@);
    let s9 = spec_replace(s8, seq!['\u{00a0}'], " "@);
    let s10 = spec_replace(s9, seq!['\u{feff}'], Seq::empty());
    strip_trailing_commas_from(s10, 0)
}

/// Replace a single character by a replacement text everywhere.
fn replace_one(s: &Vec<char>, pat: char, rep: &Vec<char>) -> (r: Vec<char>)
    ensures
        r@ == spec_replace(s@, seq![pat], rep@),
{
    let mut pv: Vec<char> = Vec::new();
    pv.push(pat);
    proof {
        assert(pv@ =~= seq![pat]);
    }
    replace_chars(s, &pv, rep)
}

/// Sanitize common model JSON issues; see `spec_sanitize`.
pub fn sanitize_llm_json(text: &str) -> (r: String)
    ensures
        r@ == spec_sanitize(text@),
{
    let v = str_chars(text);
    let esc_quote: Vec<char> = {
        let mut q: Vec<char> = Vec::new();
        q.push('\\');
        q.push('"');
        proof {
            reveal_strlit("\\\"");
            assert(q@ =~= "\\\""@);
        }
        q
    };
    let apos = str_chars("'");
    let dash = str_chars("-");
    let space = str_chars(" ");
    let empty: Vec<char> = Vec::new();
    proof {
        assert(empty@ =~= Seq::<char>::empty());
    }
    let s1 = replace_one(&v, '\u{201c}', &esc_quote);
    let s2 = replace_one(&s1, '\u{201d}', &esc_quote);
    let s3 = replace_one(&s2, '\u{2018}', &apos);
    let s4 = replace_one(&s3, '\u{2019}', &apos);
    let s5 = replace_one(&s4, '\u{00ab}', &esc_quote);
    let s6 = replace_one(&s5, '\u{00bb}', &esc_quote);
    let s7 = replace_one(&s6, '\u{2014}', &dash);
    let s8 = replace_one(&s7, '\u{2013}', &dash);
    let s9 = replace_one(&s8, '\u{00a0}', &space);
    let s10 = replace_one(&s9, '\u{feff}', &empty);

    // Drop commas whose next non-whitespace character closes a scope.
    let n = s10.len();
    let mut out: Vec<char> = Vec::new();
    proof {
        assert(out@ + strip_trailing_commas_from(s10@, 0) =~= strip_trailing_commas_from(
            s10@, 0));
    }
    let mut i: usize = 0;
    while i < n
        invariant
            i <= n,
            n == s10@.len(),
            out@ + strip_trailing_commas_from(s10@, i as int) == strip_trailing_commas_from(
                s10@, 0),
        decreases n - i,
    {
        let c = s10[i];
        if c == ',' {
            let mut j: usize = i + 1;
            while j < n && (s10[j] == ' ' || s10[j] == '\n' || s10[j] == '\r' || s10[j] == '\t')
                invariant
                    i + 1 <= j <= n,
                    n == s10@.len(),
                    next_non_ws(s10@, i + 1) == next_non_ws(s10@, j as int),
                decreases n - j,
            {
                j += 1;
            }
            assert(next_non_ws(s10@, j as int) == j);
            if j < n && (s10[j] == '}' || s10[j] == ']') {
                // Skip the trailing comma.
            } else {
                let ghost before = out@;
                out.push(c);
                proof {
                    assert(out@ =~= before.push(c));
                    assert(before.push(c) + strip_trailing_commas_from(s10@, i + 1)
                        =~= before + (seq![s10@[i as int]] + strip_trailing_commas_from(
                        s10@, i + 1)));
                }
            }
        } else {
            let ghost before = out@;
            out.push(c);
            proof {
                assert(out@ =~= before.push(c));
                assert(before.push(c) + strip_trailing_commas_from(s10@, i + 1) =~= before + (seq![
                    s10@[i as int],
                ] + strip_trailing_commas_from(s10@, i + 1)));
            }
        }
        i += 1;
    }
    proof {
        assert(strip_trailing_commas_from(s10@, n as int) =~= Seq::<char>::empty());
        assert(out@ + Seq::<char>::empty() =~= out@);
    }
    chars_to_string(&out)
}

// ── Extraction ──────────────────────────────────────────────────────────────

/// The position of the brace that closes the span open at depth `depth` when
/// scanning from `i`: the first position where a closing brace brings the
/// running depth to zero.
pub open spec fn scan_brace(s: Seq<char>, i: int, depth: int) -> Option<int>
    decreases s.len() - i,
{
    if i < 0 || i >= s.len() {
        None
    } else {
        let d2 = if s[i] == '{' {
            depth + 1
        } else if s[i] == '}' {
            depth - 1
        } else {
            depth
        };
        if s[i] == '}' && d2 == 0 {
            Some(i)
        } else {
            scan_brace(s, i + 1, d2)
        }
    }
}

/// The JSON span extracted from a model reply: the balanced-brace span from
/// the start when the text opens with a brace, else a fenced block, else the
/// balanced span from the first brace anywhere.
pub open spec fn spec_extract_json(s: Seq<char>) -> Option<Seq<char>> {
    if s.len() > 0 && s[0] == '{' && scan_brace(s, 0, 0) is Some {
        Some(s.subrange(0, scan_brace(s, 0, 0).unwrap() + 1))
    } else {
        let fenced = spec_fenced_json(s);
        if fenced is Some {
            fenced
        } else {
            let plain = spec_fenced_plain(s);
            if plain is Some {
                plain
            } else {
                match spec_find(s, seq!['{'], 0) {
                    Some(start) => match scan_brace(s, start, 0) {
                        Some(e) => Some(s.subrange(start, e + 1)),
                        None => None,
                    },
                    None => None,
                }
            }
        }
    }
}

/// The trimmed content of a ```json fenced block, when one closes.
pub open spec fn spec_fenced_json(s: Seq<char>) -> Option<Seq<char>> {
    match spec_find(s, "```json"@, 0) {
        Some(start) => {
            let after = s.skip(start + 7);
            match spec_find(after, "```"@, 0) {
                Some(e) => Some(spec_trim(after.subrange(0, e))),
                None => None,
            }
        },
        None => None,
    }
}

/// The trimmed content of a plain fenced block, when it opens with a brace.
pub open spec fn spec_fenced_plain(s: Seq<char>) -> Option<Seq<char>> {
    match spec_find(s, "```"@, 0) {
        Some(start) => {
            let after = s.skip(start + 3);
            match spec_find(after, "```"@, 0) {
                Some(e) => {
                    let inner = spec_trim(after.subrange(0, e));
                    if inner.len() > 0 && inner[0] == '{' {
                        Some(inner)
                    } else {
                        None
                    }
                },
                None => None,
            }
        },
        None => None,
    }
}

/// Scan for the brace that closes the span, starting at `start`.
fn find_balanced_end(v: &Vec<char>, start: usize) -> (r: Option<usize>)
    requires
        start <= v@.len(),
    ensures
        match r {
            Some(e) => scan_brace(v@, start as int, 0) == Some(e as int) && start <= e && e
                < v@.len(),
            None => scan_brace(v@, start as int, 0) is None,
        },
{
    let n = v.len();
    let mut depth: i128 = 0;
    let mut i: usize = start;
    while i < n
        invariant
            start <= i <= n,
            n == v@.len(),
            -(i - start) <= depth <= i - start,
            scan_brace(v@, start as int, 0) == scan_brace(v@, i as int, depth as int),
        decreases n - i,
    {
        let c = v[i];
        let d2: i128 = if c == '{' {
            depth + 1
        } else if c == '}' {
            depth - 1
        } else {
            depth
        };
        if c == '}' && d2 == 0 {
            return Some(i);
        }
        depth = d2;
        i += 1;
    }
    None
}

/// Extract the JSON span of a model reply; see `spec_extract_json`.
pub fn extract_json(text: &str) -> (r: Option<String>)
    ensures
        match r {
            Some(s) => spec_extract_json(text@) == Some(s@),
            None => spec_extract_json(text@) is None,
        },
{
    let v = str_chars(text);
    let n = v.len();
    if n > 0 && v[0] == '{' {
        match find_balanced_end(&v, 0) {
            Some(e) => {
                let span = copy_range(&v, 0, e + 1);
                return Some(chars_to_string(&span));
            },
            None => {},
        }
    }

    let fence_json = str_chars("```json");
    proof {
        reveal_strlit("```json");
    }
    let fence = str_chars("```");
    proof {
        reveal_strlit("```");
    }
    match find_sub_from(&v, &fence_json, 0) {
        Some(start) => {
            proof {
                lemma_spec_find_bounds(v@, fence_json@, 0);
            }
            let after = copy_range(&v, start + 7, n);
            proof {
                assert(after@ =~= v@.skip(start + 7));
            }
            match find_sub_from(&after, &fence, 0) {
                Some(e) => {
                    proof {
                        lemma_spec_find_bounds(after@, fence@, 0);
                    }
                    let inner = copy_range(&after, 0, e);
                    let trimmed = trim_chars(&inner);
                    return Some(chars_to_string(&trimmed));
                },
                None => {},
            }
        },
        None => {},
    }

    match find_sub_from(&v, &fence, 0) {
        Some(start) => {
            proof {
                lemma_spec_find_bounds(v@, fence@, 0);
            }
            let after = copy_range(&v, start + 3, n);
            proof {
                assert(after@ =~= v@.skip(start + 3));
            }
            match find_sub_from(&after, &fence, 0) {
                Some(e) => {
                    proof {
                        lemma_spec_find_bounds(after@, fence@, 0);
                    }
                    let inner = copy_range(&after, 0, e);
                    let trimmed = trim_chars(&inner);
                    if trimmed.len() > 0 && trimmed[0] == '{' {
                        return Some(chars_to_string(&trimmed));
                    }
                },
                None => {},
            }
        },
        None => {},
    }

    let brace = {
        let mut b: Vec<char> = Vec::new();
        b.push('{');
        proof {
            assert(b@ =~= seq!['{']);
        }
        b
    };
    match find_sub_from(&v, &brace, 0) {
        Some(start) => {
            proof {
                lemma_spec_find_bounds(v@, brace@, 0);
            }
            match find_balanced_end(&v, start) {
                Some(e) => {
                    let span = copy_range(&v, start, e + 1);
                    Some(chars_to_string(&span))
                },
                None => None,
            }
        },
        None => None,
    }
}

// ── Truncation repair ───────────────────────────────────────────────────────

/// How often a character occurs.
pub open spec fn count_char(s: Seq<char>, c: char) -> int
    decreases s.len(),
{
    if s.len() == 0 {
        0
    } else {
        (if s[0] == c {
            1int
        } else {
            0int
        }) + count_char(s.drop_first(), c)
    }
}

/// Count a character's occurrences.
fn count_char_exec(v: &Vec<char>, c: char) -> (r: usize)
    ensures
        r as int == count_char(v@, c),
        r <= v@.len(),
{
    let n = v.len();
    let mut r: usize = 0;
    let mut i: usize = 0;
    proof {
        assert(v@.skip(0) =~= v@);
    }
    while i < n
        invariant
            i <= n,
            n == v@.len(),
            r <= i,
            r + count_char(v@.skip(i as int), c) == count_char(v@, c),
        decreases n - i,
    {
        let ghost suffix = v@.skip(i as int);
        proof {
            assert(suffix[0] == v@[i as int]);
            assert(suffix.drop_first() =~= v@.skip(i + 1));
        }
        if v[i] == c {
            r += 1;
        }
        i += 1;
    }
    proof {
        assert(v@.skip(n as int) =~= Seq::<char>::empty());
    }
    r
}

/// The final open-brace and open-bracket counts after scanning from `i`
/// outside string literals (a quote not preceded by a backslash toggles the
/// string state).
pub open spec fn scan_open(s: Seq<char>, i: int, in_string: bool, prev: char, ob: int, obk: int)
    -> (int, int)
    decreases s.len() - i,
{
    if i < 0 || i >= s.len() {
        (ob, obk)
    } else {
        let c = s[i];
        let in2 = if c == '"' && prev != '\\' {
            !in_string
        } else {
            in_string
        };
        let ob2 = if !in2 && c == '{' {
            ob + 1
        } else if !in2 && c == '}' {
            ob - 1
        } else {
            ob
        };
        let obk2 = if !in2 && c == '[' {
            obk + 1
        } else if !in2 && c == ']' {
            obk - 1
        } else {
            obk
        };
        scan_open(s, i + 1, in2, c, ob2, obk2)
    }
}

/// The given character repeated.
pub open spec fn repeat_char(c: char, k: int) -> Seq<char>
    decreases k,
{
    if k <= 0 {
        Seq::empty()
    } else {
        seq![c] + repeat_char(c, k - 1)
    }
}

/// The truncation repair of a text: from its first brace, drop a dangling
/// unterminated string (detected by an odd quote count, cutting back to the
/// previous comma or opening brace), drop a trailing comma, then append the
/// closing brackets and braces still open outside string literals.
pub open spec fn spec_repair(s: Seq<char>) -> Seq<char> {
    match spec_find(s, seq!['{'], 0) {
        None => s,
        Some(start) => {
            let jp = s.skip(start);
            let r1 = if count_char(jp, '"') % 2 != 0 {
                match spec_rfind_char(jp, '"') {
                    Some(lq) => {
                        let pre = jp.subrange(0, lq);
                        match spec_rfind_char(pre, ',') {
                            Some(lc) => jp.subrange(0, lc),
                            None => match spec_rfind_char(pre, '{') {
                                Some(lb) => jp.subrange(0, lb + 1),
                                None => jp,
                            },
                        }
                    },
                    None => jp,
                }
            } else {
                jp
            };
            let te = trim_end(r1);
            let r2 = if te.len() > 0 && te[te.len() - 1] == ',' {
                te.subrange(0, te.len() - 1)
            } else {
                r1
            };
            let counts = scan_open(r2, 0, false, ' ', 0, 0);
            r2 + repeat_char(']', counts.1) + repeat_char('}', counts.0)
        },
    }
}

/// Trim trailing whitespace from a character vector.
fn trim_end_chars(v: &Vec<char>) -> (r: Vec<char>)
    ensures
        r@ == trim_end(v@),
{
    let n = v.len();
    let mut hi: usize = n;
    proof {
        assert(v@.subrange(0, n as int) =~= v@);
    }
    while hi > 0 && (v[hi - 1] == ' ' || v[hi - 1] == '\t' || v[hi - 1] == '\r' || v[hi - 1]
        == '\n')
        invariant
            hi <= n,
            n == v@.len(),
            trim_end(v@) == trim_end(v@.subrange(0, hi as int)),
        decreases hi,
    {
        proof {
            let piece = v@.subrange(0, hi as int);
            assert(piece[piece.len() - 1] == v@[hi - 1]);
            assert(piece.drop_last() =~= v@.subrange(0, hi - 1));
        }
        hi -= 1;
    }
    proof {
        let piece = v@.subrange(0, hi as int);
        if hi > 0 {
            assert(piece[piece.len() - 1] == v@[hi - 1]);
        }
        assert(trim_end(v@) == piece);
    }
    copy_range(v, 0, hi)
}

/// Repair truncated JSON; see `spec_repair`.
pub fn repair_truncated_json(s: &str) -> (r: String)
    ensures
        r@ == spec_repair(s@),
{
    let v = str_chars(s);
    let brace = {
        let mut b: Vec<char> = Vec::new();
        b.push('{');
        proof {
            assert(b@ =~= seq!['{']);
        }
        b
    };
    let start = match find_sub_from(&v, &brace, 0) {
        Some(i) => i,
        None => {
            return chars_to_string(&v);
        },
    };
    proof {
        lemma_spec_find_bounds(v@, brace@, 0);
    }
    let n = v.len();
    let jp = copy_range(&v, start, n);
    proof {
        assert(jp@ =~= v@.skip(start as int));
    }

    let quotes = count_char_exec(&jp, '"');
    let r1: Vec<char> = if quotes % 2 != 0 {
        match rfind_char(&jp, '"') {
            Some(lq) => {
                let pre = copy_range(&jp, 0, lq);
                match rfind_char(&pre, ',') {
                    Some(lc) => copy_range(&jp, 0, lc),
                    None => match rfind_char(&pre, '{') {
                        Some(lb) => copy_range(&jp, 0, lb + 1),
                        None => jp,
                    },
                }
            },
            None => jp,
        }
    } else {
        jp
    };

    let te = trim_end_chars(&r1);
    let r2: Vec<char> = if te.len() > 0 && te[te.len() - 1] == ',' {
        let m = te.len();
        copy_range(&te, 0, m - 1)
    } else {
        r1
    };
    // Count braces and brackets still open outside strings.
    let m = r2.len();
    let mut in_string = false;
    let mut prev: char = ' ';
    let mut ob: i128 = 0;
    let mut obk: i128 = 0;
    let mut i: usize = 0;
    while i < m
        invariant
            i <= m,
            m == r2@.len(),
            -(i as int) <= ob <= i as int,
            -(i as int) <= obk <= i as int,
            scan_open(r2@, 0, false, ' ', 0, 0) == scan_open(r2@, i as int, in_string, prev,
                ob as int, obk as int),
        decreases m - i,
    {
        let c = r2[i];
        let in2 = if c == '"' && prev != '\\' {
            !in_string
        } else {
            in_string
        };
        let ob2: i128 = if !in2 && c == '{' {
            ob + 1
        } else if !in2 && c == '}' {
            ob - 1
        } else {
            ob
        };
        let obk2: i128 = if !in2 && c == '[' {
            obk + 1
        } else if !in2 && c == ']' {
            obk - 1
        } else {
            obk
        };
        in_string = in2;
        prev = c;
        ob = ob2;
        obk = obk2;
        i += 1;
    }

    let mut out = r2;
    let ghost base = out@;
    let ghost counts = scan_open(base, 0, false, ' ', 0, 0);
    proof {
        assert(counts == (ob as int, obk as int));
    }
    let mut k: i128 = obk;
    while k > 0
        invariant
            out@ + repeat_char(']', k as int) == base + repeat_char(']', obk as int),
        decreases k,
    {
        let ghost before = out@;
        out.push(']');
        proof {
            assert(repeat_char(']', k as int) =~= seq![']'] + repeat_char(']', k - 1));
            assert(before.push(']') + repeat_char(']', k - 1) =~= before + repeat_char(
                ']', k as int));
        }
        k -= 1;
    }
    proof {
        assert(repeat_char(']', if obk >= 0 {
            0int
        } else {
            obk as int
        }) =~= Seq::<char>::empty());
        assert(out@ =~= base + repeat_char(']', obk as int));
    }
    let ghost base2 = out@;
    let mut k2: i128 = ob;
    while k2 > 0
        invariant
            out@ + repeat_char('}', k2 as int) == base2 + repeat_char('}', ob as int),
        decreases k2,
    {
        let ghost before = out@;
        out.push('}');
        proof {
            assert(repeat_char('}', k2 as int) =~= seq!['}'] + repeat_char('}', k2 - 1));
            assert(before.push('}') + repeat_char('}', k2 - 1) =~= before + repeat_char(
                '}', k2 as int));
        }
        k2 -= 1;
    }
    proof {
        assert(out@ =~= base2 + repeat_char('}', ob as int));
        assert(out@ =~= base + repeat_char(']', obk as int) + repeat_char('}', ob as int));
    }
    chars_to_string(&out)
}


// ── Defensive decoding ──────────────────────────────────────────────────────

/// A string field with a default for absence; a present non-string value
/// fails the whole action, as a typed decode would.
pub open spec fn field_default_str(v: serde_json::Value, key: Seq<char>, dflt: Seq<char>)
    -> Option<Seq<char>> {
    match obj_field(v, key) {
        None => Some(dflt),
        Some(f) => str_content(f),
    }
}

/// An optional machine-integer field: absent or null means none; a present
/// non-integer or out-of-range value fails the action.
pub open spec fn field_opt_int(v: serde_json::Value, key: Seq<char>) -> Option<Option<int>> {
    match obj_field(v, key) {
        None => Some(None),
        Some(f) => if null_value(f) {
            Some(None)
        } else {
            match int_content(f) {
                Some(n) => if i32::MIN <= n <= i32::MAX {
                    Some(Some(n))
                } else {
                    None
                },
                None => None,
            }
        },
    }
}

/// An optional string field: absent or null means none; a present non-string
/// value fails the action.
pub open spec fn field_opt_str(v: serde_json::Value, key: Seq<char>) -> Option<
    Option<Seq<char>>,
> {
    match obj_field(v, key) {
        None => Some(None),
        Some(f) => if null_value(f) {
            Some(None)
        } else {
            match str_content(f) {
                Some(s) => Some(Some(s)),
                None => None,
            }
        },
    }
}

/// The action a JSON value denotes: it needs a string "type"; the risk tier
/// defaults to green, the rationale to empty; coordinates and texts are
/// optional; the parameter object is carried through as parsed.
pub open spec fn spec_action_from_value(v: serde_json::Value) -> Option<ActionView> {
    match obj_field(v, "type"@) {
        None => None,
        Some(t) => match str_content(t) {
            None => None,
            Some(ty) => {
                let params = obj_field(v, "params"@);
                match field_default_str(v, "classification"@, "GREEN"@) {
                    None => None,
                    Some(cl) => match field_default_str(v, "reason"@, Seq::empty()) {
                        None => None,
                        Some(re) => match field_opt_int(v, "x"@) {
                            None => None,
                            Some(x) => match field_opt_int(v, "y"@) {
                                None => None,
                                Some(y) => match field_opt_str(v, "text"@) {
                                    None => None,
                                    Some(tx) => match field_opt_str(v, "app"@) {
                                        None => None,
                                        Some(ap) => Some(ActionView {
                                            action_type: ty,
                                            params,
                                            classification: cl,
                                            reason: re,
                                            x,
                                            y,
                                            text: tx,
                                            app: ap,
                                        }),
                                    },
                                },
                            },
                        },
                    },
                }
            },
        },
    }
}

/// All actions of an array's items; one bad item drops the whole list, as a
/// typed decode of the array would.
pub open spec fn actions_from_items(items: Seq<serde_json::Value>) -> Option<Seq<ActionView>>
    decreases items.len(),
{
    if items.len() == 0 {
        Some(Seq::empty())
    } else {
        match spec_action_from_value(items[0]) {
            None => None,
            Some(a) => match actions_from_items(items.drop_first()) {
                None => None,
                Some(rest) => Some(seq![a] + rest),
            },
        }
    }
}

/// A lenient optional string field: anything but a string reads as none.
pub open spec fn field_str_lenient(v: serde_json::Value, key: Seq<char>) -> Option<Seq<char>> {
    match obj_field(v, key) {
        None => None,
        Some(f) => str_content(f),
    }
}

/// The response a JSON value denotes: the actions array (or empty when it is
/// missing, malformed or holds a bad action) and the three optional texts.
pub open spec fn spec_response_from_value(v: serde_json::Value) -> ResponseView {
    let actions = match obj_field(v, "actions"@) {
        None => Seq::empty(),
        Some(a) => match arr_content(a) {
            None => Seq::empty(),
            Some(items) => match actions_from_items(items) {
                Some(l) => l,
                None => Seq::empty(),
            },
        },
    };
    ResponseView {
        actions,
        reflection: field_str_lenient(v, "reflection"@),
        message: field_str_lenient(v, "message"@),
        memory_write: field_str_lenient(v, "memory_write"@),
    }
}

/// What a strict parse of a JSON span yields, when the span parses at all.
pub open spec fn spec_try_parse(s: Seq<char>) -> Option<ResponseView> {
    match json_of(s) {
        None => None,
        Some(v) => Some(spec_response_from_value(v)),
    }
}

/// Read a string field with a default; see `field_default_str`.
fn field_default_str_exec(v: &serde_json::Value, key: &str, dflt: String) -> (r: Option<String>)
    ensures
        match r {
            Some(s) => field_default_str(*v, key@, dflt@) == Some(s@),
            None => field_default_str(*v, key@, dflt@) is None,
        },
{
    match jv_get(v, key) {
        None => Some(dflt),
        Some(f) => jv_as_str(f),
    }
}

/// Read an optional coordinate field; see `field_opt_int`.
fn field_opt_int_exec(v: &serde_json::Value, key: &str) -> (r: Option<Option<i32>>)
    ensures
        match r {
            Some(Some(n)) => field_opt_int(*v, key@) == Some(Some(n as int)),
            Some(None) => field_opt_int(*v, key@) == Some(None::<int>),
            None => field_opt_int(*v, key@) is None,
        },
{
    match jv_get(v, key) {
        None => Some(None),
        Some(f) => {
            if jv_is_null(f) {
                Some(None)
            } else {
                match jv_as_i64(f) {
                    Some(n) => if n >= -0x80000000i64 && n <= 0x7fffffffi64 {
                        Some(Some(n as i32))
                    } else {
                        None
                    },
                    None => None,
                }
            }
        },
    }
}

/// Read an optional string field; see `field_opt_str`.
fn field_opt_str_exec(v: &serde_json::Value, key: &str) -> (r: Option<Option<String>>)
    ensures
        match r {
            Some(Some(s)) => field_opt_str(*v, key@) == Some(Some(s@)),
            Some(None) => field_opt_str(*v, key@) == Some(None::<Seq<char>>),
            None => field_opt_str(*v, key@) is None,
        },
{
    match jv_get(v, key) {
        None => Some(None),
        Some(f) => {
            if jv_is_null(f) {
                Some(None)
            } else {
                match jv_as_str(f) {
                    Some(s) => Some(Some(s)),
                    None => None,
                }
            }
        },
    }
}

/// Decode one action object; see `spec_action_from_value`.
pub fn action_from_value(v: &serde_json::Value) -> (r: Option<AgentAction>)
    ensures
        match r {
            Some(a) => spec_action_from_value(*v) == Some(action_view(a)),
            None => spec_action_from_value(*v) is None,
        },
{
    let t = match jv_get(v, "type") {
        Some(t) => t,
        None => {
            return None;
        },
    };
    let ty = match jv_as_str(t) {
        Some(s) => s,
        None => {
            return None;
        },
    };
    let params: Option<serde_json::Value> = match jv_get(v, "params") {
        Some(p) => Some(jv_clone(p)),
        None => None,
    };
    let cl = match field_default_str_exec(v, "classification", default_green()) {
        Some(s) => s,
        None => {
            return None;
        },
    };
    let empty_reason = String::new();
    proof {
        assert(empty_reason@ =~= Seq::<char>::empty());
    }
    let re = match field_default_str_exec(v, "reason", empty_reason) {
        Some(s) => s,
        None => {
            return None;
        },
    };
    let x = match field_opt_int_exec(v, "x") {
        Some(o) => o,
        None => {
            return None;
        },
    };
    let y = match field_opt_int_exec(v, "y") {
        Some(o) => o,
        None => {
            return None;
        },
    };
    let tx = match field_opt_str_exec(v, "text") {
        Some(o) => o,
        None => {
            return None;
        },
    };
    let ap = match field_opt_str_exec(v, "app") {
        Some(o) => o,
        None => {
            return None;
        },
    };
    Some(AgentAction {
        action_type: ty,
        params,
        classification: cl,
        reason: re,
        x,
        y,
        text: tx,
        app: ap,
    })
}

/// Decode one response object; see `spec_response_from_value`.
pub fn response_from_value(v: &serde_json::Value) -> (r: AgentResponse)
    ensures
        response_view(r) == spec_response_from_value(*v),
{
    let mut actions: Vec<AgentAction> = Vec::new();
    proof {
        assert(actions@.map_values(|a: AgentAction| action_view(a)) =~= Seq::<ActionView>::empty());
    }
    match jv_get(v, "actions") {
        None => {},
        Some(a) => {
            match jv_arr_len(a) {
                None => {},
                Some(n) => {
                    let ghost items = arr_content(*a).unwrap();
                    let mut ok = true;
                    let mut i: usize = 0;
                    proof {
                        assert(items.skip(0) =~= items);
                    }
                    while i < n && ok
                        invariant
                            i <= n,
                            n == items.len(),
                            arr_content(*a) == Some(items),
                            ok ==> match actions_from_items(items.skip(i as int)) {
                                Some(rest) => actions_from_items(items) == Some(
                                    actions@.map_values(|x: AgentAction| action_view(x)) + rest,
                                ),
                                None => actions_from_items(items) is None,
                            },
                            !ok ==> actions_from_items(items) is None,
                        decreases n - i,
                    {
                        let ghost suffix = items.skip(i as int);
                        proof {
                            assert(suffix[0] == items[i as int]);
                            assert(suffix.drop_first() =~= items.skip(i + 1));
                        }
                        match jv_arr_get(a, i) {
                            Some(item) => {
                                let ghost before = actions@.map_values(
                                    |x: AgentAction| action_view(x),
                                );
                                match action_from_value(item) {
                                    Some(act) => {
                                        let ghost av = action_view(act);
                                        actions.push(act);
                                        proof {
                                            assert(actions@.map_values(
                                                |x: AgentAction| action_view(x),
                                            ) =~= before.push(av));
                                            if actions_from_items(suffix.drop_first()) is Some {
                                                assert(before.push(av) + actions_from_items(
                                                    suffix.drop_first(),
                                                ).unwrap() =~= before + (seq![av]
                                                    + actions_from_items(
                                                    suffix.drop_first(),
                                                ).unwrap()));
                                            }
                                        }
                                    },
                                    None => {
                                        ok = false;
                                    },
                                }
                            },
                            None => {
                                proof {
                                    assert(false);
                                }
                            },
                        }
                        i += 1;
                    }
                    if ok {
                        proof {
                            assert(items.skip(n as int) =~= Seq::<serde_json::Value>::empty());
                            assert(actions_from_items(items) == Some(
                                actions@.map_values(|x: AgentAction| action_view(x)),
                            ));
                        }
                    } else {
                        actions = Vec::new();
                        proof {
                            assert(actions@.map_values(|a2: AgentAction| action_view(a2))
                                =~= Seq::<ActionView>::empty());
                        }
                    }
                },
            }
        },
    }
    let reflection = match jv_get(v, "reflection") {
        None => None,
        Some(f) => jv_as_str(f),
    };
    let message = match jv_get(v, "message") {
        None => None,
        Some(f) => jv_as_str(f),
    };
    let memory_write = match jv_get(v, "memory_write") {
        None => None,
        Some(f) => jv_as_str(f),
    };
    AgentResponse { actions, reflection, message, memory_write }
}

/// Strictly parse a JSON span; see `spec_try_parse`.
pub fn try_parse_json(json_str: &str) -> (r: Option<AgentResponse>)
    ensures
        match r {
            Some(resp) => spec_try_parse(json_str@) == Some(response_view(resp)),
            None => spec_try_parse(json_str@) is None,
        },
{
    match jv_parse(json_str) {
        None => None,
        Some(v) => Some(response_from_value(&v)),
    }
}

// ── Partial salvage ─────────────────────────────────────────────────────────

/// Scan the actions-array span for well-formed top-level object spans,
/// respecting string literals; the scan ends at the array's own closing
/// bracket.
pub open spec fn collect_objs(
    rest: Seq<char>,
    i: int,
    depth: int,
    in_string: bool,
    prev: char,
    obj_start: Option<int>,
    acc: Seq<Seq<char>>,
) -> Seq<Seq<char>>
    decreases rest.len() - i,
{
    if i < 0 || i >= rest.len() {
        acc
    } else {
        let c = rest[i];
        let in2 = if c == '"' && prev != '\\' {
            !in_string
        } else {
            in_string
        };
        if !in2 && c == '{' {
            let os2 = if depth == 0 {
                Some(i)
            } else {
                obj_start
            };
            collect_objs(rest, i + 1, depth + 1, in2, c, os2, acc)
        } else if !in2 && c == '}' {
            let d2 = depth - 1;
            if d2 == 0 {
                match obj_start {
                    Some(st) => collect_objs(rest, i + 1, d2, in2, c, None, acc.push(
                        rest.subrange(st, i + 1),
                    )),
                    None => collect_objs(rest, i + 1, d2, in2, c, obj_start, acc),
                }
            } else {
                collect_objs(rest, i + 1, d2, in2, c, obj_start, acc)
            }
        } else if !in2 && c == ']' && depth == 0 {
            acc
        } else {
            collect_objs(rest, i + 1, depth, in2, c, obj_start, acc)
        }
    }
}

/// The actions recovered from a list of object spans: each span that parses
/// as JSON and decodes as an action, the rest skipped.
pub open spec fn decode_actions(objs: Seq<Seq<char>>) -> Seq<ActionView>
    decreases objs.len(),
{
    if objs.len() == 0 {
        Seq::empty()
    } else {
        let rest = decode_actions(objs.drop_first());
        match json_of(objs[0]) {
            Some(v) => match spec_action_from_value(v) {
                Some(a) => seq![a] + rest,
                None => rest,
            },
            None => rest,
        }
    }
}

/// The individually salvageable actions of a broken reply: the well-formed
/// object spans inside the actions array, decoded one by one; nothing without
/// an actions array or when no span decodes.
pub open spec fn spec_partial_actions(s: Seq<char>) -> Option<Seq<ActionView>> {
    match spec_find(s, "\"actions\""@, 0) {
        None => None,
        Some(i) => match spec_find(s, seq!['['], i) {
            None => None,
            Some(astart) => {
                let rest = s.skip(astart);
                let acts = decode_actions(collect_objs(rest, 0, 0, false, ' ', None, Seq::empty()));
                if acts.len() == 0 {
                    None
                } else {
                    Some(acts)
                }
            },
        },
    }
}

/// Salvage individual actions from a malformed reply; see
/// `spec_partial_actions`.
pub fn extract_partial_actions(s: &str) -> (r: Option<Vec<AgentAction>>)
    ensures
        match r {
            Some(acts) => spec_partial_actions(s@) == Some(
                acts@.map_values(|a: AgentAction| action_view(a)),
            ) && acts@.len() > 0,
            None => spec_partial_actions(s@) is None,
        },
{
    let v = str_chars(s);
    let actions_key = str_chars("\"actions\"");
    proof {
        reveal_strlit("\"actions\"");
    }
    let key_pos = match find_sub_from(&v, &actions_key, 0) {
        Some(i) => i,
        None => {
            return None;
        },
    };
    let bracket = {
        let mut b: Vec<char> = Vec::new();
        b.push('[');
        proof {
            assert(b@ =~= seq!['[']);
        }
        b
    };
    let astart = match find_sub_from(&v, &bracket, key_pos) {
        Some(i) => i,
        None => {
            return None;
        },
    };
    proof {
        lemma_spec_find_bounds(v@, bracket@, key_pos as int);
    }
    let n = v.len();
    let rest = copy_range(&v, astart, n);
    proof {
        assert(rest@ =~= v@.skip(astart as int));
    }

    // Collect top-level object spans.
    let m = rest.len();
    let ghost target = collect_objs(rest@, 0, 0, false, ' ', None, Seq::empty());
    let mut spans: Vec<Vec<char>> = Vec::new();
    let mut depth: i128 = 0;
    let mut in_string = false;
    let mut prev: char = ' ';
    let mut obj_start: Option<usize> = None;
    let mut i: usize = 0;
    proof {
        assert(spans@.map_values(|c: Vec<char>| c@) =~= Seq::<Seq<char>>::empty());
    }
    loop
        invariant
            i <= m,
            m == rest@.len(),
            -(i as int) <= depth <= i as int,
            match obj_start {
                Some(st) => st < i,
                None => true,
            },
            collect_objs(rest@, i as int, depth as int, in_string, prev,
                match obj_start {
                    Some(st) => Some(st as int),
                    None => None,
                }, spans@.map_values(|c: Vec<char>| c@)) == target,
        ensures
            spans@.map_values(|c: Vec<char>| c@) == target,
        decreases m - i,
    {
        if i >= m {
            break ;
        }
        let c = rest[i];
        let in2 = if c == '"' && prev != '\\' {
            !in_string
        } else {
            in_string
        };
        if !in2 && c == '{' {
            if depth == 0 {
                obj_start = Some(i);
            }
            depth = depth + 1;
        } else if !in2 && c == '}' {
            depth = depth - 1;
            if depth == 0 {
                match obj_start {
                    Some(st) => {
                        let ghost before = spans@.map_values(|cv: Vec<char>| cv@);
                        let span = copy_range(&rest, st, i + 1);
                        spans.push(span);
                        obj_start = None;
                        proof {
                            assert(spans@.map_values(|cv: Vec<char>| cv@) =~= before.push(
                                rest@.subrange(st as int, i + 1)));
                        }
                    },
                    None => {},
                }
            }
        } else if !in2 && c == ']' && depth == 0 {
            break ;
        }
        in_string = in2;
        prev = c;
        i += 1;
    }

    // Decode each span independently, skipping failures.
    let ghost span_views = spans@.map_values(|c: Vec<char>| c@);
    let k = spans.len();
    let mut actions: Vec<AgentAction> = Vec::new();
    let mut j: usize = 0;
    proof {
        assert(span_views.skip(0) =~= span_views);
        assert(actions@.map_values(|a: AgentAction| action_view(a)) =~= Seq::<ActionView>::empty());
    }
    while j < k
        invariant
            j <= k,
            k == spans@.len(),
            span_views == spans@.map_values(|c: Vec<char>| c@),
            actions@.map_values(|a: AgentAction| action_view(a)) + decode_actions(
                span_views.skip(j as int),
            ) == decode_actions(span_views),
        decreases k - j,
    {
        let ghost suffix = span_views.skip(j as int);
        proof {
            assert(suffix[0] == span_views[j as int]);
            assert(suffix.drop_first() =~= span_views.skip(j + 1));
        }
        let span_str = chars_to_string(&spans[j]);
        let ghost before = actions@.map_values(|a: AgentAction| action_view(a));
        match jv_parse(span_str.as_str()) {
            Some(val) => {
                match action_from_value(&val) {
                    Some(act) => {
                        let ghost av = action_view(act);
                        actions.push(act);
                        proof {
                            assert(actions@.map_values(|a: AgentAction| action_view(a))
                                =~= before.push(av));
                            assert(before.push(av) + decode_actions(span_views.skip(j + 1))
                                =~= before + (seq![av] + decode_actions(span_views.skip(j + 1))));
                        }
                    },
                    None => {},
                }
            },
            None => {},
        }
        j += 1;
    }
    proof {
        assert(span_views.skip(k as int) =~= Seq::<Seq<char>>::empty());
        assert(actions@.map_values(|a: AgentAction| action_view(a)) + Seq::<ActionView>::empty()
            =~= actions@.map_values(|a: AgentAction| action_view(a)));
    }
    if actions.len() == 0 {
        None
    } else {
        Some(actions)
    }
}

// ── The parse pipeline ──────────────────────────────────────────────────────

/// The response a raw model turn yields: the heartbeat sentinel short-cuts;
/// otherwise sanitize, extract and strictly parse; failing that, repair
/// truncation and retry; failing that, salvage individual actions; and as the
/// last resort report a bounded prefix of the raw text as the reflection.
pub open spec fn spec_parse_response(raw: Seq<char>) -> ResponseView {
    let trimmed = spec_trim(raw);
    if seq_contains(trimmed, "HEARTBEAT_OK"@) {
        ResponseView {
            actions: Seq::empty(),
            reflection: Some("HEARTBEAT_OK"@),
            message: None,
            memory_write: None,
        }
    } else {
        let sanitized = spec_sanitize(trimmed);
        let strict = match spec_extract_json(sanitized) {
            Some(js) => spec_try_parse(js),
            None => None,
        };
        match strict {
            Some(resp) => resp,
            None => {
                let second = match spec_extract_json(spec_repair(sanitized)) {
                    Some(js) => spec_try_parse(js),
                    None => None,
                };
                match second {
                    Some(resp) => resp,
                    None => match spec_partial_actions(sanitized) {
                        Some(acts) => ResponseView {
                            actions: acts,
                            reflection: Some("(partial response recovered)"@),
                            message: None,
                            memory_write: None,
                        },
                        None => ResponseView {
                            actions: Seq::empty(),
                            reflection: Some(take_chars(trimmed, 500)),
                            message: None,
                            memory_write: None,
                        },
                    },
                }
            },
        }
    }
}

/// Parse raw model text into a structured response.  This never fails: the
/// result is exactly `spec_parse_response` of the text, so equal texts always
/// yield equal responses.
pub fn parse_response(raw: &str) -> (r: AgentResponse)
    ensures
        response_view(r) == spec_parse_response(raw@),
{
    let rv = str_chars(raw);
    let trimmed_chars = trim_chars(&rv);
    let trimmed = chars_to_string(&trimmed_chars);
    if contains_sub(&trimmed_chars, &str_chars("HEARTBEAT_OK")) {
        let empty_actions: Vec<AgentAction> = Vec::new();
        proof {
            assert(empty_actions@.map_values(|a: AgentAction| action_view(a)) =~= Seq::<
                ActionView,
            >::empty());
        }
        return AgentResponse {
            actions: empty_actions,
            reflection: Some("HEARTBEAT_OK".to_owned()),
            message: None,
            memory_write: None,
        };
    }
    let sanitized = sanitize_llm_json(trimmed.as_str());
    match extract_json(sanitized.as_str()) {
        Some(js) => match try_parse_json(js.as_str()) {
            Some(resp) => {
                return resp;
            },
            None => {},
        },
        None => {},
    }
    let repaired = repair_truncated_json(sanitized.as_str());
    match extract_json(repaired.as_str()) {
        Some(js) => match try_parse_json(js.as_str()) {
            Some(resp) => {
                return resp;
            },
            None => {},
        },
        None => {},
    }
    match extract_partial_actions(sanitized.as_str()) {
        Some(acts) => {
            return AgentResponse {
                actions: acts,
                reflection: Some("(partial response recovered)".to_owned()),
                message: None,
                memory_write: None,
            };
        },
        None => {},
    }
    let prefix = take_prefix(&trimmed_chars, 500);
    let empty_actions: Vec<AgentAction> = Vec::new();
    proof {
        assert(empty_actions@.map_values(|a: AgentAction| action_view(a)) =~= Seq::<
            ActionView,
        >::empty());
    }
    AgentResponse {
        actions: empty_actions,
        reflection: Some(chars_to_string(&prefix)),
        message: None,
        memory_write: None,
    }
}

// ── Laws ────────────────────────────────────────────────────────────────────

/// Re-parsing the same raw model text yields an identical response: the
/// parse is a function of the text, so two results that both satisfy the
/// parse contract for one text are equal.
pub proof fn lemma_parse_response_deterministic(r1: ResponseView, r2: ResponseView, raw: Seq<char>)
    requires
        r1 == spec_parse_response(raw),
        r2 == spec_parse_response(raw),
    ensures
        r1 == r2,
{
}


// ── Prompt building ─────────────────────────────────────────────────────────

/// A prompt section: a marked header and body, or nothing when the body is
/// empty.
pub open spec fn spec_section(header: Seq<char>, body: Seq<char>) -> Seq<char> {
    if body.len() == 0 {
        Seq::empty()
    } else {
        "--- "@ + header + " ---\n"@ + body + "\n\n"@
    }
}

/// Append a prompt section; see `spec_section`.
fn push_section(out: &mut String, header: &str, body: &str)
    ensures
        final(out)@ == old(out)@ + spec_section(header@, body@),
{
    if body.is_empty() {
        proof {
            assert(old(out)@ + Seq::<char>::empty() =~= old(out)@);
        }
        return ;
    }
    out.append("--- ");
    out.append(header);
    out.append(" ---\n");
    out.append(body);
    out.append("\n\n");
}

/// The skill sections of a system prompt, in order.
pub open spec fn spec_skill_sections(skills: Seq<(Seq<char>, Seq<char>)>) -> Seq<char>
    decreases skills.len(),
{
    if skills.len() == 0 {
        Seq::empty()
    } else {
        "--- SKILL: "@ + skills[0].0 + " ---\n"@ + skills[0].1 + "\n\n"@ + spec_skill_sections(
            skills.drop_first())
    }
}

/// The vision instructions appended when screenshots are enabled.
pub open spec fn spec_vision_block(vision_enabled: bool) -> Seq<char> {
    if vision_enabled {
        "--- VISION INSTRUCTIONS ---\nWhen a screenshot is attached to the screen state, derive all tap coordinates from it: use the @(x,y) coordinates of the UI tree where they exist (they are exact), estimate positions from the image otherwise, and adjust the plan when the screenshot shows a different screen than expected.\n\n"@
    } else {
        Seq::empty()
    }
}

/// The system prompt assembled from the workspace context files: each
/// non-empty file as a marked section, the first-run bootstrap when present,
/// the skills, and the vision instructions when screenshots are enabled.
pub open spec fn spec_system_prompt(
    soul: Seq<char>,
    identity: Seq<char>,
    agents: Seq<char>,
    tools: Seq<char>,
    user: Seq<char>,
    heartbeat: Seq<char>,
    bootstrap: Option<Seq<char>>,
    skills: Seq<(Seq<char>, Seq<char>)>,
    vision_enabled: bool,
) -> Seq<char> {
    let head = spec_section("SOUL.md"@, soul) + spec_section("IDENTITY.md"@, identity)
        + spec_section("AGENTS.md"@, agents) + spec_section("TOOLS.md"@, tools) + spec_section(
        "USER.md"@, user) + spec_section("HEARTBEAT.md"@, heartbeat);
    let boot: Seq<char> = match bootstrap {
        Some(b) => "--- BOOTSTRAP.md (FIRST RUN) ---\n"@ + b + "\n\n"@,
        None => Seq::empty(),
    };
    head + boot + spec_skill_sections(skills) + spec_vision_block(vision_enabled)
}

/// Build the full system prompt from the workspace bootstrap context; see
/// `spec_system_prompt`.
#[verifier::loop_isolation(false)]
#[verifier::rlimit(100)]
#[verifier::spinoff_prover]
pub fn build_system_prompt(ctx: &crate::soul::BootstrapContext, vision_enabled: bool) -> (r:
    String)
    ensures
        r@ == spec_system_prompt(ctx.soul@, ctx.identity@, ctx.agents@, ctx.tools@, ctx.user@,
            ctx.heartbeat@,
            match ctx.bootstrap {
                Some(b) => Some(b@),
                None => None,
            }, ctx.skills@.map_values(|sk: crate::soul::SkillContext| (sk.name@, sk.content@)),
            vision_enabled),
{
    let mut out = String::new();
    proof {
        assert(out@ =~= Seq::<char>::empty());
    }
    push_section(&mut out, "SOUL.md", ctx.soul.as_str());
    push_section(&mut out, "IDENTITY.md", ctx.identity.as_str());
    push_section(&mut out, "AGENTS.md", ctx.agents.as_str());
    push_section(&mut out, "TOOLS.md", ctx.tools.as_str());
    push_section(&mut out, "USER.md", ctx.user.as_str());
    push_section(&mut out, "HEARTBEAT.md", ctx.heartbeat.as_str());
    match &ctx.bootstrap {
        Some(b) => {
            out.append("--- BOOTSTRAP.md (FIRST RUN) ---\n");
            out.append(b.as_str());
            out.append("\n\n");
        },
        None => {},
    }
    let ghost skills = ctx.skills@.map_values(
        |sk: crate::soul::SkillContext| (sk.name@, sk.content@),
    );
    let ghost base = out@;
    proof {
        assert(skills.skip(0) =~= skills);
    }
    let n = ctx.skills.len();
    let mut i: usize = 0;
    while i < n
        invariant
            i <= n,
            out@ + spec_skill_sections(skills.skip(i as int)) == base + spec_skill_sections(
                skills),
        decreases n - i,
    {
        proof {
            assert(skills.skip(i as int)[0] == skills[i as int]);
            assert(skills.skip(i as int).drop_first() =~= skills.skip(i + 1));
        }
        out.append("--- SKILL: ");
        out.append(ctx.skills[i].name.as_str());
        out.append(" ---\n");
        out.append(ctx.skills[i].content.as_str());
        out.append("\n\n");
        i += 1;
    }
    proof {
        assert(skills.skip(n as int) =~= Seq::<(Seq<char>, Seq<char>)>::empty());
        assert(spec_skill_sections(skills.skip(n as int)) =~= Seq::<char>::empty());
        assert(out@ =~= out@ + Seq::<char>::empty());
    }
    if vision_enabled {
        out.append(
            "--- VISION INSTRUCTIONS ---\nWhen a screenshot is attached to the screen state, derive all tap coordinates from it: use the @(x,y) coordinates of the UI tree where they exist (they are exact), estimate positions from the image otherwise, and adjust the plan when the screenshot shows a different screen than expected.\n\n",
        );
    }
    out
}

/// The command lines of the tick prompt's user-command block.
pub open spec fn spec_command_lines(cmds: Seq<Seq<char>>) -> Seq<char>
    decreases cmds.len(),
{
    if cmds.len() == 0 {
        Seq::empty()
    } else {
        "- "@ + cmds[0] + "\n"@ + spec_command_lines(cmds.drop_first())
    }
}

/// The user prompt of a heartbeat tick: the time, the active goals and
/// memory, the new notifications and screen state, any injected user
/// commands, and the closing instruction.
pub open spec fn spec_tick_prompt(
    goals: Seq<char>,
    memory: Seq<char>,
    notifications: Seq<char>,
    screen_state: Seq<char>,
    commands: Seq<Seq<char>>,
    now: Seq<char>,
) -> Seq<char> {
    let head = "Current time: "@ + now + "\n\n"@ + spec_section("Active Goals"@, goals)
        + spec_section("Long-term Memory"@, memory) + "--- New Notifications ---\n"@
        + notifications + "\n\n--- Screen State ---\n"@ + screen_state + "\n\n"@;
    let cmd_block: Seq<char> = if commands.len() > 0 {
        "--- User Commands ---\n"@ + spec_command_lines(commands) + "\n"@
    } else {
        Seq::empty()
    };
    head + cmd_block
        + "Evaluate the heartbeat checklist. Respond with your JSON action plan, or HEARTBEAT_OK if nothing needs attention."@
}

/// Build the user prompt for a heartbeat tick; see `spec_tick_prompt`.
#[verifier::loop_isolation(false)]
#[verifier::rlimit(100)]
#[verifier::spinoff_prover]
pub fn build_tick_prompt(
    goals: &str,
    memory: &str,
    notifications: &str,
    screen_state: &str,
    user_commands: &Vec<String>,
    now: &str,
) -> (r: String)
    ensures
        r@ == spec_tick_prompt(goals@, memory@, notifications@, screen_state@,
            user_commands@.map_values(|c: String| c@), now@),
{
    let mut out = "Current time: ".to_owned();
    out.append(now);
    out.append("\n\n");
    push_section(&mut out, "Active Goals", goals);
    push_section(&mut out, "Long-term Memory", memory);
    out.append("--- New Notifications ---\n");
    out.append(notifications);
    out.append("\n\n--- Screen State ---\n");
    out.append(screen_state);
    out.append("\n\n");
    let ghost cmds = user_commands@.map_values(|c: String| c@);
    let n = user_commands.len();
    if n > 0 {
        out.append("--- User Commands ---\n");
        let ghost base = out@;
        proof {
            assert(cmds.skip(0) =~= cmds);
        }
        let mut i: usize = 0;
        while i < n
            invariant
                i <= n,
                out@ + spec_command_lines(cmds.skip(i as int)) == base + spec_command_lines(cmds),
            decreases n - i,
        {
            proof {
                assert(cmds.skip(i as int)[0] == cmds[i as int]);
                assert(cmds.skip(i as int).drop_first() =~= cmds.skip(i + 1));
            }
            out.append("- ");
            out.append(user_commands[i].as_str());
            out.append("\n");
            i += 1;
        }
        proof {
            assert(cmds.skip(n as int) =~= Seq::<Seq<char>>::empty());
            assert(spec_command_lines(cmds.skip(n as int)) =~= Seq::<char>::empty());
            assert(out@ =~= out@ + Seq::<char>::empty());
        }
        out.append("\n");
    }
    out.append(
        "Evaluate the heartbeat checklist. Respond with your JSON action plan, or HEARTBEAT_OK if nothing needs attention.",
    );
    out
}

/// The prompt of a direct chat message, outside the heartbeat.
pub open spec fn spec_chat_prompt(memory: Seq<char>, goals: Seq<char>, message: Seq<char>) -> Seq<
    char,
> {
    "--- Long-term Memory ---\n"@ + memory + "\n\n--- Goals ---\n"@ + goals
        + "\n\nUser message: "@ + message
}

/// Build the prompt of a direct user message; see `spec_chat_prompt`.
pub fn build_chat_prompt(memory: &str, goals: &str, user_message: &str) -> (r: String)
    ensures
        r@ == spec_chat_prompt(memory@, goals@, user_message@),
{
    let mut out = "--- Long-term Memory ---\n".to_owned();
    out.append(memory);
    out.append("\n\n--- Goals ---\n");
    out.append(goals);
    out.append("\n\nUser message: ");
    out.append(user_message);
    out
}

} // verus!
