//! The perception sanitizer: parse a raw accessibility-tree dump into a
//! small, ranked, indexed set of interactive elements, or signal that visual
//! fallback is needed.

use vstd::prelude::*;
use crate::util::{
    str_chars, chars_to_string, copy_range, spec_find, find_sub_from, lemma_spec_find_bounds,
    seq_contains, contains_sub, str_eq, lower_seq, to_lower_chars, spec_replace, replace_chars,
    u64_to_string, i64_to_string, dec_digits, dec_int,
};
use crate::perception::{spec_bounds_nums, half_trunc, spec_join, join_strings};

verus! {

// ── Types ───────────────────────────────────────────────────────────────────

/// A single UI element extracted from the accessibility tree.
pub struct UiElement {
    /// Sequential index for model reference.
    pub index: usize,
    /// Full class name, for example "android.widget.Button".
    pub class: String,
    /// Short class name for display, for example "Button".
    pub class_short: String,
    /// Visible text content.
    pub text: String,
    /// Content description (accessibility label).
    pub content_desc: String,
    /// Full resource identifier.
    pub resource_id: String,
    /// Resource identifier after the last slash.
    pub resource_id_short: String,
    /// Package name of the owning app.
    pub package: String,
    pub clickable: bool,
    pub long_clickable: bool,
    pub focusable: bool,
    pub scrollable: bool,
    pub checkable: bool,
    pub checked: bool,
    pub enabled: bool,
    pub selected: bool,
    pub editable: bool,
    /// Bounding box: left, top, right, bottom.
    pub bounds: [i32; 4],
    /// Center point, where the model should tap.
    pub center: (i32, i32),
    /// Relevance score in hundredths of a point.
    pub score: i64,
}

/// Result of parsing the accessibility tree.
pub struct SanitizedScreen {
    /// Parsed elements, sorted by score (highest first), capped.
    pub elements: Vec<UiElement>,
    /// Total elements found before capping.
    pub total_found: usize,
    /// Best guess at the foreground package.
    pub foreground_package: Option<String>,
    /// Whether the tree was empty or too sparse (signals vision fallback).
    pub needs_vision_fallback: bool,
    /// Raw useful-element count before scoring.
    pub raw_count: usize,
    /// Interactive element count.
    pub interactive_count: usize,
}

/// When screenshots accompany the accessibility tree.
#[derive(Debug, Clone, Copy, PartialEq, Eq, Structural)]
pub enum VisionMode {
    /// Never use screenshots.
    Off,
    /// Tree first; screenshots only when the tree is empty or sparse.
    Fallback,
    /// Always include screenshots.
    Always,
}

/// Default maximum UI elements sent to the model.
pub const DEFAULT_MAX_ELEMENTS: usize = 50;

/// Minimum interactive elements before vision fallback triggers.
pub const VISION_FALLBACK_THRESHOLD: usize = 5;

/// The vision mode a configuration word denotes; unknown words fall back.
pub open spec fn spec_vision_mode(s: Seq<char>) -> VisionMode {
    let l = lower_seq(s);
    if l == "off"@ || l == "none"@ || l == "disabled"@ {
        VisionMode::Off
    } else if l == "fallback"@ || l == "auto"@ {
        VisionMode::Fallback
    } else if l == "always"@ || l == "on"@ || l == "enabled"@ {
        VisionMode::Always
    } else {
        VisionMode::Fallback
    }
}

impl VisionMode {
    /// Parse a configuration word, case-insensitively; unknown words mean
    /// fallback.
    pub fn from_str(s: &str) -> (r: Self)
        ensures
            r == spec_vision_mode(s@),
    {
        let l = to_lower_chars(&str_chars(s));
        let lw = chars_to_string(&l);
        if str_eq(lw.as_str(), "off") || str_eq(lw.as_str(), "none") || str_eq(
            lw.as_str(),
            "disabled",
        ) {
            VisionMode::Off
        } else if str_eq(lw.as_str(), "fallback") || str_eq(lw.as_str(), "auto") {
            VisionMode::Fallback
        } else if str_eq(lw.as_str(), "always") || str_eq(lw.as_str(), "on") || str_eq(
            lw.as_str(),
            "enabled",
        ) {
            VisionMode::Always
        } else {
            VisionMode::Fallback
        }
    }

    /// The canonical configuration word of this mode.
    pub fn as_str(&self) -> (r: &'static str)
        ensures
            self is Off ==> r@ == "off"@,
            self is Fallback ==> r@ == "fallback"@,
            self is Always ==> r@ == "always"@,
    {
        match self {
            VisionMode::Off => "off",
            VisionMode::Fallback => "fallback",
            VisionMode::Always => "always",
        }
    }
}

// ── Attributes ──────────────────────────────────────────────────────────────

/// XML entity decoding: the basic named and numeric entities, applied in
/// order.
pub open spec fn spec_decode_entities(s: Seq<char>) -> Seq<char> {
    let s1 = spec_replace(s, "&amp;"@, "&"@);
    let s2 = spec_replace(s1, "&lt;"@, "<"@);
    let s3 = spec_replace(s2, "&gt;"@, ">"@);
    let s4 = spec_replace(s3, "&quot;"@, "\""@);
    let s5 = spec_replace(s4, "&apos;"@, "'"@);
    let s6 = spec_replace(s5, "&#10;"@, "\n"@);
    spec_replace(s6, "&#13;"@, "\r"@)
}

/// The decoded value of `attr="..."` in a tag: the raw span between quotes,
/// entities decoded; absent attributes yield nothing (empty values stand).
pub open spec fn spec_get_attr(s: Seq<char>, attr: Seq<char>) -> Option<Seq<char>> {
    let needle = attr + "=\""@;
    match spec_find(s, needle, 0) {
        None => None,
        Some(idx) => {
            let start = idx + needle.len();
            match spec_find(s, "\""@, start) {
                None => None,
                Some(end) => Some(spec_decode_entities(s.subrange(start, end))),
            }
        },
    }
}

/// Extract and entity-decode an XML attribute value from a tag text.
pub fn get_attr_chars(s: &Vec<char>, attr: &Vec<char>) -> (r: Option<Vec<char>>)
    ensures
        match r {
            Some(v) => spec_get_attr(s@, attr@) == Some(v@),
            None => spec_get_attr(s@, attr@) is None,
        },
{
    let mut needle: Vec<char> = Vec::new();
    crate::util::extend_chars(&mut needle, attr);
    needle.push('=');
    needle.push('"');
    proof {
        reveal_strlit("=\"");
        assert(needle@ =~= attr@ + "=\""@);
    }
    let idx = match find_sub_from(s, &needle, 0) {
        Some(i) => i,
        None => {
            return None;
        },
    };
    let slen = s.len();
    let start = idx + needle.len();
    proof {
        lemma_spec_find_bounds(s@, needle@, 0);
    }
    let mut quote: Vec<char> = Vec::new();
    quote.push('"');
    proof {
        reveal_strlit("\"");
        assert(quote@ =~= "\""@);
    }
    let end = match find_sub_from(s, &quote, start) {
        Some(e) => e,
        None => {
            return None;
        },
    };
    proof {
        lemma_spec_find_bounds(s@, quote@, start as int);
    }
    let raw = copy_range(s, start, end);
    proof {
        reveal_strlit("&amp;");
        reveal_strlit("&lt;");
        reveal_strlit("&gt;");
        reveal_strlit("&quot;");
        reveal_strlit("&apos;");
        reveal_strlit("&#10;");
        reveal_strlit("&#13;");
    }
    let s1 = replace_chars(&raw, &str_chars("&amp;"), &str_chars("&"));
    let s2 = replace_chars(&s1, &str_chars("&lt;"), &str_chars("<"));
    let s3 = replace_chars(&s2, &str_chars("&gt;"), &str_chars(">"));
    let s4 = replace_chars(&s3, &str_chars("&quot;"), &str_chars("\""));
    let s5 = replace_chars(&s4, &str_chars("&apos;"), &str_chars("'"));
    let s6 = replace_chars(&s5, &str_chars("&#10;"), &str_chars("\n"));
    let s7 = replace_chars(&s6, &str_chars("&#13;"), &str_chars("\r"));
    Some(s7)
}

/// Extract an entity-decoded attribute value from a tag string.
pub fn get_attr(tag: &str, name: &str) -> (r: Option<String>)
    ensures
        match r {
            Some(v) => spec_get_attr(tag@, name@) == Some(v@),
            None => spec_get_attr(tag@, name@) is None,
        },
{
    let tv = str_chars(tag);
    let nv = str_chars(name);
    match get_attr_chars(&tv, &nv) {
        Some(v) => Some(chars_to_string(&v)),
        None => None,
    }
}

/// A boolean attribute: present and literally "true".
pub open spec fn spec_get_bool_attr(s: Seq<char>, attr: Seq<char>) -> bool {
    match spec_get_attr(s, attr) {
        Some(v) => v == "true"@,
        None => false,
    }
}

/// Extract a boolean XML attribute.
pub fn get_bool_attr(tag: &str, name: &str) -> (r: bool)
    ensures
        r == spec_get_bool_attr(tag@, name@),
{
    match get_attr(tag, name) {
        Some(v) => str_eq(v.as_str(), "true"),
        None => false,
    }
}

/// Find a substring starting from a given position.
pub fn find_substr(haystack: &str, from: usize, needle: &str) -> (r: Option<usize>)
    ensures
        match r {
            Some(i) => spec_find(haystack@, needle@, from as int) == Some(i as int),
            None => spec_find(haystack@, needle@, from as int) is None,
        },
{
    let hv = str_chars(haystack);
    let nv = str_chars(needle);
    find_sub_from(&hv, &nv, from)
}

// ── Bounds ──────────────────────────────────────────────────────────────────

/// The bounds a text denotes, when it holds at least four numbers.
pub open spec fn spec_parse_bounds_opt(s: Seq<char>) -> Option<Seq<int>> {
    let nums = spec_bounds_nums(s);
    if nums.len() >= 4 {
        Some(nums.subrange(0, 4))
    } else {
        None
    }
}

/// Parse a bounds string "[left,top][right,bottom]"; fewer than four numbers
/// yield nothing.
pub fn parse_bounds(s: &str) -> (r: Option<[i32; 4]>)
    ensures
        match r {
            Some(b) => spec_parse_bounds_opt(s@) == Some(b@.map_values(|x: i32| x as int)),
            None => spec_parse_bounds_opt(s@) is None,
        },
{
    let v = str_chars(s);
    let nums = crate::perception::bounds_nums(&v);
    if nums.len() >= 4 {
        let b = [nums[0], nums[1], nums[2], nums[3]];
        proof {
            assert(b@.map_values(|x: i32| x as int) =~= spec_bounds_nums(s@).subrange(0, 4));
        }
        Some(b)
    } else {
        None
    }
}

// ── Scoring ─────────────────────────────────────────────────────────────────

/// The integer base-two logarithm.
pub open spec fn spec_log2(n: int) -> int
    decreases n,
{
    if n < 2 {
        0
    } else {
        1 + spec_log2(n / 2)
    }
}

/// The logarithm never exceeds half its argument.
proof fn lemma_log2_half(n: int)
    ensures
        spec_log2(n) <= (if n >= 2 {
            n / 2
        } else {
            0int
        }),
    decreases n,
{
    if n >= 2 {
        lemma_log2_half(n / 2);
    }
}

/// The integer base-two logarithm of a small quantity.
fn log2_i128(n: i128) -> (r: u32)
    requires
        0 <= n < 32768,
    ensures
        r as int == spec_log2(n as int),
    decreases n,
{
    if n < 2 {
        0
    } else {
        let rec = log2_i128(n / 2);
        proof {
            lemma_log2_half(n as int / 2);
        }
        1 + rec
    }
}

/// The mathematical content of a sanitized element.
pub ghost struct SElemView {
    pub class: Seq<char>,
    pub class_short: Seq<char>,
    pub text: Seq<char>,
    pub content_desc: Seq<char>,
    pub resource_id: Seq<char>,
    pub resource_id_short: Seq<char>,
    pub package: Seq<char>,
    pub clickable: bool,
    pub long_clickable: bool,
    pub focusable: bool,
    pub scrollable: bool,
    pub checkable: bool,
    pub checked: bool,
    pub enabled: bool,
    pub selected: bool,
    pub editable: bool,
    pub bounds: Seq<int>,
    pub center_x: int,
    pub center_y: int,
    pub score: int,
}

/// The view of a concrete sanitized element (its index aside).
pub open spec fn selem_view(e: UiElement) -> SElemView {
    SElemView {
        class: e.class@,
        class_short: e.class_short@,
        text: e.text@,
        content_desc: e.content_desc@,
        resource_id: e.resource_id@,
        resource_id_short: e.resource_id_short@,
        package: e.package@,
        clickable: e.clickable,
        long_clickable: e.long_clickable,
        focusable: e.focusable,
        scrollable: e.scrollable,
        checkable: e.checkable,
        checked: e.checked,
        enabled: e.enabled,
        selected: e.selected,
        editable: e.editable,
        bounds: e.bounds@.map_values(|b: i32| b as int),
        center_x: e.center.0 as int,
        center_y: e.center.1 as int,
        score: e.score as int,
    }
}

/// The interactivity part of the score, in hundredths of a point.
pub open spec fn spec_interact_score(e: SElemView) -> int {
    (if e.clickable {
        1000int
    } else {
        0int
    }) + (if e.editable {
        1200int
    } else {
        0int
    }) + (if e.long_clickable {
        500int
    } else {
        0int
    }) + (if e.focusable {
        300int
    } else {
        0int
    }) + (if e.scrollable {
        400int
    } else {
        0int
    }) + (if e.checkable {
        600int
    } else {
        0int
    })
}

/// The content part of the score: text (with a capped length bonus), label
/// and identifier.
pub open spec fn spec_content_score(e: SElemView) -> int {
    (if e.text.len() > 0 {
        500 + 2 * (if e.text.len() > 100 {
            100int
        } else {
            e.text.len() as int
        })
    } else {
        0int
    }) + (if e.content_desc.len() > 0 {
        300int
    } else {
        0int
    }) + (if e.resource_id.len() > 0 {
        100int
    } else {
        0int
    })
}

/// The size part of the score: a capped logarithmic bonus for area, and
/// penalties for tiny or off-screen boxes.
pub open spec fn spec_size_score(e: SElemView) -> int {
    let w = if e.bounds[2] - e.bounds[0] >= 0 {
        e.bounds[2] - e.bounds[0]
    } else {
        0
    };
    let h = if e.bounds[3] - e.bounds[1] >= 0 {
        e.bounds[3] - e.bounds[1]
    } else {
        0
    };
    let area = w * h;
    (if area > 100 {
        let bonus = 35 * spec_log2(area);
        if bonus > 500 {
            500int
        } else {
            bonus
        }
    } else {
        0int
    }) + (if area < 10 {
        -1000int
    } else {
        0int
    }) + (if e.bounds[0] < -10 || e.bounds[1] < -10 {
        -2000int
    } else {
        0int
    })
}

/// The class part of the score: penalize bare containers, boost buttons,
/// inputs and toggles.
pub open spec fn spec_class_score(e: SElemView) -> int {
    let l = lower_seq(e.class_short);
    (if !e.clickable && !e.editable && (l == "framelayout"@ || l == "linearlayout"@ || l
        == "relativelayout"@ || l == "constraintlayout"@ || l == "view"@) {
        -1500int
    } else {
        0int
    }) + (if l == "button"@ || l == "imagebutton"@ {
        300int
    } else if l == "edittext"@ {
        400int
    } else if l == "checkbox"@ || l == "switch"@ || l == "radiobutton"@ || l == "togglebutton"@ {
        300int
    } else if l == "searchview"@ {
        500int
    } else {
        0int
    }) + (if !e.enabled {
        -500int
    } else {
        0int
    })
}

/// The relevance score of a sanitized element, in hundredths of a point.
pub open spec fn spec_selem_score(e: SElemView) -> int {
    spec_interact_score(e) + spec_content_score(e) + spec_size_score(e) + spec_class_score(e)
}

/// The interactivity part; see `spec_interact_score`.
fn interact_score_of(elem: &UiElement) -> (s: i64)
    ensures
        s as int == spec_interact_score(selem_view(*elem)),
        0 <= s <= 4000,
{
    let i1: i64 = if elem.clickable {
        1000
    } else {
        0
    };
    let i2: i64 = if elem.editable {
        1200
    } else {
        0
    };
    let i3: i64 = if elem.long_clickable {
        500
    } else {
        0
    };
    let i4: i64 = if elem.focusable {
        300
    } else {
        0
    };
    let i5: i64 = if elem.scrollable {
        400
    } else {
        0
    };
    let i6: i64 = if elem.checkable {
        600
    } else {
        0
    };
    i1 + i2 + i3 + i4 + i5 + i6
}

/// The content part; see `spec_content_score`.
fn content_score_of(elem: &UiElement) -> (s: i64)
    ensures
        s as int == spec_content_score(selem_view(*elem)),
        0 <= s <= 1200,
{
    let tlen = elem.text.as_str().unicode_len();
    let c1: i64 = if tlen > 0 {
        500 + 2 * (if tlen > 100 {
            100i64
        } else {
            tlen as i64
        })
    } else {
        0
    };
    let c2: i64 = if !elem.content_desc.as_str().is_empty() {
        300
    } else {
        0
    };
    let c3: i64 = if !elem.resource_id.as_str().is_empty() {
        100
    } else {
        0
    };
    c1 + c2 + c3
}

/// The size part; see `spec_size_score`.
fn size_score_of(elem: &UiElement) -> (s: i64)
    ensures
        s as int == spec_size_score(selem_view(*elem)),
        -3000 <= s <= 500,
{
    let ghost e = selem_view(*elem);
    proof {
        assert(e.bounds[0] == elem.bounds@[0] as int);
        assert(e.bounds[1] == elem.bounds@[1] as int);
        assert(e.bounds[2] == elem.bounds@[2] as int);
        assert(e.bounds[3] == elem.bounds@[3] as int);
    }
    let wd: i64 = (elem.bounds[2] as i64) - (elem.bounds[0] as i64);
    let hd: i64 = (elem.bounds[3] as i64) - (elem.bounds[1] as i64);
    let w: i64 = if wd >= 0 {
        wd
    } else {
        0
    };
    let h: i64 = if hd >= 0 {
        hd
    } else {
        0
    };
    proof {
        assert((w as int) * (h as int) <= 0x10000000000000000 && (w as int) * (h as int) >= 0)
            by (nonlinear_arith)
            requires
                0 <= w as int <= 0x100000000,
                0 <= h as int <= 0x100000000,
        ;
    }
    let area: i128 = (w as i128) * (h as i128);
    let s1: i64 = if area > 100 {
        if area >= 32768 {
            proof {
                assert(spec_log2(32768) == 15) by {
                    reveal_with_fuel(spec_log2, 17);
                }
                lemma_log2_le(32768, area as int);
            }
            500
        } else {
            let lg = log2_i128(area);
            proof {
                lemma_log2_half(area as int);
            }
            let bonus: i64 = 35 * (lg as i64);
            if bonus > 500 {
                500
            } else {
                bonus
            }
        }
    } else {
        0
    };
    let s2: i64 = if area < 10 {
        -1000
    } else {
        0
    };
    let s3: i64 = if elem.bounds[0] < -10 || elem.bounds[1] < -10 {
        -2000
    } else {
        0
    };
    s1 + s2 + s3
}

/// The class part; see `spec_class_score`.
fn class_score_of(elem: &UiElement) -> (s: i64)
    ensures
        s as int == spec_class_score(selem_view(*elem)),
        -2000 <= s <= 500,
{
    let lower_vec = to_lower_chars(&str_chars(elem.class_short.as_str()));
    let lw = chars_to_string(&lower_vec);
    let l = lw.as_str();
    let k1: i64 = if !elem.clickable && !elem.editable && (str_eq(l, "framelayout") || str_eq(
        l,
        "linearlayout",
    ) || str_eq(l, "relativelayout") || str_eq(l, "constraintlayout") || str_eq(l, "view")) {
        -1500
    } else {
        0
    };
    let k2: i64 = if str_eq(l, "button") || str_eq(l, "imagebutton") {
        300
    } else if str_eq(l, "edittext") {
        400
    } else if str_eq(l, "checkbox") || str_eq(l, "switch") || str_eq(l, "radiobutton") || str_eq(
        l,
        "togglebutton",
    ) {
        300
    } else if str_eq(l, "searchview") {
        500
    } else {
        0
    };
    let k3: i64 = if !elem.enabled {
        -500
    } else {
        0
    };
    k1 + k2 + k3
}

/// Score an element by relevance; see `spec_selem_score`.
pub fn score_element(elem: &UiElement) -> (s: i64)
    ensures
        s as int == spec_selem_score(selem_view(*elem)),
{
    let a = interact_score_of(elem);
    let b = content_score_of(elem);
    let c = size_score_of(elem);
    let d = class_score_of(elem);
    a + b + c + d
}

/// The logarithm is never negative.
proof fn lemma_log2_nonneg(n: int)
    ensures
        spec_log2(n) >= 0,
    decreases n,
{
    if n >= 2 {
        lemma_log2_nonneg(n / 2);
    }
}

/// The logarithm of a bounded quantity is bounded by the logarithm of the
/// bound.
proof fn lemma_log2_le(n: int, m: int)
    requires
        n <= m,
    ensures
        spec_log2(n) <= spec_log2(m),
    decreases m,
{
    if n >= 2 && m >= 2 {
        lemma_log2_le(n / 2, m / 2);
    } else if n >= 2 {
    } else {
        lemma_log2_nonneg(m);
    }
}

/// Whether an element is worth including: a zero-area box is invisible and
/// always dropped; everything else stays when it carries any interaction
/// flag or visible content.
pub open spec fn spec_is_useful(e: SElemView) -> bool {
    if e.bounds[2] - e.bounds[0] <= 0 || e.bounds[3] - e.bounds[1] <= 0 {
        false
    } else {
        e.clickable || e.editable || e.long_clickable || e.scrollable || e.checkable
            || e.text.len() > 0 || e.content_desc.len() > 0
    }
}

/// Check whether an element has positive area and any useful content or
/// interaction.
pub fn is_useful_element(elem: &UiElement) -> (r: bool)
    ensures
        r == spec_is_useful(selem_view(*elem)),
{
    let ghost e = selem_view(*elem);
    proof {
        assert(e.bounds[0] == elem.bounds@[0] as int);
        assert(e.bounds[1] == elem.bounds@[1] as int);
        assert(e.bounds[2] == elem.bounds@[2] as int);
        assert(e.bounds[3] == elem.bounds@[3] as int);
    }
    if elem.bounds[2] <= elem.bounds[0] || elem.bounds[3] <= elem.bounds[1] {
        return false;
    }
    if elem.clickable || elem.editable || elem.long_clickable || elem.scrollable
        || elem.checkable {
        return true;
    }
    !elem.text.as_str().is_empty() || !elem.content_desc.as_str().is_empty()
}

// ── Node tags ───────────────────────────────────────────────────────────────

/// A decoded attribute value, or the empty text when absent.
pub open spec fn attr_dec(t: Seq<char>, a: Seq<char>) -> Seq<char> {
    match spec_get_attr(t, a) {
        Some(v) => v,
        None => Seq::empty(),
    }
}

/// The element a `<node ...>` tag denotes, before scoring; nothing when its
/// bounds are missing or malformed.
pub open spec fn spec_node_tag_raw(t: Seq<char>) -> Option<SElemView> {
    let text = attr_dec(t, "text"@);
    let content_desc = attr_dec(t, "content-desc"@);
    let resource_id = attr_dec(t, "resource-id"@);
    let class = attr_dec(t, "class"@);
    let package = attr_dec(t, "package"@);
    let bounds_str = attr_dec(t, "bounds"@);
    match spec_parse_bounds_opt(bounds_str) {
        None => None,
        Some(b) => {
            let clickable = spec_get_bool_attr(t, "clickable"@);
            let long_clickable = spec_get_bool_attr(t, "long-clickable"@);
            let focusable = spec_get_bool_attr(t, "focusable"@);
            let scrollable = spec_get_bool_attr(t, "scrollable"@);
            let checkable = spec_get_bool_attr(t, "checkable"@);
            let checked = spec_get_bool_attr(t, "checked"@);
            let enabled = spec_get_bool_attr(t, "enabled"@);
            let selected = spec_get_bool_attr(t, "selected"@);
            let password = spec_get_bool_attr(t, "password"@);
            let class_lower = lower_seq(class);
            let editable = seq_contains(class_lower, "edittext"@) || seq_contains(class_lower,
                "searchview"@) || seq_contains(class_lower, "autocompletextview"@) || password;
            let class_short = match crate::util::spec_rfind_char(class, '.') {
                Some(i) => class.subrange(i + 1, class.len() as int),
                None => class,
            };
            let resource_id_short = match crate::util::spec_rfind_char(resource_id, '/') {
                Some(i) => resource_id.subrange(i + 1, resource_id.len() as int),
                None => resource_id,
            };
            Some(SElemView {
                class,
                class_short,
                text,
                content_desc,
                resource_id,
                resource_id_short,
                package,
                clickable,
                long_clickable,
                focusable,
                scrollable,
                checkable,
                checked,
                enabled,
                selected,
                editable,
                bounds: b,
                center_x: half_trunc(b[0] + b[2]),
                center_y: half_trunc(b[1] + b[3]),
                score: 0,
            })
        },
    }
}

/// The element a tag denotes, with its score filled in.
pub open spec fn spec_node_tag(t: Seq<char>) -> Option<SElemView> {
    match spec_node_tag_raw(t) {
        None => None,
        Some(e) => Some(SElemView { score: spec_selem_score(e), ..e }),
    }
}

/// A decoded attribute, or empty when absent (executable form).
fn attr_dec_chars(tv: &Vec<char>, name: &str) -> (v: Vec<char>)
    ensures
        v@ == attr_dec(tv@, name@),
{
    match get_attr_chars(tv, &str_chars(name)) {
        Some(v) => v,
        None => {
            let e: Vec<char> = Vec::new();
            assert(e@ =~= Seq::<char>::empty());
            e
        },
    }
}

/// Parse a single `<node ...>` tag into an element with the given index.
#[verifier::rlimit(100)]
#[verifier::spinoff_prover]
pub fn parse_node_tag(tag: &str, index: usize) -> (r: Option<UiElement>)
    ensures
        match r {
            Some(e) => spec_node_tag(tag@) == Some(selem_view(e)) && e.index == index,
            None => spec_node_tag(tag@) is None,
        },
{
    let tv = str_chars(tag);
    let text = attr_dec_chars(&tv, "text");
    let content_desc = attr_dec_chars(&tv, "content-desc");
    let resource_id = attr_dec_chars(&tv, "resource-id");
    let class = attr_dec_chars(&tv, "class");
    let package = attr_dec_chars(&tv, "package");
    let bounds_text = attr_dec_chars(&tv, "bounds");
    let bounds_str = chars_to_string(&bounds_text);
    let b = match parse_bounds(bounds_str.as_str()) {
        Some(b) => b,
        None => {
            return None;
        },
    };
    let ghost bv = b@.map_values(|x: i32| x as int);
    proof {
        assert(bv[0] == b@[0] as int && bv[1] == b@[1] as int && bv[2] == b@[2] as int && bv[3]
            == b@[3] as int);
    }

    let clickable = get_bool_attr_chars(&tv, "clickable");
    let long_clickable = get_bool_attr_chars(&tv, "long-clickable");
    let focusable = get_bool_attr_chars(&tv, "focusable");
    let scrollable = get_bool_attr_chars(&tv, "scrollable");
    let checkable = get_bool_attr_chars(&tv, "checkable");
    let checked = get_bool_attr_chars(&tv, "checked");
    let enabled = get_bool_attr_chars(&tv, "enabled");
    let selected = get_bool_attr_chars(&tv, "selected");
    let password = get_bool_attr_chars(&tv, "password");

    let class_lower = to_lower_chars(&class);
    let editable = contains_sub(&class_lower, &str_chars("edittext")) || contains_sub(
        &class_lower,
        &str_chars("searchview"),
    ) || contains_sub(&class_lower, &str_chars("autocompletextview")) || password;

    let class_len = class.len();
    let class_short = match crate::util::rfind_char(&class, '.') {
        Some(i) => copy_range(&class, i + 1, class_len),
        None => copy_range(&class, 0, class_len),
    };
    proof {
        assert(class@.subrange(0, class@.len() as int) =~= class@);
    }
    let rid_len = resource_id.len();
    let resource_id_short = match crate::util::rfind_char(&resource_id, '/') {
        Some(i) => copy_range(&resource_id, i + 1, rid_len),
        None => copy_range(&resource_id, 0, rid_len),
    };
    proof {
        assert(resource_id@.subrange(0, resource_id@.len() as int) =~= resource_id@);
    }

    let mut e = UiElement {
        index,
        class: chars_to_string(&class),
        class_short: chars_to_string(&class_short),
        text: chars_to_string(&text),
        content_desc: chars_to_string(&content_desc),
        resource_id: chars_to_string(&resource_id),
        resource_id_short: chars_to_string(&resource_id_short),
        package: chars_to_string(&package),
        clickable,
        long_clickable,
        focusable,
        scrollable,
        checkable,
        checked,
        enabled,
        selected,
        editable,
        bounds: b,
        center: (crate::perception::center_of(b[0], b[2]), crate::perception::center_of(
            b[1],
            b[3],
        )),
        score: 0,
    };
    proof {
        let ghost target = spec_node_tag_raw(tag@).unwrap();
        assert(selem_view(e).class == target.class);
        assert(selem_view(e).class_short == target.class_short);
        assert(selem_view(e).text == target.text);
        assert(selem_view(e).content_desc == target.content_desc);
        assert(selem_view(e).resource_id == target.resource_id);
        assert(selem_view(e).resource_id_short == target.resource_id_short);
        assert(selem_view(e).package == target.package);
        assert(selem_view(e).editable == target.editable);
        assert(selem_view(e).bounds =~= target.bounds);
        assert(selem_view(e).center_x == target.center_x);
        assert(selem_view(e).center_y == target.center_y);
        assert(selem_view(e) == target);
    }
    let sc = score_element(&e);
    e.score = sc;
    proof {
        assert(selem_view(e) == spec_node_tag(tag@).unwrap());
    }
    Some(e)
}

/// Read a boolean attribute from a pre-split tag.
fn get_bool_attr_chars(tv: &Vec<char>, name: &str) -> (r: bool)
    ensures
        r == spec_get_bool_attr(tv@, name@),
{
    match get_attr_chars(tv, &str_chars(name)) {
        Some(v) => {
            let vs = chars_to_string(&v);
            str_eq(vs.as_str(), "true")
        },
        None => false,
    }
}

// ── Tree parsing ────────────────────────────────────────────────────────────

/// The `<node ...>` tags of a dump, scanned from `pos`: each begins at a
/// `<node ` and runs through its closing angle bracket.
pub open spec fn spec_tags(s: Seq<char>, pos: int) -> Seq<Seq<char>>
    decreases s.len() - pos,
{
    if pos < 0 || pos > s.len() {
        Seq::empty()
    } else {
        match spec_find(s, "<node "@, pos) {
            None => Seq::empty(),
            Some(start) => match spec_find(s, ">"@, start) {
                None => Seq::empty(),
                Some(e) => if pos <= start && start <= e && e < s.len() {
                    seq![s.subrange(start, e + 1)] + spec_tags(s, e + 1)
                } else {
                    Seq::empty()
                },
            },
        }
    }
}

/// The parsed elements of all tags, useful ones only, in document order.
pub open spec fn spec_useful_elems(tags: Seq<Seq<char>>) -> Seq<SElemView>
    decreases tags.len(),
{
    if tags.len() == 0 {
        Seq::empty()
    } else {
        let rest = spec_useful_elems(tags.drop_first());
        match spec_node_tag(tags[0]) {
            Some(e) => if spec_is_useful(e) {
                seq![e] + rest
            } else {
                rest
            },
            None => rest,
        }
    }
}

/// The non-empty package names of all parsed tags, in document order.
pub open spec fn spec_packages(tags: Seq<Seq<char>>) -> Seq<Seq<char>>
    decreases tags.len(),
{
    if tags.len() == 0 {
        Seq::empty()
    } else {
        let rest = spec_packages(tags.drop_first());
        match spec_node_tag(tags[0]) {
            Some(e) => if e.package.len() > 0 {
                seq![e.package] + rest
            } else {
                rest
            },
            None => rest,
        }
    }
}

/// How often a package occurs.
pub open spec fn count_pkg(l: Seq<Seq<char>>, x: Seq<char>) -> int
    decreases l.len(),
{
    if l.len() == 0 {
        0
    } else {
        (if l[0] == x {
            1int
        } else {
            0int
        }) + count_pkg(l.drop_first(), x)
    }
}

/// Whether an element counts as interactive.
pub open spec fn spec_is_interactive(e: SElemView) -> bool {
    e.clickable || e.focusable || e.editable || e.long_clickable || e.scrollable
}

/// The interactive elements among a list.
pub open spec fn count_interactive(l: Seq<SElemView>) -> int
    decreases l.len(),
{
    if l.len() == 0 {
        0
    } else {
        (if spec_is_interactive(l[0]) {
            1int
        } else {
            0int
        }) + count_interactive(l.drop_first())
    }
}

/// The views of a sequence of sanitized elements.
pub open spec fn sev_seq(s: Seq<UiElement>) -> Seq<SElemView> {
    s.map_values(|e: UiElement| selem_view(e))
}

/// Sort sanitized elements by score, highest first.
fn sort_selems_by_score(v: Vec<UiElement>) -> (r: Vec<UiElement>)
    ensures
        r@.len() == v@.len(),
        sev_seq(r@).to_multiset() == sev_seq(v@).to_multiset(),
        forall|i: int, j: int| 0 <= i < j < r@.len() ==> r@[i].score >= r@[j].score,
{
    let ghost orig_ms = sev_seq(v@).to_multiset();
    let ghost total = v@.len();
    let mut input = v;
    let mut out: Vec<UiElement> = Vec::new();
    proof {
        broadcast use vstd::seq_lib::group_to_multiset_ensures;

        assert(sev_seq(out@) =~= Seq::<SElemView>::empty());
        assert(sev_seq(out@).to_multiset().add(sev_seq(input@).to_multiset()) =~= orig_ms);
    }
    while input.len() > 0
        invariant
            out@.len() + input@.len() == total,
            sev_seq(out@).to_multiset().add(sev_seq(input@).to_multiset()) == orig_ms,
            forall|i: int, j: int| 0 <= i < j < out@.len() ==> out@[i].score >= out@[j].score,
            forall|i: int, j: int|
                0 <= i < out@.len() && 0 <= j < input@.len() ==> out@[i].score
                    >= input@[j].score,
        decreases input@.len(),
    {
        let n = input.len();
        let mut best: usize = 0;
        let mut k: usize = 1;
        while k < n
            invariant
                1 <= k <= n,
                best < k,
                n == input@.len(),
                forall|j: int| 0 <= j < k ==> input@[best as int].score >= input@[j].score,
            decreases n - k,
        {
            if input[k].score > input[best].score {
                best = k;
            }
            k += 1;
        }
        let ghost in_views = sev_seq(input@);
        let ghost out_views = sev_seq(out@);
        let e = input.remove(best);
        let ghost ev = selem_view(e);
        out.push(e);
        proof {
            broadcast use vstd::seq_lib::group_to_multiset_ensures;

            assert(sev_seq(input@) =~= in_views.remove(best as int));
            assert(sev_seq(out@) =~= out_views.push(ev));
            assert(in_views[best as int] == ev);
            assert(in_views.contains(ev));
            assert(in_views.to_multiset().count(ev) > 0);
            crate::util_seq::lemma_ms_transfer(out_views.to_multiset(),
                in_views.to_multiset(), ev);
        }
    }
    out
}

/// Reading order: top to bottom, then left to right, by center coordinates.
pub open spec fn spos_le(a: SElemView, b: SElemView) -> bool {
    a.center_y < b.center_y || (a.center_y == b.center_y && a.center_x <= b.center_x)
}

/// Sort elements into reading order (selection of a first minimum).
fn sort_selems_by_pos(v: Vec<UiElement>) -> (r: Vec<UiElement>)
    ensures
        r@.len() == v@.len(),
        sev_seq(r@).to_multiset() == sev_seq(v@).to_multiset(),
        forall|i: int, j: int| 0 <= i < j < r@.len() ==> spos_le(sev_seq(r@)[i], sev_seq(r@)[j]),
{
    let ghost orig_ms = sev_seq(v@).to_multiset();
    let ghost total = v@.len();
    let mut input = v;
    let mut out: Vec<UiElement> = Vec::new();
    proof {
        broadcast use vstd::seq_lib::group_to_multiset_ensures;

        assert(sev_seq(out@) =~= Seq::<SElemView>::empty());
        assert(sev_seq(out@).to_multiset().add(sev_seq(input@).to_multiset()) =~= orig_ms);
    }
    while input.len() > 0
        invariant
            out@.len() + input@.len() == total,
            sev_seq(out@).to_multiset().add(sev_seq(input@).to_multiset()) == orig_ms,
            forall|i: int, j: int|
                0 <= i < j < out@.len() ==> spos_le(sev_seq(out@)[i], sev_seq(out@)[j]),
            forall|i: int, j: int|
                0 <= i < out@.len() && 0 <= j < input@.len() ==> spos_le(sev_seq(out@)[i],
                    sev_seq(input@)[j]),
        decreases input@.len(),
    {
        let n = input.len();
        let mut best: usize = 0;
        let mut k: usize = 1;
        while k < n
            invariant
                1 <= k <= n,
                best < k,
                n == input@.len(),
                forall|j: int|
                    0 <= j < k ==> spos_le(sev_seq(input@)[best as int], sev_seq(input@)[j]),
            decreases n - k,
        {
            let cand_less = input[k].center.1 < input[best].center.1 || (input[k].center.1
                == input[best].center.1 && input[k].center.0 < input[best].center.0);
            if cand_less {
                best = k;
            }
            k += 1;
        }
        let ghost in_views = sev_seq(input@);
        let ghost out_views = sev_seq(out@);
        let e = input.remove(best);
        let ghost ev = selem_view(e);
        out.push(e);
        proof {
            broadcast use vstd::seq_lib::group_to_multiset_ensures;

            assert(sev_seq(input@) =~= in_views.remove(best as int));
            assert(sev_seq(out@) =~= out_views.push(ev));
            assert(in_views[best as int] == ev);
            assert(in_views.contains(ev));
            assert(in_views.to_multiset().count(ev) > 0);
            crate::util_seq::lemma_ms_transfer(out_views.to_multiset(),
                in_views.to_multiset(), ev);
        }
    }
    out
}

/// Every useful element has a positive-area box.
proof fn lemma_useful_area(tags: Seq<Seq<char>>)
    ensures
        forall|j: int|
            0 <= j < spec_useful_elems(tags).len() ==> ((#[trigger] spec_useful_elems(
                tags,
            )[j]).bounds[2] > spec_useful_elems(tags)[j].bounds[0] && spec_useful_elems(
                tags,
            )[j].bounds[3] > spec_useful_elems(tags)[j].bounds[1]),
    decreases tags.len(),
{
    if tags.len() > 0 {
        lemma_useful_area(tags.drop_first());
        let rest = spec_useful_elems(tags.drop_first());
        match spec_node_tag(tags[0]) {
            Some(e) => {
                if spec_is_useful(e) {
                    assert(spec_useful_elems(tags) == seq![e] + rest);
                    assert forall|j: int|
                        0 <= j < spec_useful_elems(tags).len() implies ((
                        #[trigger] spec_useful_elems(tags)[j]).bounds[2] > spec_useful_elems(
                            tags,
                        )[j].bounds[0] && spec_useful_elems(tags)[j].bounds[3]
                        > spec_useful_elems(tags)[j].bounds[1]) by {
                        if j > 0 {
                            assert(spec_useful_elems(tags)[j] == rest[j - 1]);
                        }
                    }
                }
            },
            None => {},
        }
    }
}

/// Assign 1-based indices in the current order, touching nothing else.
fn assign_selem_indices(v: Vec<UiElement>) -> (r: Vec<UiElement>)
    ensures
        r@.len() == v@.len(),
        forall|i: int| 0 <= i < r@.len() ==> r@[i].index == i + 1,
        forall|i: int| 0 <= i < r@.len() ==> selem_view(r@[i]) == selem_view(v@[i]),
{
    let ghost orig = v@;
    let mut input = v;
    let n0 = input.len();
    let ghost total = n0 as int;
    let mut out: Vec<UiElement> = Vec::new();
    while input.len() > 0
        invariant
            total <= usize::MAX,
            out@.len() + input@.len() == total,
            forall|i: int| 0 <= i < out@.len() ==> out@[i].index == i + 1,
            forall|i: int| 0 <= i < out@.len() ==> selem_view(out@[i]) == selem_view(orig[i]),
            forall|j: int| 0 <= j < input@.len() ==> input@[j] == orig[out@.len() + j],
        decreases input@.len(),
    {
        let mut e = input.remove(0);
        e.index = out.len() + 1;
        out.push(e);
    }
    out
}

/// Parse the raw XML of an accessibility dump into a sanitized screen: every
/// useful non-zero-area node, scored and sorted by score, capped at
/// `max_elements` (the default cap when zero), with 1-based indices; the
/// foreground package is a most frequent package attribute, and vision
/// fallback is signalled exactly when fewer interactive elements were found
/// than the threshold — in particular, always when there are none.
#[verifier::rlimit(100)]
pub fn parse_accessibility_xml(xml: &str, max_elements: usize) -> (r: SanitizedScreen)
    ensures
        ({
            let tags = spec_tags(xml@, 0);
            let useful = spec_useful_elems(tags);
            let packs = spec_packages(tags);
            let maxe: int = if max_elements == 0 {
                DEFAULT_MAX_ELEMENTS as int
            } else {
                max_elements as int
            };
            &&& r.raw_count == useful.len()
            &&& r.total_found == useful.len()
            &&& r.interactive_count == count_interactive(useful)
            &&& r.needs_vision_fallback == (r.interactive_count < VISION_FALLBACK_THRESHOLD)
            &&& count_interactive(useful) == 0 ==> r.needs_vision_fallback
            &&& r.elements@.len() == (if useful.len() <= maxe {
                useful.len() as int
            } else {
                maxe
            })
            &&& forall|i: int| 0 <= i < r.elements@.len() ==> r.elements@[i].index == i + 1
            &&& forall|i: int, j: int|
                0 <= i < j < r.elements@.len() ==> spos_le(sev_seq(r.elements@)[i],
                    sev_seq(r.elements@)[j])
            &&& forall|e: SElemView|
                #[trigger] sev_seq(r.elements@).to_multiset().count(e)
                    <= useful.to_multiset().count(e)
            &&& useful.len() <= maxe ==> sev_seq(r.elements@).to_multiset()
                == useful.to_multiset()
            &&& forall|a: SElemView, b: SElemView|
                (#[trigger] sev_seq(r.elements@).to_multiset().count(a)) > 0 && (
                #[trigger] useful.to_multiset().sub(sev_seq(r.elements@).to_multiset()).count(
                    b,
                )) > 0 ==> a.score >= b.score
            &&& forall|i: int|
                0 <= i < r.elements@.len() ==> ((#[trigger] r.elements@[i]).bounds@[2]
                    > r.elements@[i].bounds@[0] && r.elements@[i].bounds@[3]
                    > r.elements@[i].bounds@[1])
            &&& match r.foreground_package {
                Some(p) => packs.contains(p@) && forall|q: Seq<char>|
                    #[trigger] count_pkg(packs, q) <= count_pkg(packs, p@),
                None => packs.len() == 0,
            }
        }),
{
    let v = str_chars(xml);
    let n = v.len();
    let node_pat = str_chars("<node ");
    let gt_pat = str_chars(">");

    let mut elements: Vec<UiElement> = Vec::new();
    let mut packages: Vec<String> = Vec::new();
    let mut interactive: usize = 0;
    let mut pos: usize = 0;
    proof {
        assert(sev_seq(elements@) =~= Seq::<SElemView>::empty());
        assert(packages@.map_values(|p: String| p@) =~= Seq::<Seq<char>>::empty());
        assert(sev_seq(elements@) + spec_useful_elems(spec_tags(v@, 0)) =~= spec_useful_elems(
            spec_tags(v@, 0)));
        assert(packages@.map_values(|p: String| p@) + spec_packages(spec_tags(v@, 0))
            =~= spec_packages(spec_tags(v@, 0)));
    }
    loop
        invariant
            n == v@.len(),
            v@ == xml@,
            node_pat@ == "<node "@,
            gt_pat@ == ">"@,
            pos <= n,
            interactive <= elements@.len(),
            sev_seq(elements@) + spec_useful_elems(spec_tags(v@, pos as int)) == spec_useful_elems(
                spec_tags(v@, 0),
            ),
            packages@.map_values(|p: String| p@) + spec_packages(spec_tags(v@, pos as int))
                == spec_packages(spec_tags(v@, 0)),
            interactive as int == count_interactive(sev_seq(elements@)),
        ensures
            v@ == xml@,
            sev_seq(elements@) == spec_useful_elems(spec_tags(v@, 0)),
            packages@.map_values(|p: String| p@) == spec_packages(spec_tags(v@, 0)),
            interactive as int == count_interactive(sev_seq(elements@)),
            interactive <= elements@.len(),
        decreases n - pos,
    {
        let start = match find_sub_from(&v, &node_pat, pos) {
            Some(i) => i,
            None => {
                proof {
                    assert(spec_tags(v@, pos as int) =~= Seq::<Seq<char>>::empty());
                    assert(spec_useful_elems(spec_tags(v@, pos as int)) =~= Seq::<
                        SElemView,
                    >::empty());
                    assert(spec_packages(spec_tags(v@, pos as int)) =~= Seq::<Seq<char>>::empty());
                    assert(sev_seq(elements@) + Seq::<SElemView>::empty() =~= sev_seq(elements@));
                    assert(packages@.map_values(|p: String| p@) + Seq::<Seq<char>>::empty()
                        =~= packages@.map_values(|p: String| p@));
                }
                break ;
            },
        };
        let tag_end = match find_sub_from(&v, &gt_pat, start) {
            Some(e) => e,
            None => {
                proof {
                    lemma_spec_find_bounds(v@, node_pat@, pos as int);
                    assert(spec_tags(v@, pos as int) =~= Seq::<Seq<char>>::empty());
                    assert(spec_useful_elems(spec_tags(v@, pos as int)) =~= Seq::<
                        SElemView,
                    >::empty());
                    assert(spec_packages(spec_tags(v@, pos as int)) =~= Seq::<Seq<char>>::empty());
                    assert(sev_seq(elements@) + Seq::<SElemView>::empty() =~= sev_seq(elements@));
                    assert(packages@.map_values(|p: String| p@) + Seq::<Seq<char>>::empty()
                        =~= packages@.map_values(|p: String| p@));
                }
                break ;
            },
        };
        proof {
            lemma_spec_find_bounds(v@, node_pat@, pos as int);
            lemma_spec_find_bounds(v@, gt_pat@, start as int);
            reveal_strlit(">");
        }
        let tag = copy_range(&v, start, tag_end + 1);
        let ghost tag_seq = v@.subrange(start as int, tag_end + 1);
        let ghost cur_tags = spec_tags(v@, pos as int);
        let ghost rest_tags = spec_tags(v@, tag_end + 1);
        proof {
            assert(cur_tags == seq![tag_seq] + rest_tags);
            assert(cur_tags.len() > 0);
            assert(cur_tags[0] == tag_seq);
            assert(cur_tags.drop_first() =~= rest_tags);
        }
        let tag_str = chars_to_string(&tag);
        let ghost elems_before = sev_seq(elements@);
        let ghost packs_before = packages@.map_values(|p: String| p@);
        match parse_node_tag(tag_str.as_str(), 0) {
            Some(elem) => {
                let ghost evw = selem_view(elem);
                proof {
                    assert(spec_node_tag(tag_seq) == Some(evw));
                    if evw.package.len() > 0 {
                        assert(spec_packages(cur_tags) == seq![evw.package] + spec_packages(
                            rest_tags,
                        ));
                    } else {
                        assert(spec_packages(cur_tags) == spec_packages(rest_tags));
                    }
                    if spec_is_useful(evw) {
                        assert(spec_useful_elems(cur_tags) == seq![evw] + spec_useful_elems(
                            rest_tags,
                        ));
                    } else {
                        assert(spec_useful_elems(cur_tags) == spec_useful_elems(rest_tags));
                    }
                }
                if !elem.package.as_str().is_empty() {
                    let pkg = elem.package.clone();
                    packages.push(pkg);
                    proof {
                        assert(packages@.map_values(|p: String| p@) =~= packs_before.push(
                            evw.package,
                        ));
                        assert(packs_before.push(evw.package) + spec_packages(rest_tags)
                            =~= packs_before + (seq![evw.package] + spec_packages(rest_tags)));
                    }
                }
                if is_useful_element(&elem) {
                    let inter = elem.clickable || elem.focusable || elem.editable
                        || elem.long_clickable || elem.scrollable;
                    elements.push(elem);
                    proof {
                        assert(sev_seq(elements@) =~= elems_before.push(evw));
                        lemma_count_interactive_push(elems_before, evw);
                        assert(elems_before.push(evw) + spec_useful_elems(rest_tags)
                            =~= elems_before + (seq![evw] + spec_useful_elems(rest_tags)));
                    }
                    if inter {
                        let el = elements.len();
                        assert(interactive < el);
                        interactive += 1;
                    }
                }
            },
            None => {
                proof {
                    assert(spec_node_tag(tag_seq) is None);
                    assert(spec_packages(cur_tags) == spec_packages(rest_tags));
                    assert(spec_useful_elems(cur_tags) == spec_useful_elems(rest_tags));
                }
            },
        }
        pos = tag_end + 1;
    }
    let ghost useful = spec_useful_elems(spec_tags(v@, 0));
    let ghost packs = spec_packages(spec_tags(v@, 0));

    let raw_count = elements.len();
    let total_found = elements.len();
    let interactive_count = interactive;

    let maxe = if max_elements == 0 {
        DEFAULT_MAX_ELEMENTS
    } else {
        max_elements
    };
    let mut ranked = sort_selems_by_score(elements);
    let ghost ranked_full = sev_seq(ranked@);
    proof {
        assert forall|i: int, j: int|
            0 <= i < j < ranked_full.len() implies ranked_full[i].score
            >= ranked_full[j].score by {
            assert(ranked_full[i] == selem_view(ranked@[i]));
            assert(ranked_full[j] == selem_view(ranked@[j]));
        }
    }
    ranked.truncate(maxe);
    let ghost truncated_views = sev_seq(ranked@);
    proof {
        if ranked_full.len() > maxe as int {
            assert(truncated_views =~= ranked_full.subrange(0, maxe as int));
            crate::util_seq::lemma_take_multiset_le(ranked_full, maxe as int);
        } else {
            assert(truncated_views =~= ranked_full);
        }
    }
    let ordered = sort_selems_by_pos(ranked);
    let final_elems = assign_selem_indices(ordered);
    proof {
        broadcast use vstd::seq_lib::group_to_multiset_ensures;
        broadcast use vstd::multiset::group_multiset_axioms;

        assert(sev_seq(final_elems@) =~= sev_seq(ordered@));
        assert(sev_seq(final_elems@).to_multiset() == truncated_views.to_multiset());
        assert(ranked_full.to_multiset() == useful.to_multiset());
        let kept_ms = sev_seq(final_elems@).to_multiset();
        assert forall|e: SElemView| #[trigger] kept_ms.count(e) <= useful.to_multiset().count(
            e,
        ) by {
            if ranked_full.len() > maxe as int {
                assert(truncated_views.to_multiset().count(e) <= ranked_full.to_multiset().count(
                    e,
                ));
            } else {
                assert(truncated_views.to_multiset().count(e) == ranked_full.to_multiset().count(
                    e,
                ));
            }
        }
        if useful.len() <= maxe as int {
            assert(ranked_full.len() == useful.len());
            assert(kept_ms =~= useful.to_multiset());
        }

        // The capped selection keeps the highest-scoring candidates.
        if ranked_full.len() > maxe as int {
            let front = ranked_full.subrange(0, maxe as int);
            let back = ranked_full.subrange(maxe as int, ranked_full.len() as int);
            assert(ranked_full =~= front + back);
            vstd::seq_lib::lemma_multiset_commutative(front, back);
            assert(useful.to_multiset() =~= front.to_multiset().add(back.to_multiset()));
            assert(kept_ms == front.to_multiset());
            assert(useful.to_multiset().sub(kept_ms) =~= back.to_multiset());
            assert forall|a: SElemView, b: SElemView|
                (#[trigger] kept_ms.count(a)) > 0 && (#[trigger] useful.to_multiset().sub(
                    kept_ms,
                ).count(b)) > 0 implies a.score >= b.score by {
                assert(front.contains(a));
                assert(back.contains(b));
                let ia = choose|ia: int| 0 <= ia < front.len() && front[ia] == a;
                let jb = choose|jb: int| 0 <= jb < back.len() && back[jb] == b;
                assert(ranked_full[ia] == a);
                assert(ranked_full[maxe + jb] == b);
            }
        } else {
            assert(kept_ms == useful.to_multiset());
            assert forall|a: SElemView, b: SElemView|
                (#[trigger] kept_ms.count(a)) > 0 && (#[trigger] useful.to_multiset().sub(
                    kept_ms,
                ).count(b)) > 0 implies a.score >= b.score by {
                assert(useful.to_multiset().sub(kept_ms).count(b) == 0);
            }
        }

        // Every kept element has a positive-area box.
        lemma_useful_area(spec_tags(v@, 0));
        assert forall|i: int|
            0 <= i < final_elems@.len() implies ((#[trigger] final_elems@[i]).bounds@[2]
            > final_elems@[i].bounds@[0] && final_elems@[i].bounds@[3]
            > final_elems@[i].bounds@[1]) by {
            let ev = sev_seq(final_elems@)[i];
            assert(ev == selem_view(final_elems@[i]));
            assert(sev_seq(final_elems@).contains(ev));
            assert(kept_ms.count(ev) > 0);
            assert(useful.to_multiset().count(ev) > 0);
            assert(useful.contains(ev));
            let j = choose|j: int| 0 <= j < useful.len() && useful[j] == ev;
            assert(ev.bounds[2] > ev.bounds[0] && ev.bounds[3] > ev.bounds[1]);
            assert(ev.bounds[0] == final_elems@[i].bounds@[0] as int);
            assert(ev.bounds[1] == final_elems@[i].bounds@[1] as int);
            assert(ev.bounds[2] == final_elems@[i].bounds@[2] as int);
            assert(ev.bounds[3] == final_elems@[i].bounds@[3] as int);
        }
    }

    // Foreground package: a most frequent package attribute.
    let foreground_package = most_common_package(&packages);

    let needs_vision_fallback = interactive_count < VISION_FALLBACK_THRESHOLD;
    SanitizedScreen {
        elements: final_elems,
        total_found,
        foreground_package,
        needs_vision_fallback,
        raw_count,
        interactive_count,
    }
}

/// Appending an element adds its interactivity to the count.
proof fn lemma_count_interactive_push(l: Seq<SElemView>, e: SElemView)
    ensures
        count_interactive(l.push(e)) == count_interactive(l) + (if spec_is_interactive(e) {
            1int
        } else {
            0int
        }),
    decreases l.len(),
{
    if l.len() == 0 {
        assert(l.push(e)[0] == e);
        assert(l.push(e).drop_first() =~= Seq::<SElemView>::empty());
        assert(count_interactive(l.push(e)) == (if spec_is_interactive(e) {
            1int
        } else {
            0int
        }) + count_interactive(Seq::<SElemView>::empty()));
    } else {
        assert(l.push(e)[0] == l[0]);
        assert(l.push(e).drop_first() =~= l.drop_first().push(e));
        lemma_count_interactive_push(l.drop_first(), e);
        assert(count_interactive(l.push(e)) == (if spec_is_interactive(l[0]) {
            1int
        } else {
            0int
        }) + count_interactive(l.drop_first().push(e)));
        assert(count_interactive(l) == (if spec_is_interactive(l[0]) {
            1int
        } else {
            0int
        }) + count_interactive(l.drop_first()));
    }
}

/// Counting occurrences of a package.
fn count_package(l: &Vec<String>, x: &String) -> (c: usize)
    ensures
        c as int == count_pkg(l@.map_values(|p: String| p@), x@),
        c <= l@.len(),
{
    let ghost views = l@.map_values(|p: String| p@);
    let n = l.len();
    let mut c: usize = 0;
    let mut i: usize = 0;
    proof {
        assert(views.skip(0) =~= views);
    }
    while i < n
        invariant
            i <= n,
            n == l@.len(),
            views == l@.map_values(|p: String| p@),
            c <= i,
            c + count_pkg(views.skip(i as int), x@) == count_pkg(views, x@),
        decreases n - i,
    {
        let ghost suffix = views.skip(i as int);
        proof {
            assert(suffix[0] == views[i as int]);
            assert(suffix.drop_first() =~= views.skip(i + 1));
        }
        if l[i] == *x {
            c += 1;
        }
        i += 1;
    }
    proof {
        assert(views.skip(n as int) =~= Seq::<Seq<char>>::empty());
    }
    c
}

/// A most frequent entry of a package list, or nothing when it is empty.
fn most_common_package(l: &Vec<String>) -> (r: Option<String>)
    ensures
        ({
            let packs = l@.map_values(|p: String| p@);
            match r {
                Some(p) => packs.contains(p@) && forall|q: Seq<char>|
                    #[trigger] count_pkg(packs, q) <= count_pkg(packs, p@),
                None => packs.len() == 0,
            }
        }),
{
    let ghost packs = l@.map_values(|p: String| p@);
    let n = l.len();
    if n == 0 {
        return None;
    }
    let mut best: usize = 0;
    let mut best_count: usize = count_package(l, &l[0]);
    let mut i: usize = 1;
    while i < n
        invariant
            1 <= i <= n,
            best < i,
            n == l@.len(),
            packs == l@.map_values(|p: String| p@),
            best_count as int == count_pkg(packs, packs[best as int]),
            forall|j: int|
                0 <= j < i ==> #[trigger] count_pkg(packs, packs[j]) <= best_count as int,
        decreases n - i,
    {
        let c = count_package(l, &l[i]);
        if c > best_count {
            best = i;
            best_count = c;
        }
        i += 1;
    }
    proof {
        assert(packs.contains(packs[best as int]));
        assert forall|q: Seq<char>| #[trigger] count_pkg(packs, q) <= count_pkg(
            packs,
            packs[best as int],
        ) by {
            if packs.contains(q) {
                let j = choose|j: int| 0 <= j < packs.len() && packs[j] == q;
                assert(count_pkg(packs, packs[j]) <= best_count as int);
            } else {
                lemma_count_pkg_absent(packs, q);
            }
        }
    }
    Some(l[best].clone())
}

/// A package that never occurs counts zero times.
proof fn lemma_count_pkg_absent(l: Seq<Seq<char>>, x: Seq<char>)
    requires
        !l.contains(x),
    ensures
        count_pkg(l, x) == 0,
    decreases l.len(),
{
    if l.len() > 0 {
        assert(l[0] != x);
        assert(forall|k: int| 0 <= k < l.drop_first().len() ==> l.drop_first()[k] == l[k + 1]);
        lemma_count_pkg_absent(l.drop_first(), x);
    }
}


// ── Formatting ──────────────────────────────────────────────────────────────

/// The quoted, bounded text of an element.
pub open spec fn spec_quoted_text(t: Seq<char>) -> Seq<char> {
    if t.len() > 80 {
        "\""@ + t.subrange(0, 77) + "\u{2026}\""@
    } else {
        "\""@ + t + "\""@
    }
}

/// The bounded label note of an element without text.
pub open spec fn spec_desc_part(d: Seq<char>) -> Seq<char> {
    if d.len() > 60 {
        "desc:\""@ + d.subrange(0, 57) + "\u{2026}\""@
    } else {
        "desc:\""@ + d + "\""@
    }
}

/// The flag words shown for a sanitized element, in display order.
pub open spec fn spec_sflags(e: SElemView) -> Seq<Seq<char>> {
    let f0 = Seq::<Seq<char>>::empty();
    let f1 = if e.clickable {
        f0.push("clickable"@)
    } else {
        f0
    };
    let f2 = if e.long_clickable {
        f1.push("long-clickable"@)
    } else {
        f1
    };
    let f3 = if e.editable {
        f2.push("editable"@)
    } else {
        f2
    };
    let f4 = if e.scrollable {
        f3.push("scrollable"@)
    } else {
        f3
    };
    let f5 = if e.checkable {
        if e.checked {
            f4.push("checked"@)
        } else {
            f4.push("unchecked"@)
        }
    } else {
        f4
    };
    let f6 = if e.selected {
        f5.push("selected"@)
    } else {
        f5
    };
    if !e.enabled {
        f6.push("disabled"@)
    } else {
        f6
    }
}

/// The display parts of one element: index and class, quoted text, center,
/// flags, label, and a useful short identifier.
pub open spec fn spec_elem_parts(e: SElemView, index: int) -> Seq<Seq<char>> {
    let p0 = seq!["["@ + crate::util::dec_digits(index) + "] "@ + e.class_short];
    let p1 = if e.text.len() > 0 {
        p0.push(spec_quoted_text(e.text))
    } else {
        p0
    };
    let p2 = p1.push("@("@ + crate::util::dec_int(e.center_x) + ","@ + crate::util::dec_int(
        e.center_y) + ")"@);
    let flags = spec_sflags(e);
    let p3 = if flags.len() > 0 {
        p2.push(crate::perception::spec_join(flags, " "@))
    } else {
        p2
    };
    let p4 = if e.text.len() == 0 && e.content_desc.len() > 0 {
        p3.push(spec_desc_part(e.content_desc))
    } else {
        p3
    };
    if e.resource_id_short.len() > 0 && e.resource_id_short != "content"@ && e.resource_id_short
        != "text"@ && e.resource_id_short != "title"@ {
        p4.push("id:"@ + e.resource_id_short)
    } else {
        p4
    }
}

/// The display line of one sanitized element.
pub open spec fn spec_format_element(e: SElemView, index: int) -> Seq<char> {
    crate::perception::spec_join(spec_elem_parts(e, index), " "@)
}

/// Format a single element for the model; see `spec_format_element`.
#[verifier::rlimit(100)]
#[verifier::spinoff_prover]
pub fn format_element(elem: &UiElement) -> (r: String)
    ensures
        r@ == spec_format_element(selem_view(*elem), elem.index as int),
{
    let ghost e = selem_view(*elem);
    let mut parts: Vec<String> = Vec::new();
    proof {
        assert(parts@.map_values(|p: String| p@) =~= Seq::<Seq<char>>::empty());
    }

    let mut head = "[".to_owned();
    let idx = u64_to_string(elem.index as u64);
    head.append(idx.as_str());
    head.append("] ");
    head.append(elem.class_short.as_str());
    let ghost before0 = parts@.map_values(|p: String| p@);
    parts.push(head);
    proof {
        assert(parts@.map_values(|p: String| p@) =~= before0.push("["@ + crate::util::dec_digits(
            elem.index as int) + "] "@ + e.class_short));
    }

    let tlen = elem.text.as_str().unicode_len();
    if tlen > 0 {
        let mut qt = "\"".to_owned();
        if tlen > 80 {
            let tv = str_chars(elem.text.as_str());
            let cut = copy_range(&tv, 0, 77);
            let cs = chars_to_string(&cut);
            qt.append(cs.as_str());
            qt.append("\u{2026}\"");
        } else {
            qt.append(elem.text.as_str());
            qt.append("\"");
        }
        let ghost before1 = parts@.map_values(|p: String| p@);
        parts.push(qt);
        proof {
            assert(parts@.map_values(|p: String| p@) =~= before1.push(spec_quoted_text(e.text)));
        }
    }

    let mut center = "@(".to_owned();
    let cx = i64_to_string(elem.center.0 as i64);
    center.append(cx.as_str());
    center.append(",");
    let cy = i64_to_string(elem.center.1 as i64);
    center.append(cy.as_str());
    center.append(")");
    let ghost before2 = parts@.map_values(|p: String| p@);
    parts.push(center);
    proof {
        assert(parts@.map_values(|p: String| p@) =~= before2.push("@("@ + crate::util::dec_int(
            e.center_x) + ","@ + crate::util::dec_int(e.center_y) + ")"@));
    }

    let mut flags: Vec<String> = Vec::new();
    proof {
        assert(flags@.map_values(|f: String| f@) =~= Seq::<Seq<char>>::empty());
    }
    if elem.clickable {
        let ghost fb = flags@.map_values(|f: String| f@);
        flags.push("clickable".to_owned());
        proof {
            assert(flags@.map_values(|f: String| f@) =~= fb.push("clickable"@));
        }
    }
    if elem.long_clickable {
        let ghost fb = flags@.map_values(|f: String| f@);
        flags.push("long-clickable".to_owned());
        proof {
            assert(flags@.map_values(|f: String| f@) =~= fb.push("long-clickable"@));
        }
    }
    if elem.editable {
        let ghost fb = flags@.map_values(|f: String| f@);
        flags.push("editable".to_owned());
        proof {
            assert(flags@.map_values(|f: String| f@) =~= fb.push("editable"@));
        }
    }
    if elem.scrollable {
        let ghost fb = flags@.map_values(|f: String| f@);
        flags.push("scrollable".to_owned());
        proof {
            assert(flags@.map_values(|f: String| f@) =~= fb.push("scrollable"@));
        }
    }
    if elem.checkable {
        let ghost fb = flags@.map_values(|f: String| f@);
        if elem.checked {
            flags.push("checked".to_owned());
            proof {
                assert(flags@.map_values(|f: String| f@) =~= fb.push("checked"@));
            }
        } else {
            flags.push("unchecked".to_owned());
            proof {
                assert(flags@.map_values(|f: String| f@) =~= fb.push("unchecked"@));
            }
        }
    }
    if elem.selected {
        let ghost fb = flags@.map_values(|f: String| f@);
        flags.push("selected".to_owned());
        proof {
            assert(flags@.map_values(|f: String| f@) =~= fb.push("selected"@));
        }
    }
    if !elem.enabled {
        let ghost fb = flags@.map_values(|f: String| f@);
        flags.push("disabled".to_owned());
        proof {
            assert(flags@.map_values(|f: String| f@) =~= fb.push("disabled"@));
        }
    }
    proof {
        assert(flags@.map_values(|f: String| f@) == spec_sflags(e));
    }
    if flags.len() > 0 {
        let joined = crate::perception::join_strings(&flags, " ");
        let ghost before3 = parts@.map_values(|p: String| p@);
        parts.push(joined);
        proof {
            assert(parts@.map_values(|p: String| p@) =~= before3.push(
                crate::perception::spec_join(spec_sflags(e), " "@)));
        }
    }

    let dlen = elem.content_desc.as_str().unicode_len();
    if tlen == 0 && dlen > 0 {
        let mut dp = "desc:\"".to_owned();
        if dlen > 60 {
            let dv = str_chars(elem.content_desc.as_str());
            let cut = copy_range(&dv, 0, 57);
            let cs = chars_to_string(&cut);
            dp.append(cs.as_str());
            dp.append("\u{2026}\"");
        } else {
            dp.append(elem.content_desc.as_str());
            dp.append("\"");
        }
        let ghost before4 = parts@.map_values(|p: String| p@);
        parts.push(dp);
        proof {
            assert(parts@.map_values(|p: String| p@) =~= before4.push(spec_desc_part(
                e.content_desc)));
        }
    }

    let rid = elem.resource_id_short.as_str();
    if !rid.is_empty() && !str_eq(rid, "content") && !str_eq(rid, "text") && !str_eq(
        rid,
        "title",
    ) {
        let mut ip = "id:".to_owned();
        ip.append(rid);
        let ghost before5 = parts@.map_values(|p: String| p@);
        parts.push(ip);
        proof {
            assert(parts@.map_values(|p: String| p@) =~= before5.push(
                "id:"@ + e.resource_id_short));
        }
    }
    proof {
        assert(parts@.map_values(|p: String| p@) == spec_elem_parts(e, elem.index as int));
    }
    crate::perception::join_strings(&parts, " ")
}

/// The element block of a formatted screen: one line per element, each
/// ending in a newline.
pub open spec fn spec_element_block(l: Seq<SElemView>, idxs: Seq<int>) -> Seq<char>
    decreases l.len(),
{
    if l.len() == 0 {
        Seq::empty()
    } else {
        spec_format_element(l[0], idxs[0]) + "\n"@ + spec_element_block(l.drop_first(),
            idxs.drop_first())
    }
}

/// The header and element list sent to the model for one sanitized screen.
pub open spec fn spec_format_for_llm(
    elems: Seq<SElemView>,
    idxs: Seq<int>,
    total_found: int,
    interactive: int,
    foreground: Option<Seq<char>>,
    needs_fallback: bool,
    resolution: Option<(u32, u32)>,
) -> Seq<char> {
    let app_line: Seq<char> = match foreground {
        Some(p) => "App: "@ + p + "\n"@,
        None => Seq::empty(),
    };
    let res_line: Seq<char> = match resolution {
        Some(r) => "Screen: "@ + crate::util::dec_digits(r.0 as int) + "x"@
            + crate::util::dec_digits(r.1 as int) + "\n"@,
        None => Seq::empty(),
    };
    let count_line = "Elements: "@ + crate::util::dec_digits(elems.len() as int) + " shown / "@
        + crate::util::dec_digits(total_found) + " total ("@ + crate::util::dec_digits(
        interactive) + " interactive)\n"@;
    let warn_line: Seq<char> = if needs_fallback {
        "Sparse accessibility tree - screenshot included for context\n"@
    } else {
        Seq::empty()
    };
    app_line + res_line + count_line + warn_line + "\n"@ + spec_element_block(elems, idxs)
}

/// Format the sanitized screen as the model's text representation; see
/// `spec_format_for_llm`.
#[verifier::loop_isolation(false)]
#[verifier::rlimit(100)]
#[verifier::spinoff_prover]
pub fn format_for_llm(screen: &SanitizedScreen, resolution: Option<(u32, u32)>) -> (r: String)
    ensures
        r@ == spec_format_for_llm(sev_seq(screen.elements@),
            Seq::new(screen.elements@.len(), |i: int| screen.elements@[i].index as int),
            screen.total_found as int, screen.interactive_count as int,
            match screen.foreground_package {
                Some(p) => Some(p@),
                None => None,
            }, screen.needs_vision_fallback, resolution),
{
    let mut out = String::new();
    proof {
        assert(out@ =~= Seq::<char>::empty());
    }
    match &screen.foreground_package {
        Some(p) => {
            out.append("App: ");
            out.append(p.as_str());
            out.append("\n");
        },
        None => {},
    }
    match resolution {
        Some((w, h)) => {
            out.append("Screen: ");
            let ws = u64_to_string(w as u64);
            out.append(ws.as_str());
            out.append("x");
            let hs = u64_to_string(h as u64);
            out.append(hs.as_str());
            out.append("\n");
        },
        None => {},
    }
    out.append("Elements: ");
    let shown = u64_to_string(screen.elements.len() as u64);
    out.append(shown.as_str());
    out.append(" shown / ");
    let total = u64_to_string(screen.total_found as u64);
    out.append(total.as_str());
    out.append(" total (");
    let inter = u64_to_string(screen.interactive_count as u64);
    out.append(inter.as_str());
    out.append(" interactive)\n");
    if screen.needs_vision_fallback {
        out.append("Sparse accessibility tree - screenshot included for context\n");
    }
    out.append("\n");

    let ghost evs = sev_seq(screen.elements@);
    let ghost idxs = Seq::new(screen.elements@.len(), |i: int| screen.elements@[i].index as int);
    let ghost header = out@;
    proof {
        assert(evs.skip(0) =~= evs);
        assert(idxs.skip(0) =~= idxs);
    }
    let n = screen.elements.len();
    let mut i: usize = 0;
    while i < n
        invariant
            i <= n,
            out@ + spec_element_block(evs.skip(i as int), idxs.skip(i as int)) == header
                + spec_element_block(evs, idxs),
        decreases n - i,
    {
        proof {
            assert(evs.skip(i as int)[0] == evs[i as int]);
            assert(idxs.skip(i as int)[0] == idxs[i as int]);
            assert(evs.skip(i as int).drop_first() =~= evs.skip(i + 1));
            assert(idxs.skip(i as int).drop_first() =~= idxs.skip(i + 1));
        }
        let line = format_element(&screen.elements[i]);
        out.append(line.as_str());
        out.append("\n");
        i += 1;
    }
    proof {
        assert(evs.skip(n as int) =~= Seq::<SElemView>::empty());
        assert(idxs.skip(n as int) =~= Seq::<int>::empty());
        assert(spec_element_block(evs.skip(n as int), idxs.skip(n as int)) =~= Seq::<
            char,
        >::empty());
        assert(out@ =~= out@ + Seq::<char>::empty());
    }
    out
}


/// Whether a perception pass should capture a screenshot: never when vision
/// is off, always when it is on, and on sparse trees in fallback mode.
pub open spec fn spec_need_screenshot(mode: VisionMode, needs_fallback: bool) -> bool {
    match mode {
        VisionMode::Off => false,
        VisionMode::Always => true,
        VisionMode::Fallback => needs_fallback,
    }
}

/// Decide whether this perception pass captures a screenshot.
pub fn need_screenshot(mode: VisionMode, needs_fallback: bool) -> (r: bool)
    ensures
        r == spec_need_screenshot(mode, needs_fallback),
{
    match mode {
        VisionMode::Off => false,
        VisionMode::Always => true,
        VisionMode::Fallback => needs_fallback,
    }
}

} // verus!
