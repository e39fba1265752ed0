//! Perception: turn raw accessibility-tree dumps, notification dumps and
//! activity dumps into structured, ranked data for the model.

use vstd::prelude::*;
use crate::util::{
    str_chars, chars_to_string, copy_range, extend_chars, spec_find, find_sub_from, split_by,
    split_chars, lemma_spec_find_bounds, parse_i32_opt, parse_i32_chars, is_digit, seq_contains,
    starts_with, has_prefix, contains_sub, take_chars, take_prefix, str_eq,
};

verus! {

// ── Data types ──────────────────────────────────────────────────────────────

/// A notification observed on the device.
pub struct Notification {
    pub id: String,
    pub app: String,
    pub title: String,
    pub text: String,
    pub timestamp: String,
}

/// One screen observation: foreground app, structured elements, optional
/// screenshot.
pub struct ScreenState {
    pub current_app: String,
    pub activity: String,
    /// Formatted UI tree string (fallback representation).
    pub ui_tree: Option<String>,
    /// Structured, numbered UI elements parsed from the accessibility tree.
    pub elements: Vec<UiElement>,
    pub screenshot_base64: Option<String>,
    pub timestamp: String,
}

/// A single interactive UI element extracted from the accessibility tree.
/// The model references elements by `index` and taps at `center_x`,
/// `center_y`.
pub struct UiElement {
    /// Stable 1-based index for this screen dump.
    pub index: usize,
    /// Short class name (for example "TextView" or "EditText").
    pub class: String,
    /// Visible text content.
    pub text: String,
    /// Content description (accessibility label).
    pub desc: String,
    /// Resource identifier, short form.
    pub resource_id: String,
    /// Center X coordinate in absolute pixels.
    pub center_x: i32,
    /// Center Y coordinate in absolute pixels.
    pub center_y: i32,
    /// Bounding box: left, top, right, bottom.
    pub bounds: [i32; 4],
    pub clickable: bool,
    pub editable: bool,
    pub focused: bool,
    pub scrollable: bool,
    pub checked: Option<bool>,
    pub enabled: bool,
    /// Relevance score in tenths of a point (higher is more useful).
    pub score: i64,
}

/// Maximum UI elements sent to the model per step.
pub const MAX_ELEMENTS: usize = 40;

// ── Views ───────────────────────────────────────────────────────────────────

/// The mathematical content of a parsed element, index aside.
pub ghost struct ElemView {
    pub class: Seq<char>,
    pub text: Seq<char>,
    pub desc: Seq<char>,
    pub resource_id: Seq<char>,
    pub center_x: int,
    pub center_y: int,
    pub bounds: Seq<int>,
    pub clickable: bool,
    pub editable: bool,
    pub focused: bool,
    pub scrollable: bool,
    pub checked: Option<bool>,
    pub enabled: bool,
    pub score: int,
}

/// The view of a concrete element (its index is not part of the content).
pub open spec fn elem_view(e: UiElement) -> ElemView {
    ElemView {
        class: e.class@,
        text: e.text@,
        desc: e.desc@,
        resource_id: e.resource_id@,
        center_x: e.center_x as int,
        center_y: e.center_y as int,
        bounds: e.bounds@.map_values(|b: i32| b as int),
        clickable: e.clickable,
        editable: e.editable,
        focused: e.focused,
        scrollable: e.scrollable,
        checked: e.checked,
        enabled: e.enabled,
        score: e.score as int,
    }
}

// ── XML attributes ──────────────────────────────────────────────────────────

/// The value of `attr="..."` in a tag text: the characters between the quote
/// after the first `attr="` and the next quote; an absent or empty value
/// yields nothing.
pub open spec fn spec_xml_attr(s: Seq<char>, attr: Seq<char>) -> Option<Seq<char>> {
    let needle = attr + "=\""@;
    match spec_find(s, needle, 0) {
        None => None,
        Some(idx) => {
            let start = idx + needle.len();
            match spec_find(s, "\""@, start) {
                None => None,
                Some(end) => {
                    let val = s.subrange(start, end);
                    if val.len() == 0 {
                        None
                    } else {
                        Some(val)
                    }
                },
            }
        },
    }
}

/// Extract an XML attribute value from a tag text; empty values count as
/// absent.
pub fn xml_attr_chars(s: &Vec<char>, attr: &Vec<char>) -> (r: Option<Vec<char>>)
    ensures
        match r {
            Some(v) => spec_xml_attr(s@, attr@) == Some(v@),
            None => spec_xml_attr(s@, attr@) is None,
        },
{
    let mut needle: Vec<char> = Vec::new();
    extend_chars(&mut needle, attr);
    needle.push('=');
    needle.push('"');
    proof {
        reveal_strlit("=\"");
        assert(needle@ =~= attr@ + "=\""@);
    }
    let idx = match find_sub_from(s, &needle, 0) {
        Some(i) => i,
        None => {
            return None;
        },
    };
    let slen = s.len();
    let start = idx + needle.len();
    proof {
        lemma_spec_find_bounds(s@, needle@, 0);
    }
    let mut quote: Vec<char> = Vec::new();
    quote.push('"');
    proof {
        reveal_strlit("\"");
        assert(quote@ =~= "\""@);
    }
    let end = match find_sub_from(s, &quote, start) {
        Some(e) => e,
        None => {
            return None;
        },
    };
    proof {
        lemma_spec_find_bounds(s@, quote@, start as int);
    }
    let val = copy_range(s, start, end);
    if val.len() == 0 {
        None
    } else {
        Some(val)
    }
}

/// The convenience form on plain strings.
pub fn xml_attr(s: &str, attr: &str) -> (r: Option<String>)
    ensures
        match r {
            Some(v) => spec_xml_attr(s@, attr@) == Some(v@),
            None => spec_xml_attr(s@, attr@) is None,
        },
{
    let sv = str_chars(s);
    let av = str_chars(attr);
    match xml_attr_chars(&sv, &av) {
        Some(v) => Some(chars_to_string(&v)),
        None => None,
    }
}

/// A boolean attribute: present and literally "true".
pub open spec fn spec_bool_attr(s: Seq<char>, attr: Seq<char>) -> bool {
    match spec_xml_attr(s, attr) {
        Some(v) => v == "true"@,
        None => false,
    }
}

/// A boolean attribute that defaults to `true` when absent.
pub open spec fn spec_bool_attr_or(s: Seq<char>, attr: Seq<char>, dflt: bool) -> bool {
    match spec_xml_attr(s, attr) {
        Some(v) => v == "true"@,
        None => dflt,
    }
}

/// Read a boolean attribute with a default for absence.
fn bool_attr_or(s: &Vec<char>, attr: &Vec<char>, dflt: bool) -> (r: bool)
    ensures
        r == spec_bool_attr_or(s@, attr@, dflt),
{
    match xml_attr_chars(s, attr) {
        Some(v) => {
            let t = str_chars("true");
            chars_eq(&v, &t)
        },
        None => dflt,
    }
}

/// Whether two character vectors hold the same sequence.
fn chars_eq(a: &Vec<char>, b: &Vec<char>) -> (r: bool)
    ensures
        r == (a@ == b@),
{
    let n = a.len();
    if n != b.len() {
        assert(a@.len() != b@.len());
        return false;
    }
    let mut i: usize = 0;
    while i < n
        invariant
            i <= n,
            n == a@.len() == b@.len(),
            forall|k: int| 0 <= k < i ==> a@[k] == b@[k],
        decreases n - i,
    {
        if a[i] != b[i] {
            return false;
        }
        i += 1;
    }
    assert(a@ =~= b@);
    true
}

// ── Bounds parsing ──────────────────────────────────────────────────────────

/// Finish a number run: parse it as a 32-bit integer and append on success.
pub open spec fn flush_num(acc: Seq<int>, cur: Seq<char>) -> Seq<int> {
    if cur.len() == 0 {
        acc
    } else {
        match parse_i32_opt(cur) {
            Some(n) => acc.push(n as int),
            None => acc,
        }
    }
}

/// Scan a text for maximal runs of digits and minus signs and parse each run.
pub open spec fn scan_nums(s: Seq<char>, cur: Seq<char>, acc: Seq<int>) -> Seq<int>
    decreases s.len(),
{
    if s.len() == 0 {
        flush_num(acc, cur)
    } else if is_digit(s[0]) || s[0] == '-' {
        scan_nums(s.drop_first(), cur.push(s[0]), acc)
    } else {
        scan_nums(s.drop_first(), Seq::empty(), flush_num(acc, cur))
    }
}

/// All numbers a bounds text holds, in order.
pub open spec fn spec_bounds_nums(s: Seq<char>) -> Seq<int> {
    scan_nums(s, Seq::empty(), Seq::empty())
}

/// The four bounds a text denotes, or all zeroes when fewer than four numbers
/// are present.
pub open spec fn spec_parse_bounds(s: Seq<char>) -> Seq<int> {
    let nums = spec_bounds_nums(s);
    if nums.len() >= 4 {
        nums.subrange(0, 4)
    } else {
        seq![0, 0, 0, 0]
    }
}

/// Collect the integers in a bounds text.
pub fn bounds_nums(v: &Vec<char>) -> (r: Vec<i32>)
    ensures
        r@.map_values(|x: i32| x as int) == spec_bounds_nums(v@),
{
    let n = v.len();
    let mut cur: Vec<char> = Vec::new();
    let mut acc: Vec<i32> = Vec::new();
    proof {
        assert(v@.skip(0) =~= v@);
        assert(acc@.map_values(|x: i32| x as int) =~= Seq::<int>::empty());
        assert(cur@ =~= Seq::<char>::empty());
    }
    let mut i: usize = 0;
    while i < n
        invariant
            i <= n,
            n == v@.len(),
            scan_nums(v@.skip(i as int), cur@, acc@.map_values(|x: i32| x as int))
                == spec_bounds_nums(v@),
        decreases n - i,
    {
        let ghost suffix = v@.skip(i as int);
        let c = v[i];
        proof {
            assert(suffix[0] == v@[i as int]);
            assert(suffix.drop_first() =~= v@.skip(i + 1));
        }
        if (c >= '0' && c <= '9') || c == '-' {
            cur.push(c);
        } else {
            let ghost acc_view = acc@.map_values(|x: i32| x as int);
            if cur.len() > 0 {
                match parse_i32_chars(&cur) {
                    Some(num) => {
                        acc.push(num);
                        proof {
                            assert(acc@.map_values(|x: i32| x as int) =~= acc_view.push(
                                num as int,
                            ));
                        }
                    },
                    None => {},
                }
            }
            cur = Vec::new();
            proof {
                assert(cur@ =~= Seq::<char>::empty());
            }
        }
        i += 1;
    }
    proof {
        assert(v@.skip(n as int) =~= Seq::<char>::empty());
    }
    let ghost acc_view = acc@.map_values(|x: i32| x as int);
    if cur.len() > 0 {
        match parse_i32_chars(&cur) {
            Some(num) => {
                acc.push(num);
                proof {
                    assert(acc@.map_values(|x: i32| x as int) =~= acc_view.push(num as int));
                }
            },
            None => {},
        }
    }
    acc
}

/// Parse a bounds string such as "[0,100][1080,200]" into its four numbers;
/// anything with fewer than four numbers yields all zeroes.
pub fn parse_bounds(bounds: &str) -> (r: [i32; 4])
    ensures
        r@.map_values(|x: i32| x as int) == spec_parse_bounds(bounds@),
{
    let v = str_chars(bounds);
    let nums = bounds_nums(&v);
    if nums.len() >= 4 {
        let r = [nums[0], nums[1], nums[2], nums[3]];
        proof {
            assert(r@.map_values(|x: i32| x as int) =~= spec_bounds_nums(bounds@).subrange(0, 4));
        }
        r
    } else {
        let r = [0i32, 0i32, 0i32, 0i32];
        proof {
            assert(r@.map_values(|x: i32| x as int) =~= seq![0int, 0int, 0int, 0int]);
        }
        r
    }
}

/// Truncating halving, as machine integer division rounds toward zero.
pub open spec fn half_trunc(a: int) -> int {
    if a >= 0 {
        a / 2
    } else {
        -((-a) / 2)
    }
}

/// The center a bounds text denotes, when its box has positive area.
pub open spec fn spec_bounds_center(s: Seq<char>) -> Option<(int, int)> {
    let b = spec_parse_bounds(s);
    if b[2] > b[0] && b[3] > b[1] {
        Some((half_trunc(b[0] + b[2]), half_trunc(b[1] + b[3])))
    } else {
        None
    }
}

/// Halve a sum of two 32-bit values, rounding toward zero.
pub fn center_of(a: i32, b: i32) -> (r: i32)
    ensures
        r as int == half_trunc(a as int + b as int),
{
    let sum: i64 = (a as i64) + (b as i64);
    let h: i64 = if sum >= 0 {
        sum / 2
    } else {
        -((-sum) / 2)
    };
    h as i32
}

/// The center point of a bounds string, when the box has positive area.
pub fn bounds_center(bounds: &str) -> (r: Option<(i32, i32)>)
    ensures
        match r {
            Some(c) => spec_bounds_center(bounds@) == Some((c.0 as int, c.1 as int)),
            None => spec_bounds_center(bounds@) is None,
        },
{
    let b = parse_bounds(bounds);
    proof {
        assert(b@.map_values(|x: i32| x as int)[0] == b@[0] as int);
        assert(b@.map_values(|x: i32| x as int)[1] == b@[1] as int);
        assert(b@.map_values(|x: i32| x as int)[2] == b@[2] as int);
        assert(b@.map_values(|x: i32| x as int)[3] == b@[3] as int);
    }
    if b[2] > b[0] && b[3] > b[1] {
        Some((center_of(b[0], b[2]), center_of(b[1], b[3])))
    } else {
        None
    }
}

// ── Field extraction ────────────────────────────────────────────────────────

/// A character that terminates a `prefix=value` field.
pub open spec fn is_field_end(c: char) -> bool {
    c == ' ' || c == ')' || c == '}' || c == ':'
}

/// The first field-terminator at or after `from`.
pub open spec fn spec_find_field_end(s: Seq<char>, from: int) -> int
    decreases s.len() - from,
{
    if from < 0 || from >= s.len() {
        s.len() as int
    } else if is_field_end(s[from]) {
        from
    } else {
        spec_find_field_end(s, from + 1)
    }
}

/// ASCII whitespace.
pub open spec fn is_ws(c: char) -> bool {
    c == ' ' || c == '\t' || c == '\r' || c == '\n'
}

/// `s` with leading whitespace dropped.
pub open spec fn trim_start(s: Seq<char>) -> Seq<char>
    decreases s.len(),
{
    if s.len() > 0 && is_ws(s[0]) {
        trim_start(s.drop_first())
    } else {
        s
    }
}

/// `s` with trailing whitespace dropped.
pub open spec fn trim_end(s: Seq<char>) -> Seq<char>
    decreases s.len(),
{
    if s.len() > 0 && is_ws(s[s.len() - 1]) {
        trim_end(s.drop_last())
    } else {
        s
    }
}

/// `s` with surrounding whitespace dropped.
pub open spec fn spec_trim(s: Seq<char>) -> Seq<char> {
    trim_end(trim_start(s))
}

/// Drop surrounding whitespace from a character vector.
pub fn trim_chars(v: &Vec<char>) -> (r: Vec<char>)
    ensures
        r@ == spec_trim(v@),
{
    let n = v.len();
    proof {
        assert(v@.skip(0) =~= v@);
    }
    let mut lo: usize = 0;
    while lo < n && (v[lo] == ' ' || v[lo] == '\t' || v[lo] == '\r' || v[lo] == '\n')
        invariant
            lo <= n,
            n == v@.len(),
            trim_start(v@) == trim_start(v@.skip(lo as int)),
        decreases n - lo,
    {
        proof {
            let suffix = v@.skip(lo as int);
            assert(suffix[0] == v@[lo as int]);
            assert(suffix.drop_first() =~= v@.skip(lo + 1));
        }
        lo += 1;
    }
    proof {
        let suffix = v@.skip(lo as int);
        if lo < n {
            assert(suffix[0] == v@[lo as int]);
        }
        assert(trim_start(v@) == suffix);
    }
    let mut hi: usize = n;
    while hi > lo && (v[hi - 1] == ' ' || v[hi - 1] == '\t' || v[hi - 1] == '\r' || v[hi - 1]
        == '\n')
        invariant
            lo <= hi <= n,
            n == v@.len(),
            trim_start(v@) == v@.skip(lo as int),
            trim_end(v@.skip(lo as int)) == trim_end(v@.subrange(lo as int, hi as int)),
        decreases hi,
    {
        proof {
            let piece = v@.subrange(lo as int, hi as int);
            assert(piece[piece.len() - 1] == v@[hi - 1]);
            assert(piece.drop_last() =~= v@.subrange(lo as int, hi - 1));
        }
        hi -= 1;
    }
    proof {
        let piece = v@.subrange(lo as int, hi as int);
        if hi > lo {
            assert(piece[piece.len() - 1] == v@[hi - 1]);
        }
        assert(trim_end(v@.skip(lo as int)) == piece);
    }
    copy_range(v, lo, hi)
}

/// The value following `prefix` on a line, cut at the first space, bracket or
/// colon and trimmed; empty values count as absent.
pub open spec fn spec_extract_field(line: Seq<char>, prefix: Seq<char>) -> Option<Seq<char>> {
    match spec_find(line, prefix, 0) {
        None => None,
        Some(idx) => {
            let start = idx + prefix.len();
            let end = spec_find_field_end(line, start);
            let val = spec_trim(line.subrange(start, end));
            if val.len() == 0 {
                None
            } else {
                Some(val)
            }
        },
    }
}

// ── Scoring ─────────────────────────────────────────────────────────────────

/// The score boost certain widget classes receive.
pub open spec fn spec_class_bonus(class: Seq<char>) -> int {
    if class == "Button"@ || class == "ImageButton"@ {
        20
    } else if class == "EditText"@ || class == "AutoCompleteTextView"@ {
        30
    } else if class == "CheckBox"@ || class == "Switch"@ || class == "ToggleButton"@ || class
        == "RadioButton"@ {
        20
    } else if class == "TextView"@ {
        5
    } else if class == "RecyclerView"@ || class == "ListView"@ || class == "ScrollView"@ {
        5
    } else {
        0
    }
}

/// The relevance score of an element, in tenths of a point: interactive
/// elements first (editable over clickable), then textual content, with
/// class-based boosts, size bonuses and penalties for disabled or tiny
/// elements.
pub open spec fn spec_score(
    text: Seq<char>,
    desc: Seq<char>,
    rid: Seq<char>,
    class: Seq<char>,
    clickable: bool,
    editable: bool,
    focused: bool,
    scrollable: bool,
    enabled: bool,
    bounds: Seq<int>,
) -> int {
    let content: int = (if text.len() > 0 {
        30int
    } else {
        0int
    }) + (if desc.len() > 0 {
        20int
    } else {
        0int
    }) + (if rid.len() > 0 {
        10int
    } else {
        0int
    });
    let interact: int = (if clickable {
        40int
    } else {
        0int
    }) + (if editable {
        50int
    } else {
        0int
    }) + (if focused {
        30int
    } else {
        0int
    }) + (if scrollable {
        15int
    } else {
        0int
    }) + (if !enabled {
        -20int
    } else {
        0int
    });
    let class_bonus: int = spec_class_bonus(class);
    let w = bounds[2] - bounds[0];
    let h = bounds[3] - bounds[1];
    let area = w * h;
    let size_bonus: int = (if area > 50000 {
        10int
    } else {
        0int
    }) + (if area > 200000 {
        5int
    } else {
        0int
    }) + (if w < 20 || h < 20 {
        -30int
    } else {
        0int
    });
    content + interact + class_bonus + size_bonus
}

/// The class-based score boost; see `spec_class_bonus`.
fn class_bonus_of(class: &str) -> (b: i64)
    ensures
        b as int == spec_class_bonus(class@),
{
    if str_eq(class, "Button") || str_eq(class, "ImageButton") {
        20
    } else if str_eq(class, "EditText") || str_eq(class, "AutoCompleteTextView") {
        30
    } else if str_eq(class, "CheckBox") || str_eq(class, "Switch") || str_eq(class, "ToggleButton")
        || str_eq(class, "RadioButton") {
        20
    } else if str_eq(class, "TextView") {
        5
    } else if str_eq(class, "RecyclerView") || str_eq(class, "ListView") || str_eq(
        class,
        "ScrollView",
    ) {
        5
    } else {
        0
    }
}

/// Score an element by how useful it is to the model; see `spec_score`.
#[verifier::rlimit(100)]
pub fn score_element(
    text: &str,
    desc: &str,
    resource_id: &str,
    class: &str,
    clickable: bool,
    editable: bool,
    focused: bool,
    scrollable: bool,
    enabled: bool,
    bounds: &[i32; 4],
) -> (s: i64)
    ensures
        s as int == spec_score(text@, desc@, resource_id@, class@, clickable, editable, focused,
            scrollable, enabled, bounds@.map_values(|b: i32| b as int)),
{
    let ghost bv = bounds@.map_values(|b: i32| b as int);
    proof {
        assert(bv[0] == bounds@[0] as int);
        assert(bv[1] == bounds@[1] as int);
        assert(bv[2] == bounds@[2] as int);
        assert(bv[3] == bounds@[3] as int);
    }
    let c1: i64 = if !text.is_empty() {
        30
    } else {
        0
    };
    let c2: i64 = if !desc.is_empty() {
        20
    } else {
        0
    };
    let c3: i64 = if !resource_id.is_empty() {
        10
    } else {
        0
    };
    let content = c1 + c2 + c3;
    let i1: i64 = if clickable {
        40
    } else {
        0
    };
    let i2: i64 = if editable {
        50
    } else {
        0
    };
    let i3: i64 = if focused {
        30
    } else {
        0
    };
    let i4: i64 = if scrollable {
        15
    } else {
        0
    };
    let i5: i64 = if !enabled {
        -20
    } else {
        0
    };
    let interact = i1 + i2 + i3 + i4 + i5;
    let class_bonus: i64 = class_bonus_of(class);
    let w: i64 = (bounds[2] as i64) - (bounds[0] as i64);
    let h: i64 = (bounds[3] as i64) - (bounds[1] as i64);
    proof {
        assert((w as int) * (h as int) <= 0x10000000000000000 && (w as int) * (h as int)
            >= -0x10000000000000000) by (nonlinear_arith)
            requires
                -0x100000000 <= w as int <= 0x100000000,
                -0x100000000 <= h as int <= 0x100000000,
        ;
    }
    let area: i128 = (w as i128) * (h as i128);
    let s1: i64 = if area > 50000 {
        10
    } else {
        0
    };
    let s2: i64 = if area > 200000 {
        5
    } else {
        0
    };
    let s3: i64 = if w < 20 || h < 20 {
        -30
    } else {
        0
    };
    let size_bonus = s1 + s2 + s3;
    content + interact + class_bonus + size_bonus
}

// ── Node candidates ─────────────────────────────────────────────────────────

/// An attribute value, or the empty text when absent.
pub open spec fn attr_or_empty(c: Seq<char>, attr: Seq<char>) -> Seq<char> {
    match spec_xml_attr(c, attr) {
        Some(v) => v,
        None => Seq::empty(),
    }
}

/// The part of `s` after the last occurrence of `c`, or nothing without one.
pub open spec fn after_last(s: Seq<char>, c: char) -> Option<Seq<char>> {
    match crate::util::spec_rfind_char(s, c) {
        Some(i) => Some(s.subrange(i + 1, s.len() as int)),
        None => None,
    }
}

/// The element a node chunk denotes: its attributes, center, flags and score;
/// nothing for header chunks, info-free nodes and zero-area nodes.
pub open spec fn chunk_element(c: Seq<char>) -> Option<ElemView> {
    if c.len() == 0 || starts_with(c, "?xml"@) || starts_with(c, "hierarchy"@) {
        None
    } else {
        let text_full = attr_or_empty(c, "text"@);
        let desc_full = attr_or_empty(c, "content-desc"@);
        let rid_full = attr_or_empty(c, "resource-id"@);
        let resource_id = match after_last(rid_full, '/') {
            Some(v) => v,
            None => Seq::empty(),
        };
        let class_full = attr_or_empty(c, "class"@);
        let class_short = match after_last(class_full, '.') {
            Some(v) => v,
            None => class_full,
        };
        let clickable = spec_bool_attr(c, "clickable"@);
        let focused = spec_bool_attr(c, "focused"@);
        let scrollable = spec_bool_attr(c, "scrollable"@);
        let enabled = spec_bool_attr_or(c, "enabled"@, true);
        let checked = match spec_xml_attr(c, "checked"@) {
            Some(v) => Some(v == "true"@),
            None => None,
        };
        let b = spec_parse_bounds(attr_or_empty(c, "bounds"@));
        let editable = seq_contains(class_full, "EditText"@) || seq_contains(class_full,
            "AutoCompleteTextView"@) || spec_bool_attr(c, "password"@);
        let has_info = text_full.len() > 0 || desc_full.len() > 0 || clickable || editable
            || resource_id.len() > 0 || focused || scrollable;
        let has_area = b[2] > b[0] && b[3] > b[1];
        if !has_info || !has_area {
            None
        } else {
            Some(ElemView {
                class: class_short,
                text: take_chars(text_full, 100),
                desc: take_chars(desc_full, 80),
                resource_id: resource_id,
                center_x: half_trunc(b[0] + b[2]),
                center_y: half_trunc(b[1] + b[3]),
                bounds: b,
                clickable,
                editable,
                focused,
                scrollable,
                checked,
                enabled,
                score: spec_score(text_full, desc_full, resource_id, class_short, clickable,
                    editable, focused, scrollable, enabled, b),
            })
        }
    }
}

/// The elements all chunks denote, in order.
pub open spec fn spec_candidates(chunks: Seq<Seq<char>>) -> Seq<ElemView>
    decreases chunks.len(),
{
    if chunks.len() == 0 {
        Seq::empty()
    } else {
        let rest = spec_candidates(chunks.drop_first());
        match chunk_element(chunks[0]) {
            Some(e) => seq![e] + rest,
            None => rest,
        }
    }
}

/// The dump text from its XML header or hierarchy root on.
pub open spec fn spec_trim_xml(s: Seq<char>) -> Seq<char> {
    match spec_find(s, "<?xml"@, 0) {
        Some(i) => s.skip(i),
        None => match spec_find(s, "<hierarchy"@, 0) {
            Some(i) => s.skip(i),
            None => s,
        },
    }
}

/// Every element a dump denotes, before ranking and capping.
pub open spec fn spec_ui_candidates(xml: Seq<char>) -> Seq<ElemView> {
    spec_candidates(split_by(spec_trim_xml(xml), "<node "@))
}

/// Parse one node chunk into an element, index zero.
#[verifier::rlimit(100)]
#[verifier::spinoff_prover]
fn parse_node_chunk(c: &Vec<char>) -> (r: Option<UiElement>)
    ensures
        match r {
            Some(e) => chunk_element(c@) == Some(elem_view(e)) && e.index == 0,
            None => chunk_element(c@) is None,
        },
{
    if c.len() == 0 {
        return None;
    }
    if has_prefix(c, &str_chars("?xml")) || has_prefix(c, &str_chars("hierarchy")) {
        return None;
    }
    let empty_chars: Vec<char> = Vec::new();
    proof {
        assert(empty_chars@ =~= Seq::<char>::empty());
    }

    let text_full = match xml_attr_chars(c, &str_chars("text")) {
        Some(v) => v,
        None => Vec::new(),
    };
    let desc_full = match xml_attr_chars(c, &str_chars("content-desc")) {
        Some(v) => v,
        None => Vec::new(),
    };
    let rid_full = match xml_attr_chars(c, &str_chars("resource-id")) {
        Some(v) => v,
        None => Vec::new(),
    };
    proof {
        assert(text_full@ == attr_or_empty(c@, "text"@));
        assert(desc_full@ == attr_or_empty(c@, "content-desc"@));
        assert(rid_full@ == attr_or_empty(c@, "resource-id"@));
    }
    let rid_len = rid_full.len();
    let resource_id = match crate::util::rfind_char(&rid_full, '/') {
        Some(i) => copy_range(&rid_full, i + 1, rid_len),
        None => Vec::new(),
    };
    proof {
        assert(resource_id@ == (match after_last(rid_full@, '/') {
            Some(v) => v,
            None => Seq::<char>::empty(),
        }));
    }
    let class_full = match xml_attr_chars(c, &str_chars("class")) {
        Some(v) => v,
        None => Vec::new(),
    };
    proof {
        assert(class_full@ == attr_or_empty(c@, "class"@));
    }
    let class_len = class_full.len();
    let class_short = match crate::util::rfind_char(&class_full, '.') {
        Some(i) => copy_range(&class_full, i + 1, class_len),
        None => copy_range(&class_full, 0, class_len),
    };
    proof {
        assert(class_full@.subrange(0, class_full@.len() as int) =~= class_full@);
    }

    let clickable = bool_attr_or(c, &str_chars("clickable"), false);
    let focused = bool_attr_or(c, &str_chars("focused"), false);
    let scrollable = bool_attr_or(c, &str_chars("scrollable"), false);
    let enabled = bool_attr_or(c, &str_chars("enabled"), true);
    let checked: Option<bool> = match xml_attr_chars(c, &str_chars("checked")) {
        Some(v) => {
            let t = str_chars("true");
            Some(chars_eq(&v, &t))
        },
        None => None,
    };
    let bounds_text = match xml_attr_chars(c, &str_chars("bounds")) {
        Some(v) => v,
        None => Vec::new(),
    };
    proof {
        assert(bounds_text@ == attr_or_empty(c@, "bounds"@));
    }
    let bounds_str = chars_to_string(&bounds_text);
    let b = parse_bounds(bounds_str.as_str());
    let ghost bv = b@.map_values(|x: i32| x as int);
    proof {
        assert(bv == spec_parse_bounds(attr_or_empty(c@, "bounds"@)));
        assert(bv[0] == b@[0] as int && bv[1] == b@[1] as int && bv[2] == b@[2] as int && bv[3]
            == b@[3] as int);
        assert(bv.len() == 4);
    }

    let editable = contains_sub(&class_full, &str_chars("EditText")) || contains_sub(
        &class_full,
        &str_chars("AutoCompleteTextView"),
    ) || bool_attr_or(c, &str_chars("password"), false);

    let has_info = text_full.len() > 0 || desc_full.len() > 0 || clickable || editable
        || resource_id.len() > 0 || focused || scrollable;
    let has_area = b[2] > b[0] && b[3] > b[1];
    if !has_info || !has_area {
        return None;
    }

    let text_str = chars_to_string(&text_full);
    let desc_str = chars_to_string(&desc_full);
    let rid_str = chars_to_string(&resource_id);
    let class_str = chars_to_string(&class_short);
    let score = score_element(text_str.as_str(), desc_str.as_str(), rid_str.as_str(),
        class_str.as_str(), clickable, editable, focused, scrollable, enabled, &b);

    let text_cut = take_prefix(&text_full, 100);
    let desc_cut = take_prefix(&desc_full, 80);

    let e = UiElement {
        index: 0,
        class: class_str,
        text: chars_to_string(&text_cut),
        desc: chars_to_string(&desc_cut),
        resource_id: rid_str,
        center_x: center_of(b[0], b[2]),
        center_y: center_of(b[1], b[3]),
        bounds: b,
        clickable,
        editable,
        focused,
        scrollable,
        checked,
        enabled,
        score,
    };
    proof {
        assert(elem_view(e).bounds == bv);
        assert(elem_view(e) == chunk_element(c@).unwrap());
    }
    Some(e)
}

// ── Ranking ─────────────────────────────────────────────────────────────────

/// The views of a sequence of elements.
pub open spec fn ev_seq(s: Seq<UiElement>) -> Seq<ElemView> {
    s.map_values(|e: UiElement| elem_view(e))
}

/// Reading order: top to bottom, then left to right, by center coordinates.
pub open spec fn pos_le(a: ElemView, b: ElemView) -> bool {
    a.center_y < b.center_y || (a.center_y == b.center_y && a.center_x <= b.center_x)
}

/// Sort elements by score, highest first (selection of a first maximum).
fn sort_by_score_desc(v: Vec<UiElement>) -> (r: Vec<UiElement>)
    ensures
        r@.len() == v@.len(),
        ev_seq(r@).to_multiset() == ev_seq(v@).to_multiset(),
        forall|i: int, j: int| 0 <= i < j < r@.len() ==> r@[i].score >= r@[j].score,
{
    let ghost orig_ms = ev_seq(v@).to_multiset();
    let ghost total = v@.len();
    let mut input = v;
    let mut out: Vec<UiElement> = Vec::new();
    proof {
        broadcast use vstd::seq_lib::group_to_multiset_ensures;

        assert(ev_seq(out@) =~= Seq::<ElemView>::empty());
        assert(ev_seq(out@).to_multiset().add(ev_seq(input@).to_multiset()) =~= orig_ms);
    }
    while input.len() > 0
        invariant
            out@.len() + input@.len() == total,
            ev_seq(out@).to_multiset().add(ev_seq(input@).to_multiset()) == orig_ms,
            forall|i: int, j: int| 0 <= i < j < out@.len() ==> out@[i].score >= out@[j].score,
            forall|i: int, j: int|
                0 <= i < out@.len() && 0 <= j < input@.len() ==> out@[i].score
                    >= input@[j].score,
        decreases input@.len(),
    {
        let n = input.len();
        let mut best: usize = 0;
        let mut k: usize = 1;
        while k < n
            invariant
                1 <= k <= n,
                best < k,
                n == input@.len(),
                forall|j: int| 0 <= j < k ==> input@[best as int].score >= input@[j].score,
            decreases n - k,
        {
            if input[k].score > input[best].score {
                best = k;
            }
            k += 1;
        }
        let ghost in_views = ev_seq(input@);
        let ghost out_views = ev_seq(out@);
        let e = input.remove(best);
        let ghost ev = elem_view(e);
        out.push(e);
        proof {
            broadcast use vstd::seq_lib::group_to_multiset_ensures;

            assert(ev_seq(input@) =~= in_views.remove(best as int));
            assert(ev_seq(out@) =~= out_views.push(ev));
            assert(in_views[best as int] == ev);
            assert(in_views.contains(ev));
            assert(in_views.to_multiset().count(ev) > 0);
            crate::util_seq::lemma_ms_transfer(out_views.to_multiset(),
                in_views.to_multiset(), ev);
        }
    }
    out
}

/// Sort elements into reading order (selection of a first minimum).
fn sort_by_position(v: Vec<UiElement>) -> (r: Vec<UiElement>)
    ensures
        r@.len() == v@.len(),
        ev_seq(r@).to_multiset() == ev_seq(v@).to_multiset(),
        forall|i: int, j: int|
            0 <= i < j < r@.len() ==> pos_le(ev_seq(r@)[i], ev_seq(r@)[j]),
{
    let ghost orig_ms = ev_seq(v@).to_multiset();
    let ghost total = v@.len();
    let mut input = v;
    let mut out: Vec<UiElement> = Vec::new();
    proof {
        broadcast use vstd::seq_lib::group_to_multiset_ensures;

        assert(ev_seq(out@) =~= Seq::<ElemView>::empty());
        assert(ev_seq(out@).to_multiset().add(ev_seq(input@).to_multiset()) =~= orig_ms);
    }
    while input.len() > 0
        invariant
            out@.len() + input@.len() == total,
            ev_seq(out@).to_multiset().add(ev_seq(input@).to_multiset()) == orig_ms,
            forall|i: int, j: int|
                0 <= i < j < out@.len() ==> pos_le(ev_seq(out@)[i], ev_seq(out@)[j]),
            forall|i: int, j: int|
                0 <= i < out@.len() && 0 <= j < input@.len() ==> pos_le(ev_seq(out@)[i],
                    ev_seq(input@)[j]),
        decreases input@.len(),
    {
        let n = input.len();
        let mut best: usize = 0;
        let mut k: usize = 1;
        while k < n
            invariant
                1 <= k <= n,
                best < k,
                n == input@.len(),
                forall|j: int|
                    0 <= j < k ==> pos_le(ev_seq(input@)[best as int], ev_seq(input@)[j]),
            decreases n - k,
        {
            let cand_less = input[k].center_y < input[best].center_y || (input[k].center_y
                == input[best].center_y && input[k].center_x < input[best].center_x);
            if cand_less {
                best = k;
            }
            k += 1;
        }
        let ghost in_views = ev_seq(input@);
        let ghost out_views = ev_seq(out@);
        let e = input.remove(best);
        let ghost ev = elem_view(e);
        out.push(e);
        proof {
            broadcast use vstd::seq_lib::group_to_multiset_ensures;

            assert(ev_seq(input@) =~= in_views.remove(best as int));
            assert(ev_seq(out@) =~= out_views.push(ev));
            assert(in_views[best as int] == ev);
            assert(in_views.contains(ev));
            assert(in_views.to_multiset().count(ev) > 0);
            crate::util_seq::lemma_ms_transfer(out_views.to_multiset(),
                in_views.to_multiset(), ev);
        }
    }
    out
}

/// Assign 1-based indices in the current order, touching nothing else.
fn assign_indices(v: Vec<UiElement>) -> (r: Vec<UiElement>)
    ensures
        r@.len() == v@.len(),
        forall|i: int| 0 <= i < r@.len() ==> r@[i].index == i + 1,
        forall|i: int| 0 <= i < r@.len() ==> elem_view(r@[i]) == elem_view(v@[i]),
{
    let ghost orig = v@;
    let mut input = v;
    let n0 = input.len();
    let ghost total = n0 as int;
    let mut out: Vec<UiElement> = Vec::new();
    while input.len() > 0
        invariant
            total <= usize::MAX,
            out@.len() + input@.len() == total,
            forall|i: int| 0 <= i < out@.len() ==> out@[i].index == i + 1,
            forall|i: int| 0 <= i < out@.len() ==> elem_view(out@[i]) == elem_view(orig[i]),
            forall|j: int| 0 <= j < input@.len() ==> input@[j] == orig[out@.len() + j],
        decreases input@.len(),
    {
        let mut e = input.remove(0);
        e.index = out.len() + 1;
        out.push(e);
    }
    out
}

/// Parse an accessibility dump into ranked, numbered elements: all useful
/// non-zero-area nodes, capped at `MAX_ELEMENTS` by score, in reading order
/// with 1-based indices.  With at most `MAX_ELEMENTS` candidates the result
/// holds exactly the candidates.
pub fn parse_ui_elements(xml: &str) -> (r: Vec<UiElement>)
    ensures
        ({
            let cands = spec_ui_candidates(xml@);
            let views = ev_seq(r@);
            &&& r@.len() == (if cands.len() <= MAX_ELEMENTS as int {
                cands.len() as int
            } else {
                MAX_ELEMENTS as int
            })
            &&& forall|i: int| 0 <= i < r@.len() ==> r@[i].index == i + 1
            &&& forall|i: int, j: int| 0 <= i < j < r@.len() ==> pos_le(views[i], views[j])
            &&& forall|e: ElemView|
                #[trigger] views.to_multiset().count(e) <= cands.to_multiset().count(e)
            &&& cands.len() <= MAX_ELEMENTS as int ==> views.to_multiset()
                == cands.to_multiset()
            &&& forall|a: ElemView, b: ElemView|
                (#[trigger] views.to_multiset().count(a)) > 0 && (
                #[trigger] cands.to_multiset().sub(views.to_multiset()).count(b)) > 0 ==> a.score
                    >= b.score
        }),
{
    let v = str_chars(xml);
    let n = v.len();
    let header = str_chars("<?xml");
    let root = str_chars("<hierarchy");
    let start: usize = match find_sub_from(&v, &header, 0) {
        Some(i) => i,
        None => match find_sub_from(&v, &root, 0) {
            Some(i) => i,
            None => 0,
        },
    };
    proof {
        lemma_spec_find_bounds(v@, header@, 0);
        lemma_spec_find_bounds(v@, root@, 0);
    }
    let trimmed = copy_range(&v, start, n);
    proof {
        assert(v@.subrange(start as int, n as int) =~= v@.skip(start as int));
        assert(trimmed@ == spec_trim_xml(xml@));
    }
    let node_pat = str_chars("<node ");
    proof {
        reveal_strlit("<node ");
    }
    let chunks = split_chars(&trimmed, &node_pat);
    let ghost chunk_views = chunks@.map_values(|c: Vec<char>| c@);

    // Collect candidates.
    let m = chunks.len();
    let mut cands: Vec<UiElement> = Vec::new();
    proof {
        assert(chunk_views.skip(0) =~= chunk_views);
        assert(ev_seq(cands@) =~= Seq::<ElemView>::empty());
        assert(ev_seq(cands@) + spec_candidates(chunk_views) =~= spec_candidates(chunk_views));
    }
    let mut i: usize = 0;
    while i < m
        invariant
            i <= m,
            m == chunks@.len(),
            chunk_views == chunks@.map_values(|c: Vec<char>| c@),
            ev_seq(cands@) + spec_candidates(chunk_views.skip(i as int)) == spec_candidates(
                chunk_views,
            ),
        decreases m - i,
    {
        let ghost suffix = chunk_views.skip(i as int);
        proof {
            assert(suffix[0] == chunk_views[i as int]);
            assert(suffix.drop_first() =~= chunk_views.skip(i + 1));
        }
        let ghost cands_before = ev_seq(cands@);
        match parse_node_chunk(&chunks[i]) {
            Some(e) => {
                let ghost ev = elem_view(e);
                cands.push(e);
                proof {
                    assert(ev_seq(cands@) =~= cands_before.push(ev));
                    assert(cands_before.push(ev) + spec_candidates(chunk_views.skip(i + 1))
                        =~= cands_before + (seq![ev] + spec_candidates(
                        chunk_views.skip(i + 1),
                    )));
                }
            },
            None => {},
        }
        i += 1;
    }
    proof {
        assert(chunk_views.skip(m as int) =~= Seq::<Seq<char>>::empty());
        assert(ev_seq(cands@) + spec_candidates(chunk_views.skip(m as int)) =~= ev_seq(cands@));
        assert(ev_seq(cands@) == spec_ui_candidates(xml@));
    }
    let ghost cands_views = ev_seq(cands@);

    // Rank by score, cap, then restore reading order and number.
    let mut ranked = sort_by_score_desc(cands);
    let ghost ranked_full = ev_seq(ranked@);
    proof {
        assert forall|i: int, j: int|
            0 <= i < j < ranked_full.len() implies ranked_full[i].score
            >= ranked_full[j].score by {
            assert(ranked_full[i] == elem_view(ranked@[i]));
            assert(ranked_full[j] == elem_view(ranked@[j]));
        }
    }
    ranked.truncate(MAX_ELEMENTS);
    let ghost truncated_views = ev_seq(ranked@);
    proof {
        if ranked_full.len() > MAX_ELEMENTS as int {
            assert(truncated_views =~= ranked_full.subrange(0, MAX_ELEMENTS as int));
            crate::util_seq::lemma_take_multiset_le(ranked_full, MAX_ELEMENTS as int);
        } else {
            assert(truncated_views =~= ranked_full);
        }
    }
    let ordered = sort_by_position(ranked);
    let out = assign_indices(ordered);
    proof {
        broadcast use vstd::seq_lib::group_to_multiset_ensures;
        broadcast use vstd::multiset::group_multiset_axioms;

        assert(ev_seq(out@) =~= ev_seq(ordered@));
        assert(ev_seq(ordered@).to_multiset() == truncated_views.to_multiset());
        assert(ranked_full.to_multiset() == cands_views.to_multiset());
        let kept_ms = ev_seq(out@).to_multiset();
        assert forall|e: ElemView| #[trigger] kept_ms.count(e) <= cands_views.to_multiset().count(
            e,
        ) by {
            if ranked_full.len() > MAX_ELEMENTS as int {
                assert(truncated_views.to_multiset().count(e) <= ranked_full.to_multiset().count(
                    e,
                ));
            } else {
                assert(truncated_views.to_multiset().count(e) == ranked_full.to_multiset().count(
                    e,
                ));
            }
        }
        if spec_ui_candidates(xml@).len() <= MAX_ELEMENTS as int {
            assert(ranked_full.len() == cands_views.len());
            assert(kept_ms =~= cands_views.to_multiset());
        }

        // The capped selection keeps the highest-scoring candidates.
        if ranked_full.len() > MAX_ELEMENTS as int {
            let front = ranked_full.subrange(0, MAX_ELEMENTS as int);
            let back = ranked_full.subrange(MAX_ELEMENTS as int, ranked_full.len() as int);
            assert(ranked_full =~= front + back);
            vstd::seq_lib::lemma_multiset_commutative(front, back);
            assert(cands_views.to_multiset() =~= front.to_multiset().add(back.to_multiset()));
            assert(kept_ms == front.to_multiset());
            assert(cands_views.to_multiset().sub(kept_ms) =~= back.to_multiset());
            assert forall|a: ElemView, b: ElemView|
                (#[trigger] kept_ms.count(a)) > 0 && (#[trigger] cands_views.to_multiset().sub(
                    kept_ms,
                ).count(b)) > 0 implies a.score >= b.score by {
                assert(front.contains(a));
                assert(back.contains(b));
                let ia = choose|ia: int| 0 <= ia < front.len() && front[ia] == a;
                let jb = choose|jb: int| 0 <= jb < back.len() && back[jb] == b;
                assert(ranked_full[ia] == a);
                assert(ranked_full[MAX_ELEMENTS + jb] == b);
            }
        } else {
            assert(kept_ms == cands_views.to_multiset());
            assert forall|a: ElemView, b: ElemView|
                (#[trigger] kept_ms.count(a)) > 0 && (#[trigger] cands_views.to_multiset().sub(
                    kept_ms,
                ).count(b)) > 0 implies a.score >= b.score by {
                assert(cands_views.to_multiset().sub(kept_ms).count(b) == 0);
            }
        }
    }
    out
}

// ── Joining ─────────────────────────────────────────────────────────────────

/// The tail of a separated join, from element `i` on.
pub open spec fn spec_join_from(l: Seq<Seq<char>>, sep: Seq<char>, i: int) -> Seq<char>
    decreases l.len() - i,
{
    if i < 0 || i >= l.len() {
        Seq::empty()
    } else {
        sep + l[i] + spec_join_from(l, sep, i + 1)
    }
}

/// The elements of `l` joined by `sep`.
pub open spec fn spec_join(l: Seq<Seq<char>>, sep: Seq<char>) -> Seq<char> {
    if l.len() == 0 {
        Seq::empty()
    } else {
        l[0] + spec_join_from(l, sep, 1)
    }
}

/// Join strings with a separator.
pub fn join_strings(l: &Vec<String>, sep: &str) -> (r: String)
    ensures
        r@ == spec_join(l@.map_values(|s: String| s@), sep@),
{
    let ghost views = l@.map_values(|s: String| s@);
    let n = l.len();
    if n == 0 {
        let r = String::new();
        assert(r@ =~= Seq::<char>::empty());
        return r;
    }
    let mut out: String = l[0].clone();
    let mut i: usize = 1;
    while i < n
        invariant
            1 <= i <= n,
            n == l@.len(),
            views == l@.map_values(|s: String| s@),
            out@ + spec_join_from(views, sep@, i as int) == spec_join(views, sep@),
        decreases n - i,
    {
        out.append(sep);
        out.append(l[i].as_str());
        i += 1;
    }
    assert(spec_join_from(views, sep@, n as int) =~= Seq::<char>::empty());
    assert(out@ =~= out@ + spec_join_from(views, sep@, n as int));
    out
}

// ── Element formatting ──────────────────────────────────────────────────────

/// The flag words shown for an element, in display order.
pub open spec fn spec_elem_flags(e: ElemView) -> Seq<Seq<char>> {
    let f0 = Seq::<Seq<char>>::empty();
    let f1 = if e.clickable {
        f0.push("click"@)
    } else {
        f0
    };
    let f2 = if e.editable {
        f1.push("editable"@)
    } else {
        f1
    };
    let f3 = if e.focused {
        f2.push("FOCUSED"@)
    } else {
        f2
    };
    let f4 = if e.scrollable {
        f3.push("scroll"@)
    } else {
        f3
    };
    let f5 = if e.checked == Some(true) {
        f4.push("checked"@)
    } else {
        f4
    };
    let f6 = if e.checked == Some(false) {
        f5.push("unchecked"@)
    } else {
        f5
    };
    if !e.enabled {
        f6.push("DISABLED"@)
    } else {
        f6
    }
}

/// The display line of one element: index, class, text, label, identifier,
/// center coordinates and flags.
pub open spec fn spec_format_single_element(e: ElemView, index: int) -> Seq<char> {
    let head = "  ["@ + crate::util::dec_digits(index) + "] "@ + e.class;
    let with_text = if e.text.len() > 0 {
        head + " \""@ + e.text + "\""@
    } else {
        head
    };
    let with_desc = if e.desc.len() > 0 {
        with_text + " desc=\""@ + e.desc + "\""@
    } else {
        with_text
    };
    let with_rid = if e.resource_id.len() > 0 {
        with_desc + " #"@ + e.resource_id
    } else {
        with_desc
    };
    let with_center = with_rid + " @("@ + crate::util::dec_int(e.center_x) + ","@
        + crate::util::dec_int(e.center_y) + ")"@;
    let flags = spec_elem_flags(e);
    if flags.len() > 0 {
        with_center + " *"@ + spec_join(flags, ","@) + "*"@
    } else {
        with_center
    }
}

/// Format one element for the model prompt, as
/// `  [3] Button "Send" #send_btn @(900,1800) *click*`.
pub fn format_single_element(el: &UiElement) -> (r: String)
    ensures
        r@ == spec_format_single_element(elem_view(*el), el.index as int),
{
    let mut s = "  [".to_owned();
    let idx = crate::util::u64_to_string(el.index as u64);
    s.append(idx.as_str());
    s.append("] ");
    s.append(el.class.as_str());
    if !el.text.as_str().is_empty() {
        s.append(" \"");
        s.append(el.text.as_str());
        s.append("\"");
    }
    if !el.desc.as_str().is_empty() {
        s.append(" desc=\"");
        s.append(el.desc.as_str());
        s.append("\"");
    }
    if !el.resource_id.as_str().is_empty() {
        s.append(" #");
        s.append(el.resource_id.as_str());
    }
    s.append(" @(");
    let cx = crate::util::i64_to_string(el.center_x as i64);
    s.append(cx.as_str());
    s.append(",");
    let cy = crate::util::i64_to_string(el.center_y as i64);
    s.append(cy.as_str());
    s.append(")");

    let mut flags: Vec<String> = Vec::new();
    proof {
        assert(flags@.map_values(|f: String| f@) =~= Seq::<Seq<char>>::empty());
    }
    let ghost e = elem_view(*el);
    if el.clickable {
        let ghost before = flags@.map_values(|f: String| f@);
        flags.push("click".to_owned());
        proof {
            assert(flags@.map_values(|f: String| f@) =~= before.push("click"@));
        }
    }
    if el.editable {
        let ghost before = flags@.map_values(|f: String| f@);
        flags.push("editable".to_owned());
        proof {
            assert(flags@.map_values(|f: String| f@) =~= before.push("editable"@));
        }
    }
    if el.focused {
        let ghost before = flags@.map_values(|f: String| f@);
        flags.push("FOCUSED".to_owned());
        proof {
            assert(flags@.map_values(|f: String| f@) =~= before.push("FOCUSED"@));
        }
    }
    if el.scrollable {
        let ghost before = flags@.map_values(|f: String| f@);
        flags.push("scroll".to_owned());
        proof {
            assert(flags@.map_values(|f: String| f@) =~= before.push("scroll"@));
        }
    }
    let is_checked = match el.checked {
        Some(true) => true,
        _ => false,
    };
    if is_checked {
        let ghost before = flags@.map_values(|f: String| f@);
        flags.push("checked".to_owned());
        proof {
            assert(flags@.map_values(|f: String| f@) =~= before.push("checked"@));
        }
    }
    let is_unchecked = match el.checked {
        Some(false) => true,
        _ => false,
    };
    if is_unchecked {
        let ghost before = flags@.map_values(|f: String| f@);
        flags.push("unchecked".to_owned());
        proof {
            assert(flags@.map_values(|f: String| f@) =~= before.push("unchecked"@));
        }
    }
    if !el.enabled {
        let ghost before = flags@.map_values(|f: String| f@);
        flags.push("DISABLED".to_owned());
        proof {
            assert(flags@.map_values(|f: String| f@) =~= before.push("DISABLED"@));
        }
    }
    proof {
        assert(flags@.map_values(|f: String| f@) == spec_elem_flags(e));
    }
    if flags.len() > 0 {
        s.append(" *");
        let joined = join_strings(&flags, ",");
        s.append(joined.as_str());
        s.append("*");
    }
    s
}

/// The display lines of all elements, one per line.
pub open spec fn spec_format_elements(l: Seq<ElemView>, indices: Seq<int>) -> Seq<Seq<char>> {
    Seq::new(l.len(), |i: int| spec_format_single_element(l[i], indices[i]))
}

/// Format a list of elements, one line each, joined by newlines.
pub fn format_elements_for_tree(elements: &Vec<UiElement>) -> (r: String)
    ensures
        r@ == spec_join(
            spec_format_elements(ev_seq(elements@),
                Seq::new(elements@.len(), |i: int| elements@[i].index as int)),
            "\n"@,
        ),
{
    let n = elements.len();
    let mut lines: Vec<String> = Vec::new();
    let ghost target = spec_format_elements(ev_seq(elements@),
        Seq::new(elements@.len(), |i: int| elements@[i].index as int));
    proof {
        assert(lines@.map_values(|s: String| s@) =~= target.subrange(0, 0));
    }
    let mut i: usize = 0;
    while i < n
        invariant
            i <= n,
            n == elements@.len(),
            target == spec_format_elements(ev_seq(elements@),
                Seq::new(elements@.len(), |k: int| elements@[k].index as int)),
            lines@.map_values(|s: String| s@) == target.subrange(0, i as int),
        decreases n - i,
    {
        let ghost before = lines@.map_values(|s: String| s@);
        let line = format_single_element(&elements[i]);
        lines.push(line);
        proof {
            assert(lines@.map_values(|s: String| s@) =~= before.push(target[i as int]));
            assert(before.push(target[i as int]) =~= target.subrange(0, i + 1));
        }
        i += 1;
    }
    proof {
        assert(target.subrange(0, n as int) =~= target);
    }
    join_strings(&lines, "\n")
}

// ── Notification formatting ─────────────────────────────────────────────────

/// The view of a notification.
pub ghost struct NotifView {
    pub id: Seq<char>,
    pub app: Seq<char>,
    pub title: Seq<char>,
    pub text: Seq<char>,
    pub timestamp: Seq<char>,
}

/// The view of a concrete notification.
pub open spec fn notif_view(n: Notification) -> NotifView {
    NotifView { id: n.id@, app: n.app@, title: n.title@, text: n.text@, timestamp: n.timestamp@ }
}

/// The display line of one notification.
pub open spec fn spec_format_notification(n: NotifView) -> Seq<char> {
    "["@ + n.app + "] "@ + n.title + ": "@ + n.text
}

/// The notification block: one line each, or a placeholder when empty.
pub open spec fn spec_format_notifications(l: Seq<NotifView>) -> Seq<char> {
    if l.len() == 0 {
        "No new notifications."@
    } else {
        spec_join(Seq::new(l.len(), |i: int| spec_format_notification(l[i])), "\n"@)
    }
}

/// Format notifications for the model prompt.
pub fn format_notifications(notifs: &Vec<Notification>) -> (r: String)
    ensures
        r@ == spec_format_notifications(notifs@.map_values(|n: Notification| notif_view(n))),
{
    let n = notifs.len();
    if n == 0 {
        return "No new notifications.".to_owned();
    }
    let ghost views = notifs@.map_values(|x: Notification| notif_view(x));
    let ghost target = Seq::new(views.len(), |i: int| spec_format_notification(views[i]));
    let mut lines: Vec<String> = Vec::new();
    proof {
        assert(lines@.map_values(|s: String| s@) =~= target.subrange(0, 0));
    }
    let mut i: usize = 0;
    while i < n
        invariant
            i <= n,
            n == notifs@.len(),
            views == notifs@.map_values(|x: Notification| notif_view(x)),
            target == Seq::new(views.len(), |k: int| spec_format_notification(views[k])),
            lines@.map_values(|s: String| s@) == target.subrange(0, i as int),
        decreases n - i,
    {
        let ghost before = lines@.map_values(|s: String| s@);
        let mut line = "[".to_owned();
        line.append(notifs[i].app.as_str());
        line.append("] ");
        line.append(notifs[i].title.as_str());
        line.append(": ");
        line.append(notifs[i].text.as_str());
        lines.push(line);
        proof {
            assert(lines@.map_values(|s: String| s@) =~= before.push(target[i as int]));
            assert(before.push(target[i as int]) =~= target.subrange(0, i + 1));
        }
        i += 1;
    }
    proof {
        assert(target.subrange(0, n as int) =~= target);
    }
    join_strings(&lines, "\n")
}

/// Extract a `prefix=value` field from a dump line.
pub fn extract_field(line: &str, prefix: &str) -> (r: Option<String>)
    ensures
        match r {
            Some(v) => spec_extract_field(line@, prefix@) == Some(v@),
            None => spec_extract_field(line@, prefix@) is None,
        },
{
    let lv = str_chars(line);
    let pv = str_chars(prefix);
    let idx = match find_sub_from(&lv, &pv, 0) {
        Some(i) => i,
        None => {
            return None;
        },
    };
    let n = lv.len();
    proof {
        lemma_spec_find_bounds(lv@, pv@, 0);
    }
    let start = idx + pv.len();
    let mut end: usize = start;
    while end < n && !(lv[end] == ' ' || lv[end] == ')' || lv[end] == '}' || lv[end] == ':')
        invariant
            start <= end <= n,
            n == lv@.len(),
            spec_find_field_end(lv@, start as int) == spec_find_field_end(lv@, end as int),
        decreases n - end,
    {
        end += 1;
    }
    assert(spec_find_field_end(lv@, end as int) == end);
    let piece = copy_range(&lv, start, end);
    let val = trim_chars(&piece);
    if val.len() == 0 {
        None
    } else {
        Some(chars_to_string(&val))
    }
}


// ── Words and components ────────────────────────────────────────────────────

/// The length of the leading run of non-whitespace characters.
pub open spec fn take_nonws_len(s: Seq<char>) -> int
    decreases s.len(),
{
    if s.len() == 0 || is_ws(s[0]) {
        0
    } else {
        1 + take_nonws_len(s.drop_first())
    }
}

/// The leading non-whitespace run never exceeds the text.
pub proof fn lemma_take_nonws_le(s: Seq<char>)
    ensures
        0 <= take_nonws_len(s) <= s.len(),
    decreases s.len(),
{
    if !(s.len() == 0 || is_ws(s[0])) {
        lemma_take_nonws_le(s.drop_first());
    }
}

/// The whitespace-separated words of a text, in order.
pub open spec fn spec_words(s: Seq<char>) -> Seq<Seq<char>>
    decreases s.len(),
{
    if s.len() == 0 {
        Seq::empty()
    } else if is_ws(s[0]) {
        spec_words(s.drop_first())
    } else {
        let k = take_nonws_len(s);
        if 1 <= k <= s.len() {
            seq![s.subrange(0, k)] + spec_words(s.skip(k))
        } else {
            seq![s]
        }
    }
}

/// Split a character vector into whitespace-separated words.
#[verifier::loop_isolation(false)]
pub fn words_of(v: &Vec<char>) -> (r: Vec<Vec<char>>)
    ensures
        r@.map_values(|w: Vec<char>| w@) == spec_words(v@),
{
    let n = v.len();
    let mut out: Vec<Vec<char>> = Vec::new();
    let mut i: usize = 0;
    proof {
        assert(v@.skip(0) =~= v@);
        assert(out@.map_values(|w: Vec<char>| w@) =~= Seq::<Seq<char>>::empty());
        assert(Seq::<Seq<char>>::empty() + spec_words(v@) =~= spec_words(v@));
    }
    while i < n
        invariant
            i <= n,
            out@.map_values(|w: Vec<char>| w@) + spec_words(v@.skip(i as int)) == spec_words(v@),
        decreases n - i,
    {
        let ghost rest = v@.skip(i as int);
        let c = v[i];
        proof {
            assert(rest[0] == v@[i as int]);
            assert(rest.drop_first() =~= v@.skip(i + 1));
        }
        if c == ' ' || c == '\t' || c == '\r' || c == '\n' {
            i += 1;
        } else {
            let mut j: usize = i;
            while j < n && !(v[j] == ' ' || v[j] == '\t' || v[j] == '\r' || v[j] == '\n')
                invariant
                    i <= j <= n,
                    take_nonws_len(v@.skip(i as int)) == (j - i) + take_nonws_len(
                        v@.skip(j as int),
                    ),
                decreases n - j,
            {
                proof {
                    let sj = v@.skip(j as int);
                    assert(sj[0] == v@[j as int]);
                    assert(sj.drop_first() =~= v@.skip(j + 1));
                }
                j += 1;
            }
            proof {
                let sj = v@.skip(j as int);
                if j < n {
                    assert(sj[0] == v@[j as int]);
                }
                assert(take_nonws_len(v@.skip(j as int)) == 0);
                assert(take_nonws_len(rest) == j - i);
                lemma_take_nonws_le(rest);
            }
            let word = copy_range(v, i, j);
            let ghost before = out@.map_values(|w: Vec<char>| w@);
            out.push(word);
            proof {
                assert(word@ =~= rest.subrange(0, (j - i) as int));
                assert(rest.skip((j - i) as int) =~= v@.skip(j as int));
                assert(spec_words(rest) == seq![rest.subrange(0, (j - i) as int)] + spec_words(
                    v@.skip(j as int)));
                assert(out@.map_values(|w: Vec<char>| w@) =~= before.push(
                    rest.subrange(0, (j - i) as int)));
                assert(before.push(rest.subrange(0, (j - i) as int)) + spec_words(
                    v@.skip(j as int)) =~= before + spec_words(rest));
            }
            i = j;
        }
    }
    proof {
        assert(v@.skip(n as int) =~= Seq::<char>::empty());
        assert(spec_words(v@.skip(n as int)) =~= Seq::<Seq<char>>::empty());
        assert(out@.map_values(|w: Vec<char>| w@) + Seq::<Seq<char>>::empty() =~= out@.map_values(
            |w: Vec<char>| w@));
    }
    out
}

/// A bracket character trimmed from component words.
pub open spec fn is_comp_trim(c: char) -> bool {
    c == '{' || c == '}' || c == ')'
}

/// A word with leading bracket characters dropped.
pub open spec fn trim_comp_start(s: Seq<char>) -> Seq<char>
    decreases s.len(),
{
    if s.len() > 0 && is_comp_trim(s[0]) {
        trim_comp_start(s.drop_first())
    } else {
        s
    }
}

/// A word with trailing bracket characters dropped.
pub open spec fn trim_comp_end(s: Seq<char>) -> Seq<char>
    decreases s.len(),
{
    if s.len() > 0 && is_comp_trim(s[s.len() - 1]) {
        trim_comp_end(s.drop_last())
    } else {
        s
    }
}

/// A word with surrounding bracket characters dropped.
pub open spec fn spec_trim_comp(s: Seq<char>) -> Seq<char> {
    trim_comp_end(trim_comp_start(s))
}

/// Drop surrounding bracket characters from a word.
#[verifier::loop_isolation(false)]
fn trim_comp(v: &Vec<char>) -> (r: Vec<char>)
    ensures
        r@ == spec_trim_comp(v@),
{
    let n = v.len();
    let mut lo: usize = 0;
    proof {
        assert(v@.skip(0) =~= v@);
    }
    while lo < n && (v[lo] == '{' || v[lo] == '}' || v[lo] == ')')
        invariant
            lo <= n,
            trim_comp_start(v@) == trim_comp_start(v@.skip(lo as int)),
        decreases n - lo,
    {
        proof {
            let suffix = v@.skip(lo as int);
            assert(suffix[0] == v@[lo as int]);
            assert(suffix.drop_first() =~= v@.skip(lo + 1));
        }
        lo += 1;
    }
    proof {
        let suffix = v@.skip(lo as int);
        if lo < n {
            assert(suffix[0] == v@[lo as int]);
        }
        assert(trim_comp_start(v@) == suffix);
    }
    let mut hi: usize = n;
    while hi > lo && (v[hi - 1] == '{' || v[hi - 1] == '}' || v[hi - 1] == ')')
        invariant
            lo <= hi <= n,
            trim_comp_end(v@.skip(lo as int)) == trim_comp_end(
                v@.subrange(lo as int, hi as int),
            ),
        decreases hi,
    {
        proof {
            let piece = v@.subrange(lo as int, hi as int);
            assert(piece[piece.len() - 1] == v@[hi - 1]);
            assert(piece.drop_last() =~= v@.subrange(lo as int, hi - 1));
        }
        hi -= 1;
    }
    proof {
        let piece = v@.subrange(lo as int, hi as int);
        if hi > lo {
            assert(piece[piece.len() - 1] == v@[hi - 1]);
        }
        assert(trim_comp_end(v@.skip(lo as int)) == piece);
    }
    copy_range(v, lo, hi)
}

/// Whether a trimmed word names an app component: it holds a slash and a dot
/// and is neither an absolute path nor a URL.
pub open spec fn is_component_word(w: Seq<char>) -> bool {
    seq_contains(w, seq!['/']) && seq_contains(w, seq!['.']) && !(w.len() > 0 && w[0] == '/')
        && !starts_with(w, "http"@)
}

/// The first component-shaped word of a line, brackets trimmed.
pub open spec fn first_component(ws: Seq<Seq<char>>) -> Option<Seq<char>>
    decreases ws.len(),
{
    if ws.len() == 0 {
        None
    } else {
        let w = spec_trim_comp(ws[0]);
        if is_component_word(w) {
            Some(w)
        } else {
            first_component(ws.drop_first())
        }
    }
}

/// The component a dump line names, when one of its words looks like
/// "package/activity".
pub open spec fn spec_find_component(line: Seq<char>) -> Option<Seq<char>> {
    first_component(spec_words(line))
}

/// Find a component-shaped word in a dump line.
#[verifier::loop_isolation(false)]
pub fn find_component_in_line(line: &str) -> (r: Option<String>)
    ensures
        match r {
            Some(c) => spec_find_component(line@) == Some(c@),
            None => spec_find_component(line@) is None,
        },
{
    let lv = str_chars(line);
    let ws = words_of(&lv);
    let ghost wviews = ws@.map_values(|w: Vec<char>| w@);
    let n = ws.len();
    let slash = {
        let mut b: Vec<char> = Vec::new();
        b.push('/');
        proof {
            assert(b@ =~= seq!['/']);
        }
        b
    };
    let dot = {
        let mut b: Vec<char> = Vec::new();
        b.push('.');
        proof {
            assert(b@ =~= seq!['.']);
        }
        b
    };
    let http = str_chars("http");
    let mut i: usize = 0;
    proof {
        assert(wviews.skip(0) =~= wviews);
    }
    while i < n
        invariant
            i <= n,
            first_component(wviews) == first_component(wviews.skip(i as int)),
        decreases n - i,
    {
        let ghost suffix = wviews.skip(i as int);
        proof {
            assert(suffix[0] == wviews[i as int]);
            assert(suffix.drop_first() =~= wviews.skip(i + 1));
        }
        let w = trim_comp(&ws[i]);
        let good = contains_sub(&w, &slash) && contains_sub(&w, &dot) && !(w.len() > 0 && w[0]
            == '/') && !has_prefix(&w, &http);
        if good {
            return Some(chars_to_string(&w));
        }
        i += 1;
    }
    proof {
        assert(wviews.skip(n as int) =~= Seq::<Seq<char>>::empty());
    }
    None
}

// ── Foreground activity ─────────────────────────────────────────────────────

/// A component split at its first slash into package and activity.
pub open spec fn split_component(comp: Seq<char>) -> Option<(Seq<char>, Seq<char>)> {
    match spec_find(comp, seq!['/'], 0) {
        Some(i) => Some((comp.subrange(0, i), comp.subrange(i + 1, comp.len() as int))),
        None => None,
    }
}

/// Scan lines for one containing the needle and naming a component.
pub open spec fn scan_lines_for(lines: Seq<Seq<char>>, needle: Seq<char>) -> Option<
    (Seq<char>, Seq<char>),
>
    decreases lines.len(),
{
    if lines.len() == 0 {
        None
    } else {
        let rest = scan_lines_for(lines.drop_first(), needle);
        if seq_contains(lines[0], needle) {
            match spec_find_component(lines[0]) {
                Some(comp) => match split_component(comp) {
                    Some(p) => Some(p),
                    None => rest,
                },
                None => rest,
            }
        } else {
            rest
        }
    }
}

/// The foreground component of an activity dump: the resumed activity first,
/// then the focused window, else unknown.
pub open spec fn spec_parse_foreground(raw: Seq<char>) -> (Seq<char>, Seq<char>) {
    let lines = crate::util::split_by(raw, "\n"@);
    match scan_lines_for(lines, "mResumedActivity:"@) {
        Some(p) => p,
        None => match scan_lines_for(lines, "topResumedActivity:"@) {
            Some(p) => p,
            None => match scan_lines_for(lines, "mFocusedApp="@) {
                Some(p) => p,
                None => match scan_lines_for(lines, "mCurrentFocus="@) {
                    Some(p) => p,
                    None => ("unknown"@, "unknown"@),
                },
            },
        },
    }
}

/// Scan the split lines for a needle, executably.
#[verifier::loop_isolation(false)]
fn scan_lines_exec(lines: &Vec<Vec<char>>, needle: &str) -> (r: Option<(String, String)>)
    ensures
        ({
            let lviews = lines@.map_values(|l: Vec<char>| l@);
            match r {
                Some(p) => scan_lines_for(lviews, needle@) == Some((p.0@, p.1@)),
                None => scan_lines_for(lviews, needle@) is None,
            }
        }),
{
    let ghost lviews = lines@.map_values(|l: Vec<char>| l@);
    let nv = str_chars(needle);
    let n = lines.len();
    let mut i: usize = 0;
    proof {
        assert(lviews.skip(0) =~= lviews);
    }
    while i < n
        invariant
            i <= n,
            scan_lines_for(lviews, needle@) == scan_lines_for(lviews.skip(i as int), needle@),
        decreases n - i,
    {
        let ghost suffix = lviews.skip(i as int);
        proof {
            assert(suffix[0] == lviews[i as int]);
            assert(suffix.drop_first() =~= lviews.skip(i + 1));
        }
        if contains_sub(&lines[i], &nv) {
            let line_str = chars_to_string(&lines[i]);
            match find_component_in_line(line_str.as_str()) {
                Some(comp) => {
                    let cv = str_chars(comp.as_str());
                    let slash = {
                        let mut b: Vec<char> = Vec::new();
                        b.push('/');
                        proof {
                            assert(b@ =~= seq!['/']);
                        }
                        b
                    };
                    match find_sub_from(&cv, &slash, 0) {
                        Some(k) => {
                            let cn = cv.len();
                            proof {
                                lemma_spec_find_bounds(cv@, slash@, 0);
                            }
                            let pkg = copy_range(&cv, 0, k);
                            let act = copy_range(&cv, k + 1, cn);
                            return Some((chars_to_string(&pkg), chars_to_string(&act)));
                        },
                        None => {},
                    }
                },
                None => {},
            }
        }
        i += 1;
    }
    proof {
        assert(lviews.skip(n as int) =~= Seq::<Seq<char>>::empty());
    }
    None
}

/// Parse the foreground package and activity from an activity dump; unknown
/// when no line names a component.
pub fn parse_foreground_activity(raw: &str) -> (r: (String, String))
    ensures
        (r.0@, r.1@) == spec_parse_foreground(raw@),
{
    let rv = str_chars(raw);
    let newline = str_chars("\n");
    proof {
        reveal_strlit("\n");
    }
    let lines = split_chars(&rv, &newline);
    match scan_lines_exec(&lines, "mResumedActivity:") {
        Some(p) => {
            return p;
        },
        None => {},
    }
    match scan_lines_exec(&lines, "topResumedActivity:") {
        Some(p) => {
            return p;
        },
        None => {},
    }
    match scan_lines_exec(&lines, "mFocusedApp=") {
        Some(p) => {
            return p;
        },
        None => {},
    }
    match scan_lines_exec(&lines, "mCurrentFocus=") {
        Some(p) => {
            return p;
        },
        None => {},
    }
    ("unknown".to_owned(), "unknown".to_owned())
}


// ── Notification dump parsing ───────────────────────────────────────────────

/// The accumulator of the notification-dump scan.
pub ghost struct NotifState {
    pub pkg: Option<Seq<char>>,
    pub key: Option<Seq<char>>,
    pub title: Option<Seq<char>>,
    pub text: Option<Seq<char>>,
    pub big: Option<Seq<char>>,
    pub results: Seq<NotifView>,
}

/// System packages whose notifications are dropped.
pub open spec fn skip_pkg(p: Seq<char>) -> bool {
    p == "android"@ || p == "com.android.systemui"@ || p == "com.android.providers.downloads"@
        || p == "com.android.vending"@
}

/// Finish the current record: with both a package and a key, and any title
/// or body text, and not a skipped system package, one notification is
/// emitted (the big text wins over the short text); the fields clear either
/// way.
pub open spec fn spec_notif_flush(st: NotifState, now: Seq<char>) -> NotifState {
    let results2 = match (st.pkg, st.key) {
        (Some(p), Some(k)) => {
            let t = match st.title {
                Some(t) => t,
                None => Seq::empty(),
            };
            let tx = match st.big {
                Some(b) => b,
                None => match st.text {
                    Some(x) => x,
                    None => Seq::empty(),
                },
            };
            if (t.len() > 0 || tx.len() > 0) && !skip_pkg(p) {
                st.results.push(NotifView { id: k, app: p, title: t, text: tx, timestamp: now })
            } else {
                st.results
            }
        },
        _ => st.results,
    };
    NotifState { pkg: None, key: None, title: None, text: None, big: None, results: results2 }
}

/// One scanned line, already trimmed: a record header flushes the previous
/// record and opens a new one (keyed by the record pointer, the identifier,
/// or a running number); field lines fill the open record; anything else,
/// or any line outside a record, is ignored.
pub open spec fn spec_notif_line(st: NotifState, s: Seq<char>, now: Seq<char>) -> NotifState {
    if starts_with(s, "NotificationRecord("@) || starts_with(s, "NotificationRecord{"@) {
        let st1 = spec_notif_flush(st, now);
        let key = match spec_extract_field(s, "0x"@) {
            Some(k) => Some(k),
            None => match spec_extract_field(s, "id="@) {
                Some(k) => Some(k),
                None => Some("nr_"@ + crate::util::dec_digits(st1.results.len() as int)),
            },
        };
        NotifState { pkg: spec_extract_field(s, "pkg="@), key, ..st1 }
    } else if st.pkg is None {
        st
    } else if starts_with(s, "android.title="@) {
        NotifState { title: Some(s.skip("android.title="@.len() as int)), ..st }
    } else if starts_with(s, "android.text="@) {
        NotifState { text: Some(s.skip("android.text="@.len() as int)), ..st }
    } else if starts_with(s, "android.bigText="@) {
        NotifState { big: Some(s.skip("android.bigText="@.len() as int)), ..st }
    } else if starts_with(s, "android.subText="@) && st.text is None {
        NotifState { text: Some(s.skip("android.subText="@.len() as int)), ..st }
    } else if starts_with(s, "String (android.title): "@) {
        NotifState { title: Some(s.skip("String (android.title): "@.len() as int)), ..st }
    } else if starts_with(s, "String (android.text): "@) {
        NotifState { text: Some(s.skip("String (android.text): "@.len() as int)), ..st }
    } else if starts_with(s, "String (android.bigText): "@) {
        NotifState { big: Some(s.skip("String (android.bigText): "@.len() as int)), ..st }
    } else {
        st
    }
}

/// Scan trimmed lines in order.
pub open spec fn spec_notif_scan(lines: Seq<Seq<char>>, st: NotifState, now: Seq<char>)
    -> NotifState
    decreases lines.len(),
{
    if lines.len() == 0 {
        st
    } else {
        spec_notif_scan(lines.drop_first(), spec_notif_line(st, spec_trim(lines[0]), now),
            now)
    }
}

/// The fresh accumulator.
pub open spec fn spec_notif_init() -> NotifState {
    NotifState { pkg: None, key: None, title: None, text: None, big: None, results: Seq::empty() }
}

/// The notifications a dump denotes, stamped with the given time.
pub open spec fn spec_parse_notifications(raw: Seq<char>, now: Seq<char>) -> Seq<NotifView> {
    spec_notif_flush(
        spec_notif_scan(crate::util::split_by(raw, "\n"@), spec_notif_init(), now),
        now,
    ).results
}

/// The executable accumulator.
struct NotifAcc {
    pkg: Option<String>,
    key: Option<String>,
    title: Option<String>,
    text: Option<String>,
    big: Option<String>,
    results: Vec<Notification>,
}

impl NotifAcc {
    /// The abstract state of this accumulator.
    spec fn view_st(&self) -> NotifState {
        NotifState {
            pkg: match self.pkg {
                Some(p) => Some(p@),
                None => None,
            },
            key: match self.key {
                Some(k) => Some(k@),
                None => None,
            },
            title: match self.title {
                Some(t) => Some(t@),
                None => None,
            },
            text: match self.text {
                Some(t) => Some(t@),
                None => None,
            },
            big: match self.big {
                Some(b) => Some(b@),
                None => None,
            },
            results: self.results@.map_values(|n: Notification| notif_view(n)),
        }
    }

    /// Finish the current record; see `spec_notif_flush`.
    fn flush(&mut self, now: &str)
        ensures
            final(self).view_st() == spec_notif_flush(old(self).view_st(), now@),
    {
        let ghost before = self.view_st();
        let mut emit: Option<Notification> = None;
        let pkg_taken = self.pkg.take();
        let key_taken = self.key.take();
        match (pkg_taken, key_taken) {
            (Some(p), Some(k)) => {
                let t: String = match self.title.take() {
                    Some(t) => t,
                    None => {
                        let e = String::new();
                        assert(e@ =~= Seq::<char>::empty());
                        e
                    },
                };
                let tx: String = match self.big.take() {
                    Some(b) => {
                        self.text = None;
                        b
                    },
                    None => match self.text.take() {
                        Some(x) => x,
                        None => {
                            let e = String::new();
                            assert(e@ =~= Seq::<char>::empty());
                            e
                        },
                    },
                };
                let keep = (!t.as_str().is_empty() || !tx.as_str().is_empty()) && !(str_eq(
                    p.as_str(),
                    "android",
                ) || str_eq(p.as_str(), "com.android.systemui") || str_eq(p.as_str(),
                    "com.android.providers.downloads") || str_eq(p.as_str(),
                    "com.android.vending"));
                if keep {
                    emit = Some(Notification {
                        id: k,
                        app: p,
                        title: t,
                        text: tx,
                        timestamp: now.to_owned(),
                    });
                }
            },
            _ => {},
        }
        self.pkg = None;
        self.key = None;
        self.title = None;
        self.text = None;
        self.big = None;
        let ghost res_before = self.results@.map_values(|n: Notification| notif_view(n));
        match emit {
            Some(n) => {
                let ghost nv = notif_view(n);
                self.results.push(n);
                proof {
                    assert(self.results@.map_values(|x: Notification| notif_view(x))
                        =~= res_before.push(nv));
                }
            },
            None => {},
        }
    }
}

/// Parse a notification dump into notifications, stamping each with the
/// given time; see `spec_parse_notifications`.
#[verifier::loop_isolation(false)]
#[verifier::rlimit(100)]
pub fn parse_dumpsys_notifications(raw: &str, now: &str) -> (r: Vec<Notification>)
    ensures
        r@.map_values(|n: Notification| notif_view(n)) == spec_parse_notifications(raw@, now@),
{
    let rv = str_chars(raw);
    let newline = str_chars("\n");
    proof {
        reveal_strlit("\n");
    }
    let lines = split_chars(&rv, &newline);
    let ghost lviews = lines@.map_values(|l: Vec<char>| l@);
    let mut acc = NotifAcc {
        pkg: None,
        key: None,
        title: None,
        text: None,
        big: None,
        results: Vec::new(),
    };
    proof {
        assert(acc.view_st().results =~= Seq::<NotifView>::empty());
        assert(acc.view_st() == spec_notif_init());
        assert(lviews.skip(0) =~= lviews);
    }
    let n = lines.len();
    let mut i: usize = 0;
    while i < n
        invariant
            i <= n,
            spec_notif_scan(lviews.skip(i as int), acc.view_st(), now@) == spec_notif_scan(
                lviews, spec_notif_init(), now@),
        decreases n - i,
    {
        let ghost suffix = lviews.skip(i as int);
        proof {
            assert(suffix[0] == lviews[i as int]);
            assert(suffix.drop_first() =~= lviews.skip(i + 1));
        }
        let trimmed = trim_chars(&lines[i]);
        let line = chars_to_string(&trimmed);
        let s = line.as_str();
        let ghost st0 = acc.view_st();
        if has_prefix(&trimmed, &str_chars("NotificationRecord(")) || has_prefix(
            &trimmed,
            &str_chars("NotificationRecord{"),
        ) {
            acc.flush(now);
            let pkg = extract_field(s, "pkg=");
            let key: Option<String> = match extract_field(s, "0x") {
                Some(k) => Some(k),
                None => match extract_field(s, "id=") {
                    Some(k) => Some(k),
                    None => {
                        let mut k = "nr_".to_owned();
                        let num = crate::util::u64_to_string(acc.results.len() as u64);
                        k.append(num.as_str());
                        Some(k)
                    },
                },
            };
            acc.pkg = pkg;
            acc.key = key;
        } else if acc.pkg.is_none() {
        } else if has_prefix(&trimmed, &str_chars("android.title=")) {
            proof {
                reveal_strlit("android.title=");
            }
            let v = copy_range(&trimmed, 14, trimmed.len());
            acc.title = Some(chars_to_string(&v));
        } else if has_prefix(&trimmed, &str_chars("android.text=")) {
            proof {
                reveal_strlit("android.text=");
            }
            let v = copy_range(&trimmed, 13, trimmed.len());
            acc.text = Some(chars_to_string(&v));
        } else if has_prefix(&trimmed, &str_chars("android.bigText=")) {
            proof {
                reveal_strlit("android.bigText=");
            }
            let v = copy_range(&trimmed, 16, trimmed.len());
            acc.big = Some(chars_to_string(&v));
        } else if has_prefix(&trimmed, &str_chars("android.subText=")) && acc.text.is_none() {
            proof {
                reveal_strlit("android.subText=");
            }
            let v = copy_range(&trimmed, 16, trimmed.len());
            acc.text = Some(chars_to_string(&v));
        } else if has_prefix(&trimmed, &str_chars("String (android.title): ")) {
            proof {
                reveal_strlit("String (android.title): ");
            }
            let v = copy_range(&trimmed, 24, trimmed.len());
            acc.title = Some(chars_to_string(&v));
        } else if has_prefix(&trimmed, &str_chars("String (android.text): ")) {
            proof {
                reveal_strlit("String (android.text): ");
            }
            let v = copy_range(&trimmed, 23, trimmed.len());
            acc.text = Some(chars_to_string(&v));
        } else if has_prefix(&trimmed, &str_chars("String (android.bigText): ")) {
            proof {
                reveal_strlit("String (android.bigText): ");
            }
            let v = copy_range(&trimmed, 26, trimmed.len());
            acc.big = Some(chars_to_string(&v));
        }
        proof {
            assert(trimmed@ == spec_trim(lviews[i as int]));
            assert(acc.view_st() == spec_notif_line(st0, spec_trim(lviews[i as int]), now@));
        }
        i += 1;
    }
    proof {
        assert(lviews.skip(n as int) =~= Seq::<Seq<char>>::empty());
    }
    acc.flush(now);
    acc.results
}


// ── Screen formatting ───────────────────────────────────────────────────────

/// The prompt label of an editable field: its text, else its description,
/// else its identifier, else a placeholder.
pub open spec fn spec_edit_label(e: ElemView, index: int) -> Seq<char> {
    let name: Seq<char> = if e.text.len() > 0 {
        e.text
    } else if e.desc.len() > 0 {
        e.desc
    } else if e.resource_id.len() > 0 {
        e.resource_id
    } else {
        "unnamed"@
    };
    "["@ + crate::util::dec_digits(index) + "] "@ + name
}

/// The labels of the editable fields, in order.
pub open spec fn spec_edit_labels(l: Seq<ElemView>, idxs: Seq<int>) -> Seq<Seq<char>>
    decreases l.len(),
{
    if l.len() == 0 {
        Seq::empty()
    } else {
        let rest = spec_edit_labels(l.drop_first(), idxs.drop_first());
        if l[0].editable {
            seq![spec_edit_label(l[0], idxs[0])] + rest
        } else {
            rest
        }
    }
}

/// How many elements are clickable.
pub open spec fn count_clickable(l: Seq<ElemView>) -> int
    decreases l.len(),
{
    if l.len() == 0 {
        0
    } else {
        (if l[0].clickable {
            1int
        } else {
            0int
        }) + count_clickable(l.drop_first())
    }
}

/// The element lines of a screen prompt, one per line.
pub open spec fn spec_elem_lines(l: Seq<ElemView>, idxs: Seq<int>) -> Seq<char>
    decreases l.len(),
{
    if l.len() == 0 {
        Seq::empty()
    } else {
        spec_format_single_element(l[0], idxs[0]) + "\n"@ + spec_elem_lines(l.drop_first(),
            idxs.drop_first())
    }
}

/// The screen block of the prompt: header, numbered elements with exact
/// coordinates, the editable-field summary and the clickable count; without
/// elements, the raw tree text bounded in length.
pub open spec fn spec_screen_body(
    app: Seq<char>,
    activity: Seq<char>,
    ui_tree: Option<Seq<char>>,
    elems: Seq<ElemView>,
    idxs: Seq<int>,
    has_screenshot: bool,
    resolution: Option<(u32, u32)>,
) -> Seq<char> {
    let head0 = "App: "@ + app + " | Activity: "@ + activity;
    let head = match resolution {
        Some(r) => head0 + " | Screen: "@ + crate::util::dec_digits(r.0 as int) + "x"@
            + crate::util::dec_digits(r.1 as int),
        None => head0,
    };
    let middle: Seq<char> = if elems.len() > 0 {
        let intro = "\n\n=== UI ELEMENTS ("@ + crate::util::dec_digits(elems.len() as int)
            + " on screen) ===\nIMPORTANT: Use the @(x,y) coordinates below for all tap actions.\nThese are pixel-accurate from the accessibility tree. Do NOT guess coordinates.\n\n"@;
        let labels = spec_edit_labels(elems, idxs);
        let editable_part: Seq<char> = if labels.len() > 0 {
            "\nEditable fields: "@ + spec_join(labels, ", "@) + "\n"@
        } else {
            Seq::empty()
        };
        let clicks = count_clickable(elems);
        let click_part: Seq<char> = if clicks > 0 {
            crate::util::dec_digits(clicks) + " clickable elements\n"@
        } else {
            Seq::empty()
        };
        intro + spec_elem_lines(elems, idxs) + editable_part + click_part
    } else {
        match ui_tree {
            Some(t) => "\nUI Tree:\n"@ + take_chars(t, 4000),
            None => Seq::empty(),
        }
    };
    let shot: Seq<char> = if has_screenshot {
        let res_hint: Seq<char> = match resolution {
            Some(r) => "Resolution: "@ + crate::util::dec_digits(r.0 as int) + "x"@
                + crate::util::dec_digits(r.1 as int) + ". "@,
            None => Seq::empty(),
        };
        if elems.len() == 0 {
            "\n\nSCREENSHOT ATTACHED (vision fallback - no accessibility tree)\n"@ + res_hint
                + "Identify UI elements from the screenshot.\nEstimate tap coordinates based on visible positions in the image."@
        } else {
            "\n\nScreenshot also attached for visual context.\n"@ + res_hint
                + "Use the element @(x,y) coordinates above - they are accurate."@
        }
    } else if elems.len() == 0 {
        "\n\nNo UI tree or screenshot available. Use well-known default coordinates."@
    } else {
        Seq::empty()
    };
    head + middle + shot
}

/// Append the element lines of a screen prompt.
#[verifier::loop_isolation(false)]
fn append_elem_lines(out: &mut String, elements: &Vec<UiElement>)
    ensures
        final(out)@ == old(out)@ + spec_elem_lines(ev_seq(elements@),
            Seq::new(elements@.len(), |i: int| elements@[i].index as int)),
{
    let ghost evs = ev_seq(elements@);
    let ghost idxs = Seq::new(elements@.len(), |i: int| elements@[i].index as int);
    let ghost base = out@;
    proof {
        assert(evs.skip(0) =~= evs);
        assert(idxs.skip(0) =~= idxs);
    }
    let n = elements.len();
    let mut i: usize = 0;
    while i < n
        invariant
            i <= n,
            out@ + spec_elem_lines(evs.skip(i as int), idxs.skip(i as int)) == base
                + spec_elem_lines(evs, idxs),
        decreases n - i,
    {
        proof {
            assert(evs.skip(i as int)[0] == evs[i as int]);
            assert(idxs.skip(i as int)[0] == idxs[i as int]);
            assert(evs.skip(i as int).drop_first() =~= evs.skip(i + 1));
            assert(idxs.skip(i as int).drop_first() =~= idxs.skip(i + 1));
        }
        let line = format_single_element(&elements[i]);
        out.append(line.as_str());
        out.append("\n");
        i += 1;
    }
    proof {
        assert(evs.skip(n as int) =~= Seq::<ElemView>::empty());
        assert(idxs.skip(n as int) =~= Seq::<int>::empty());
        assert(spec_elem_lines(evs.skip(n as int), idxs.skip(n as int)) =~= Seq::<char>::empty());
        assert(out@ =~= out@ + Seq::<char>::empty());
    }
}

/// Collect the editable-field labels of a screen prompt.
#[verifier::loop_isolation(false)]
#[verifier::rlimit(100)]
fn collect_edit_labels(elements: &Vec<UiElement>) -> (r: Vec<String>)
    ensures
        r@.map_values(|l: String| l@) == spec_edit_labels(ev_seq(elements@),
            Seq::new(elements@.len(), |i: int| elements@[i].index as int)),
{
    let ghost evs = ev_seq(elements@);
    let ghost idxs = Seq::new(elements@.len(), |i: int| elements@[i].index as int);
    let n = elements.len();
    let mut labels: Vec<String> = Vec::new();
    proof {
        assert(labels@.map_values(|l: String| l@) =~= Seq::<Seq<char>>::empty());
        assert(evs.skip(0) =~= evs);
        assert(idxs.skip(0) =~= idxs);
        assert(labels@.map_values(|l: String| l@) + spec_edit_labels(evs, idxs)
            =~= spec_edit_labels(evs, idxs));
    }
    let mut j: usize = 0;
    while j < n
        invariant
            j <= n,
            labels@.map_values(|l: String| l@) + spec_edit_labels(evs.skip(j as int),
                idxs.skip(j as int)) == spec_edit_labels(evs, idxs),
        decreases n - j,
    {
        proof {
            assert(evs.skip(j as int)[0] == evs[j as int]);
            assert(idxs.skip(j as int)[0] == idxs[j as int]);
            assert(evs.skip(j as int).drop_first() =~= evs.skip(j + 1));
            assert(idxs.skip(j as int).drop_first() =~= idxs.skip(j + 1));
        }
        if elements[j].editable {
            let mut label = "[".to_owned();
            let idv = crate::util::u64_to_string(elements[j].index as u64);
            label.append(idv.as_str());
            label.append("] ");
            if !elements[j].text.as_str().is_empty() {
                label.append(elements[j].text.as_str());
            } else if !elements[j].desc.as_str().is_empty() {
                label.append(elements[j].desc.as_str());
            } else if !elements[j].resource_id.as_str().is_empty() {
                label.append(elements[j].resource_id.as_str());
            } else {
                label.append("unnamed");
            }
            let ghost lb = labels@.map_values(|l: String| l@);
            proof {
                assert(label@ == spec_edit_label(evs[j as int], idxs[j as int]));
            }
            labels.push(label);
            proof {
                assert(labels@.map_values(|l: String| l@) =~= lb.push(spec_edit_label(
                    evs[j as int], idxs[j as int])));
                assert(lb.push(spec_edit_label(evs[j as int], idxs[j as int])) + spec_edit_labels(
                    evs.skip(j + 1), idxs.skip(j + 1)) =~= lb + (seq![
                    spec_edit_label(evs[j as int], idxs[j as int]),
                ] + spec_edit_labels(evs.skip(j + 1), idxs.skip(j + 1))));
            }
        }
        j += 1;
    }
    proof {
        assert(evs.skip(n as int) =~= Seq::<ElemView>::empty());
        assert(idxs.skip(n as int) =~= Seq::<int>::empty());
        assert(spec_edit_labels(evs.skip(n as int), idxs.skip(n as int)) =~= Seq::<
            Seq<char>,
        >::empty());
        assert(labels@.map_values(|l: String| l@) =~= spec_edit_labels(evs, idxs));
    }
    labels
}

/// Count the clickable elements.
#[verifier::loop_isolation(false)]
fn count_clicks(elements: &Vec<UiElement>) -> (r: usize)
    ensures
        r as int == count_clickable(ev_seq(elements@)),
        r <= elements@.len(),
{
    let ghost evs = ev_seq(elements@);
    let n = elements.len();
    let mut clicks: usize = 0;
    proof {
        assert(evs.skip(0) =~= evs);
    }
    let mut k: usize = 0;
    while k < n
        invariant
            k <= n,
            clicks <= k,
            clicks + count_clickable(evs.skip(k as int)) == count_clickable(evs),
        decreases n - k,
    {
        proof {
            assert(evs.skip(k as int)[0] == evs[k as int]);
            assert(evs.skip(k as int).drop_first() =~= evs.skip(k + 1));
        }
        if elements[k].clickable {
            clicks += 1;
        }
        k += 1;
    }
    proof {
        assert(evs.skip(n as int) =~= Seq::<ElemView>::empty());
    }
    clicks
}

/// Format a screen state for the model prompt with numbered elements and
/// exact coordinates; see `spec_screen_body`.  With no state at hand the
/// prompt says so.
#[verifier::rlimit(100)]
#[verifier::spinoff_prover]
pub fn format_screen_with_resolution(screen: &Option<ScreenState>, resolution: Option<(u32, u32)>)
    -> (r: String)
    ensures
        ({
            match screen {
                Some(st) => r@ == spec_screen_body(st.current_app@, st.activity@,
                    match st.ui_tree {
                        Some(t) => Some(t@),
                        None => None,
                    }, ev_seq(st.elements@),
                    Seq::new(st.elements@.len(), |i: int| st.elements@[i].index as int),
                    st.screenshot_base64 is Some, resolution),
                None => r@ == "No screen state available."@,
            }
        }),
{
    let st = match screen {
        Some(st) => st,
        None => {
            return "No screen state available.".to_owned();
        },
    };
    let ghost evs = ev_seq(st.elements@);
    let ghost idxs = Seq::new(st.elements@.len(), |i: int| st.elements@[i].index as int);

    // The header line.
    let mut out = "App: ".to_owned();
    out.append(st.current_app.as_str());
    out.append(" | Activity: ");
    out.append(st.activity.as_str());
    let ghost head0 = "App: "@ + st.current_app@ + " | Activity: "@ + st.activity@;
    proof {
        assert(out@ == head0);
    }
    match resolution {
        Some((w, h)) => {
            out.append(" | Screen: ");
            let ws = crate::util::u64_to_string(w as u64);
            out.append(ws.as_str());
            out.append("x");
            let hs = crate::util::u64_to_string(h as u64);
            out.append(hs.as_str());
        },
        None => {},
    }
    let ghost head = out@;

    // The element or tree section.
    let n = st.elements.len();
    let mut middle = String::new();
    proof {
        assert(middle@ =~= Seq::<char>::empty());
    }
    if n > 0 {
        middle.append("\n\n=== UI ELEMENTS (");
        let ns = crate::util::u64_to_string(n as u64);
        middle.append(ns.as_str());
        middle.append(
            " on screen) ===\nIMPORTANT: Use the @(x,y) coordinates below for all tap actions.\nThese are pixel-accurate from the accessibility tree. Do NOT guess coordinates.\n\n",
        );
        append_elem_lines(&mut middle, &st.elements);

        let labels = collect_edit_labels(&st.elements);
        if labels.len() > 0 {
            middle.append("\nEditable fields: ");
            let joined = join_strings(&labels, ", ");
            middle.append(joined.as_str());
            middle.append("\n");
        }

        let clicks = count_clicks(&st.elements);
        if clicks > 0 {
            let cs = crate::util::u64_to_string(clicks as u64);
            middle.append(cs.as_str());
            middle.append(" clickable elements\n");
        }
    } else {
        match &st.ui_tree {
            Some(tree) => {
                middle.append("\nUI Tree:\n");
                let tv = str_chars(tree.as_str());
                let cut = take_prefix(&tv, 4000);
                let cts = chars_to_string(&cut);
                middle.append(cts.as_str());
            },
            None => {},
        }
    }

    // The screenshot section.
    let has_shot = match &st.screenshot_base64 {
        Some(_) => true,
        None => false,
    };
    let mut shot = String::new();
    proof {
        assert(shot@ =~= Seq::<char>::empty());
    }
    if has_shot {
        if n == 0 {
            shot.append("\n\nSCREENSHOT ATTACHED (vision fallback - no accessibility tree)\n");
        } else {
            shot.append("\n\nScreenshot also attached for visual context.\n");
        }
        match resolution {
            Some((w, h)) => {
                shot.append("Resolution: ");
                let ws = crate::util::u64_to_string(w as u64);
                shot.append(ws.as_str());
                shot.append("x");
                let hs = crate::util::u64_to_string(h as u64);
                shot.append(hs.as_str());
                shot.append(". ");
            },
            None => {},
        }
        if n == 0 {
            shot.append(
                "Identify UI elements from the screenshot.\nEstimate tap coordinates based on visible positions in the image.",
            );
        } else {
            shot.append("Use the element @(x,y) coordinates above - they are accurate.");
        }
    } else if n == 0 {
        shot.append("\n\nNo UI tree or screenshot available. Use well-known default coordinates.");
    }

    out.append(middle.as_str());
    out.append(shot.as_str());
    proof {
        assert(out@ == head + middle@ + shot@);
    }
    out
}

/// Format a screen state without a known resolution.
pub fn format_screen(screen: &Option<ScreenState>) -> (r: String)
    ensures
        ({
            match screen {
                Some(st) => r@ == spec_screen_body(st.current_app@, st.activity@,
                    match st.ui_tree {
                        Some(t) => Some(t@),
                        None => None,
                    }, ev_seq(st.elements@),
                    Seq::new(st.elements@.len(), |i: int| st.elements@[i].index as int),
                    st.screenshot_base64 is Some, None),
                None => r@ == "No screen state available."@,
            }
        }),
{
    format_screen_with_resolution(screen, None)
}


// ── Activity signature ──────────────────────────────────────────────────────

/// The first dump line that names the resumed or top-resumed activity: the
/// settle wait compares these signatures between two observations.
pub open spec fn spec_signature_line(lines: Seq<Seq<char>>) -> Option<Seq<char>>
    decreases lines.len(),
{
    if lines.len() == 0 {
        None
    } else if seq_contains(lines[0], "mResumedActivity:"@) || seq_contains(lines[0],
        "topResumedActivity:"@) {
        Some(lines[0])
    } else {
        spec_signature_line(lines.drop_first())
    }
}

/// Extract the foreground-activity signature line of an activity dump.
#[verifier::loop_isolation(false)]
pub fn activity_signature(raw: &str) -> (r: Option<String>)
    ensures
        ({
            let lines = crate::util::split_by(raw@, "\n"@);
            match r {
                Some(sig) => spec_signature_line(lines) == Some(sig@),
                None => spec_signature_line(lines) is None,
            }
        }),
{
    let rv = str_chars(raw);
    let newline = str_chars("\n");
    proof {
        reveal_strlit("\n");
    }
    let lines = split_chars(&rv, &newline);
    let ghost lviews = lines@.map_values(|l: Vec<char>| l@);
    let needle1 = str_chars("mResumedActivity:");
    let needle2 = str_chars("topResumedActivity:");
    let n = lines.len();
    let mut i: usize = 0;
    proof {
        assert(lviews.skip(0) =~= lviews);
    }
    while i < n
        invariant
            i <= n,
            spec_signature_line(lviews) == spec_signature_line(lviews.skip(i as int)),
        decreases n - i,
    {
        let ghost suffix = lviews.skip(i as int);
        proof {
            assert(suffix[0] == lviews[i as int]);
            assert(suffix.drop_first() =~= lviews.skip(i + 1));
        }
        if contains_sub(&lines[i], &needle1) || contains_sub(&lines[i], &needle2) {
            return Some(chars_to_string(&lines[i]));
        }
        i += 1;
    }
    proof {
        assert(lviews.skip(n as int) =~= Seq::<Seq<char>>::empty());
    }
    None
}

} // verus!
