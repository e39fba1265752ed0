//! Tests of the sanitizer module: vision modes, bounds, attributes and the
//! ranked accessibility parse.

use hermitdroid::sanitizer::{
    get_attr, get_bool_attr, parse_accessibility_xml, parse_bounds, score_element, UiElement,
    VisionMode,
};

const SAMPLE_XML: &str = r#"<?xml version="1.0" encoding="UTF-8"?>
<hierarchy rotation="0">
  <node index="0" text="" resource-id="" class="android.widget.FrameLayout" package="com.whatsapp" content-desc="" checkable="false" checked="false" clickable="false" enabled="true" focusable="false" focused="false" scrollable="false" long-clickable="false" password="false" selected="false" bounds="[0,0][1080,2400]">
    <node index="0" text="Chats" resource-id="com.whatsapp:id/tab_label" class="android.widget.TextView" package="com.whatsapp" content-desc="" checkable="false" checked="false" clickable="true" enabled="true" focusable="true" focused="false" scrollable="false" long-clickable="false" password="false" selected="true" bounds="[0,150][270,210]">
    </node>
    <node index="1" text="" resource-id="com.whatsapp:id/fab" class="android.widget.ImageButton" package="com.whatsapp" content-desc="New chat" checkable="false" checked="false" clickable="true" enabled="true" focusable="true" focused="false" scrollable="false" long-clickable="false" password="false" selected="false" bounds="[900,2200][1040,2340]">
    </node>
    <node index="2" text="Hello! How are you?" resource-id="" class="android.widget.TextView" package="com.whatsapp" content-desc="" checkable="false" checked="false" clickable="false" enabled="true" focusable="false" focused="false" scrollable="false" long-clickable="false" password="false" selected="false" bounds="[100,500][800,550]">
    </node>
    <node index="3" text="" resource-id="com.whatsapp:id/entry" class="android.widget.EditText" package="com.whatsapp" content-desc="Type a message" checkable="false" checked="false" clickable="true" enabled="true" focusable="true" focused="false" scrollable="false" long-clickable="false" password="false" selected="false" bounds="[80,2100][900,2180]">
    </node>
  </node>
</hierarchy>"#;

#[test]
fn test_parse_accessibility_xml() {
    let result = parse_accessibility_xml(SAMPLE_XML, 50);
    // Four useful elements; the bare root layout is filtered out.
    assert_eq!(result.raw_count, 4);
    assert_eq!(result.total_found, 4);
    assert!(result.foreground_package.as_deref() == Some("com.whatsapp"));
    // Three interactive elements sit below the threshold of five, so the
    // sparse tree recommends vision fallback.
    assert_eq!(result.interactive_count, 3);
    assert!(result.needs_vision_fallback);
    // Indices are 1-based in reading order (top to bottom, left to right).
    for (i, e) in result.elements.iter().enumerate() {
        assert_eq!(e.index, i + 1);
    }
    for w in result.elements.windows(2) {
        assert!(
            w[0].center.1 < w[1].center.1
                || (w[0].center.1 == w[1].center.1 && w[0].center.0 <= w[1].center.0)
        );
    }
    // Zero-area records never survive.
    for e in &result.elements {
        assert!(e.bounds[2] > e.bounds[0] && e.bounds[3] > e.bounds[1]);
    }
}

#[test]
fn zero_area_interactive_node_is_dropped() {
    // A clickable node with an empty box is invisible and must not be kept.
    let xml = "<node text=\"ghost\" class=\"android.widget.Button\" clickable=\"true\" bounds=\"[5,5][5,5]\" package=\"com.example\">";
    let result = parse_accessibility_xml(xml, 50);
    assert_eq!(result.raw_count, 0);
    assert_eq!(result.elements.len(), 0);
}

#[test]
fn cap_keeps_highest_scores() {
    // Nine plain rows and one clickable input; with a cap of five the input
    // must survive.
    let mut xml = String::new();
    for i in 0..9 {
        let y = 100 + i * 60;
        xml.push_str(&format!(
            "<node text=\"row {}\" class=\"android.widget.TextView\" bounds=\"[0,{}][300,{}]\">",
            i,
            y,
            y + 50
        ));
    }
    xml.push_str(
        "<node text=\"Go\" class=\"android.widget.EditText\" clickable=\"true\" bounds=\"[0,900][300,950]\">",
    );
    let result = parse_accessibility_xml(&xml, 5);
    assert_eq!(result.elements.len(), 5);
    assert!(result.elements.iter().any(|e| e.text == "Go"));
}

#[test]
fn sanitizer_test_parse_bounds() {
    assert_eq!(parse_bounds("[0,0][1080,2400]"), Some([0, 0, 1080, 2400]));
    assert_eq!(parse_bounds("[100,200][300,400]"), Some([100, 200, 300, 400]));
    assert_eq!(parse_bounds("invalid"), None);
}

#[test]
fn test_vision_mode_from_str() {
    assert_eq!(VisionMode::from_str("off"), VisionMode::Off);
    assert_eq!(VisionMode::from_str("fallback"), VisionMode::Fallback);
    assert_eq!(VisionMode::from_str("always"), VisionMode::Always);
    assert_eq!(VisionMode::from_str("auto"), VisionMode::Fallback);
    assert_eq!(VisionMode::from_str("garbage"), VisionMode::Fallback);
}

#[test]
fn vision_mode_as_str_round_trip() {
    for mode in [VisionMode::Off, VisionMode::Fallback, VisionMode::Always] {
        assert_eq!(VisionMode::from_str(mode.as_str()), mode);
    }
}

fn sample_element(class_short: &str, clickable: bool, focusable: bool) -> UiElement {
    UiElement {
        index: 0,
        class: format!("android.widget.{}", class_short),
        class_short: class_short.to_string(),
        text: "OK".into(),
        content_desc: String::new(),
        resource_id: String::new(),
        resource_id_short: String::new(),
        package: String::new(),
        clickable,
        long_clickable: false,
        focusable,
        scrollable: false,
        checkable: false,
        checked: false,
        enabled: true,
        selected: false,
        editable: false,
        bounds: [400, 1000, 680, 1080],
        center: (540, 1040),
        score: 0,
    }
}

#[test]
fn sanitizer_test_element_scoring() {
    let button = sample_element("Button", true, true);
    let textview = sample_element("TextView", false, false);
    assert!(score_element(&button) > score_element(&textview));
}

#[test]
fn test_empty_tree_triggers_fallback() {
    let result = parse_accessibility_xml("", 50);
    assert!(result.needs_vision_fallback);
    assert_eq!(result.interactive_count, 0);
    assert_eq!(result.elements.len(), 0);
}

#[test]
fn get_attr_decodes_entities() {
    let tag = r#"<node text="a &amp; b &lt;c&gt; &quot;d&quot;" bounds="[0,0][10,10]" clickable="true">"#;
    assert_eq!(get_attr(tag, "text").as_deref(), Some("a & b <c> \"d\""));
    assert!(get_bool_attr(tag, "clickable"));
    assert!(!get_bool_attr(tag, "enabled"));
}

#[test]
fn sanitizer_cap_respects_max_elements() {
    let mut xml = String::new();
    for i in 0..30 {
        let y = 100 + i * 60;
        xml.push_str(&format!(
            "<node text=\"row {}\" class=\"android.widget.Button\" clickable=\"true\" bounds=\"[0,{}][300,{}]\" package=\"com.example\">",
            i,
            y,
            y + 50
        ));
    }
    let result = parse_accessibility_xml(&xml, 10);
    assert_eq!(result.total_found, 30);
    assert_eq!(result.elements.len(), 10);
    assert_eq!(result.foreground_package.as_deref(), Some("com.example"));
}

#[test]
fn test_format_element() {
    let elem = UiElement {
        index: 1,
        class: "android.widget.Button".into(),
        class_short: "Button".into(),
        text: "Send".into(),
        content_desc: String::new(),
        resource_id: "com.app:id/send_btn".into(),
        resource_id_short: "send_btn".into(),
        package: "com.app".into(),
        clickable: true,
        long_clickable: false,
        focusable: true,
        scrollable: false,
        checkable: false,
        checked: false,
        enabled: true,
        selected: false,
        editable: false,
        bounds: [900, 2200, 1040, 2340],
        center: (970, 2270),
        score: 1500,
    };

    let formatted = hermitdroid::sanitizer::format_element(&elem);
    assert!(formatted.contains("[1] Button"));
    assert!(formatted.contains("\"Send\""));
    assert!(formatted.contains("@(970,2270)"));
    assert!(formatted.contains("clickable"));
    assert!(formatted.contains("id:send_btn"));
}

#[test]
fn format_for_llm_has_header_and_lines() {
    let screen = parse_accessibility_xml(SAMPLE_XML, 50);
    let text = hermitdroid::sanitizer::format_for_llm(&screen, Some((1080, 2400)));
    assert!(text.contains("App: com.whatsapp"));
    assert!(text.contains("Screen: 1080x2400"));
    assert!(text.contains("Elements: 4 shown / 4 total (3 interactive)"));
    assert!(text.contains("Sparse accessibility tree"));
    assert!(text.contains("[1] "));
}
