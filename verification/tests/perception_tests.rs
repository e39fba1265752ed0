//! Tests of the perception parsers: bounds, fields, foreground activity and
//! the ranked element list.

use hermitdroid::perception::{
    bounds_center, extract_field, format_notifications, format_screen_with_resolution,
    format_single_element, parse_bounds, parse_dumpsys_notifications, parse_foreground_activity,
    parse_ui_elements, score_element, xml_attr, Notification, ScreenState, UiElement,
    MAX_ELEMENTS,
};

#[test]
fn test_bounds_center() {
    assert_eq!(bounds_center("[0,0][1080,200]"), Some((540, 100)));
    assert_eq!(bounds_center("[100,200][300,400]"), Some((200, 300)));
    assert_eq!(bounds_center(""), None);
}

#[test]
fn mod_test_parse_bounds() {
    assert_eq!(parse_bounds("[0,100][1080,200]"), [0, 100, 1080, 200]);
    assert_eq!(parse_bounds(""), [0, 0, 0, 0]);
}

#[test]
fn test_extract_field() {
    assert_eq!(
        extract_field("pkg=com.whatsapp user=UserHandle{0}", "pkg="),
        Some("com.whatsapp".into())
    );
    assert_eq!(extract_field("id=12345 flags=0x10", "id="), Some("12345".into()));
}

#[test]
fn test_parse_ui_elements() {
    let xml = r#"<?xml version="1.0" ?><hierarchy rotation="0"><node text="Search" resource-id="com.whatsapp:id/search_bar" class="android.widget.EditText" clickable="true" bounds="[0,100][1080,200]" content-desc="" focused="false" enabled="true" scrollable="false" /><node text="Chats" resource-id="com.whatsapp:id/tab_chats" class="android.widget.TextView" clickable="true" bounds="[0,200][360,300]" content-desc="" focused="false" enabled="true" scrollable="false" /><node text="" resource-id="" class="android.widget.FrameLayout" clickable="false" bounds="[0,0][0,0]" content-desc="" focused="false" enabled="true" scrollable="false" /></hierarchy>"#;

    let elements = parse_ui_elements(xml);

    // The zero-area layout node is filtered out.
    assert_eq!(elements.len(), 2);

    // Sorted by reading order: Search (y=150) then Chats (y=250).
    assert_eq!(elements[0].text, "Search");
    assert_eq!(elements[0].class, "EditText");
    assert_eq!(elements[0].center_x, 540);
    assert_eq!(elements[0].center_y, 150);
    assert!(elements[0].clickable);
    assert!(elements[0].editable);
    assert_eq!(elements[0].index, 1);

    assert_eq!(elements[1].text, "Chats");
    assert_eq!(elements[1].index, 2);
}

#[test]
fn mod_test_element_scoring() {
    let edit_score = score_element(
        "Search",
        "",
        "search",
        "EditText",
        true,
        true,
        true,
        false,
        true,
        &[0, 100, 1080, 200],
    );
    let text_score = score_element(
        "Hello",
        "",
        "",
        "TextView",
        false,
        false,
        false,
        false,
        true,
        &[0, 100, 1080, 200],
    );
    assert!(
        edit_score > text_score,
        "EditText ({}) should score higher than TextView ({})",
        edit_score,
        text_score
    );
}

#[test]
fn test_format_single_element() {
    let el = UiElement {
        index: 3,
        class: "Button".into(),
        text: "Send".into(),
        desc: String::new(),
        resource_id: "send_btn".into(),
        center_x: 900,
        center_y: 1800,
        bounds: [800, 1750, 1000, 1850],
        clickable: true,
        editable: false,
        focused: false,
        scrollable: false,
        checked: None,
        enabled: true,
        score: 90,
    };
    let out = format_single_element(&el);
    assert!(out.contains("[3]"));
    assert!(out.contains("Button"));
    assert!(out.contains("\"Send\""));
    assert!(out.contains("#send_btn"));
    assert!(out.contains("@(900,1800)"));
    assert!(out.contains("*click*"));
}

#[test]
fn test_max_elements_cap() {
    let mut xml = String::from("<?xml version=\"1.0\" ?><hierarchy rotation=\"0\">");
    for i in 0..60 {
        let y = 100 + i * 50;
        xml.push_str(&format!(
            "<node text=\"Item {}\" resource-id=\"id/item_{}\" class=\"android.widget.TextView\" clickable=\"true\" bounds=\"[0,{}][1080,{}]\" content-desc=\"\" focused=\"false\" enabled=\"true\" scrollable=\"false\" />",
            i, i, y, y + 40
        ));
    }
    xml.push_str("</hierarchy>");

    let elements = parse_ui_elements(&xml);
    assert!(
        elements.len() <= MAX_ELEMENTS,
        "Got {} elements, expected <= {}",
        elements.len(),
        MAX_ELEMENTS
    );
}

#[test]
fn test_parse_foreground() {
    let raw = r#"
    mResumedActivity: ActivityRecord{abc u0 com.whatsapp/.HomeActivity t55}
        "#;
    let (app, act) = parse_foreground_activity(raw);
    assert_eq!(app, "com.whatsapp");
    assert_eq!(act, ".HomeActivity");
}

#[test]
fn parse_foreground_unknown_without_component() {
    let (app, act) = parse_foreground_activity("nothing of interest here");
    assert_eq!(app, "unknown");
    assert_eq!(act, "unknown");
}

#[test]
fn xml_attr_reads_and_skips_empty() {
    let tag = "<node text=\"Hi\" desc=\"\" bounds=\"[0,0][10,10]\" />";
    assert_eq!(xml_attr(tag, "text"), Some("Hi".into()));
    // An empty value counts as absent.
    assert_eq!(xml_attr(tag, "desc"), None);
    assert_eq!(xml_attr(tag, "missing"), None);
}

#[test]
fn ranking_keeps_highest_scores() {
    // 45 plain text nodes and one clickable input: the input must survive
    // the cap of 40.
    let mut xml = String::from("<hierarchy>");
    for i in 0..45 {
        let y = 100 + i * 20;
        xml.push_str(&format!(
            "<node text=\"row {}\" class=\"android.widget.TextView\" bounds=\"[0,{}][300,{}]\" />",
            i,
            y,
            y + 10
        ));
    }
    xml.push_str(
        "<node text=\"Go\" class=\"android.widget.EditText\" clickable=\"true\" bounds=\"[0,2000][300,2100]\" />",
    );
    xml.push_str("</hierarchy>");
    let elements = parse_ui_elements(&xml);
    assert_eq!(elements.len(), 40);
    assert!(elements.iter().any(|e| e.text == "Go" && e.editable));
    // Indices are 1-based and in reading order.
    for (i, e) in elements.iter().enumerate() {
        assert_eq!(e.index, i + 1);
    }
    for w in elements.windows(2) {
        assert!(
            w[0].center_y < w[1].center_y
                || (w[0].center_y == w[1].center_y && w[0].center_x <= w[1].center_x)
        );
    }
}

#[test]
fn round_trip_single_editable_element() {
    // One clickable input with text "Search" at [0,100][1080,200] comes back
    // as exactly one element centered at (540,150).
    let xml = "<hierarchy><node text=\"Search\" class=\"android.widget.EditText\" clickable=\"true\" bounds=\"[0,100][1080,200]\" /></hierarchy>";
    let elements = parse_ui_elements(xml);
    assert_eq!(elements.len(), 1);
    let e = &elements[0];
    assert_eq!((e.center_x, e.center_y), (540, 150));
    assert!(e.editable);
    assert!(e.clickable);
    assert_eq!(e.index, 1);
}

#[test]
fn format_notifications_lists_or_placeholder() {
    let none: Vec<Notification> = Vec::new();
    assert_eq!(format_notifications(&none), "No new notifications.");
    let some = vec![Notification {
        id: "1".into(),
        app: "com.whatsapp".into(),
        title: "John".into(),
        text: "Hey!".into(),
        timestamp: "t".into(),
    }];
    assert_eq!(format_notifications(&some), "[com.whatsapp] John: Hey!");
}

#[test]
fn test_parse_notifications() {
    let raw = r#"
  NotificationRecord(0xabc: pkg=com.whatsapp user=UserHandle{0} id=1)
    android.title=John
    android.text=Hey!
    android.bigText=Hey! Are you coming to dinner tonight?
  NotificationRecord(0xdef: pkg=com.google.android.gm user=UserHandle{0} id=2)
    android.title=boss@work.com
    android.text=Q3 Review
  NotificationRecord(0x111: pkg=com.android.systemui user=UserHandle{0} id=3)
    android.title=USB connected
    android.text=Charging
        "#;

    let notifs = parse_dumpsys_notifications(raw, "2025-01-01T00:00:00Z");
    assert_eq!(notifs.len(), 2);
    assert_eq!(notifs[0].app, "com.whatsapp");
    assert_eq!(notifs[0].text, "Hey! Are you coming to dinner tonight?");
    assert_eq!(notifs[1].app, "com.google.android.gm");
    assert_eq!(notifs[1].title, "boss@work.com");
}

#[test]
fn test_vision_fallback_format() {
    let screen = Some(ScreenState {
        current_app: "com.example".into(),
        activity: ".MainActivity".into(),
        ui_tree: None,
        elements: vec![],
        screenshot_base64: Some("base64data".into()),
        timestamp: "2025-01-01".into(),
    });
    let text = format_screen_with_resolution(&screen, Some((1080, 2340)));
    assert!(text.contains("vision fallback"));
    assert!(text.contains("1080x2340"));
}

#[test]
fn format_screen_lists_editables_and_clicks() {
    let elements = hermitdroid::perception::parse_ui_elements(
        "<hierarchy><node text=\"Search\" class=\"android.widget.EditText\" clickable=\"true\" bounds=\"[0,100][1080,200]\" /></hierarchy>",
    );
    let screen = Some(ScreenState {
        current_app: "com.whatsapp".into(),
        activity: ".Home".into(),
        ui_tree: None,
        elements,
        screenshot_base64: None,
        timestamp: "t".into(),
    });
    let text = format_screen_with_resolution(&screen, None);
    assert!(text.starts_with("App: com.whatsapp | Activity: .Home"));
    assert!(text.contains("=== UI ELEMENTS (1 on screen) ==="));
    assert!(text.contains("Editable fields: [1] Search"));
    assert!(text.contains("1 clickable elements"));
    assert_eq!(
        hermitdroid::perception::format_screen(&None),
        "No screen state available."
    );
}
