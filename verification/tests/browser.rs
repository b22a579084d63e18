use qidi_core::browser::{
    classify_selector, clicked_detail, element_content, html_to_markdown, keep_waiting,
    limit_refs, no_match_message, ref_lookup_expression, settle_ms, show_markdown,
    stale_ref_message, truncate_chars, typed_detail, typing_of, BrowserElementRef,
    BrowserNavigateInput, BrowserSnapshotResult, BrowserTypeInput, ClickImpl, NavigateImpl,
    ReadImpl, SnapshotImpl, Target, ThinkImpl, ThinkInput, TypeImpl, Typing,
    BROWSER_CLICK_TOOL_NAME, BROWSER_NAVIGATE_TOOL_NAME, BROWSER_READ_TOOL_NAME,
    BROWSER_SNAPSHOT_TOOL_NAME, BROWSER_TYPE_TOOL_NAME, MAX_CONTENT_CHARS, THINK_TOOL_NAME,
};
use qidi_core::tool_meta::{ToolKind, ToolNamespace, ToolScope};
use qidi_core::html_nesting::html_nesting;
use qidi_core::insert_text::build_insert_text_expression;

#[test]
fn html_to_markdown_strips_markup() {
    let md = html_to_markdown("<h1>Hello</h1><p>World &amp; more</p>");
    assert!(md.to_lowercase().contains("hello"), "md: {md}");
    assert!(md.to_lowercase().contains("world"), "md: {md}");
}

#[test]
fn html_to_markdown_leaves_scripts_out() {
    let md = html_to_markdown("<p>seen</p><script>hidden()</script><style>p{}</style>");
    assert_eq!(md, "seen");
}

#[test]
fn nesting_counts_open_elements() {
    assert_eq!(html_nesting(""), 0);
    assert_eq!(html_nesting("a < b"), 0);
    assert_eq!(html_nesting("<p>a</p><p>b</p>"), 1);
    assert_eq!(html_nesting("<div><p>a<br><img src=x></p></DIV ><p></p>"), 2);
    // An end tag that is not that of the innermost element closes nothing.
    assert_eq!(html_nesting("<div><b></div><i>"), 3);
    assert_eq!(html_nesting("<div></b></div><i>"), 1);
    // Tags in comments, values and scripts are none.
    assert_eq!(html_nesting("<div><!-- </div> --><b>"), 2);
    assert_eq!(html_nesting("<div><!--><b>--></b></div>"), 2);
    assert_eq!(html_nesting("<div a='</div>' b=\"<i>\"><b>"), 2);
    assert_eq!(html_nesting("<div =\"><b>\">"), 2);
    assert_eq!(html_nesting("<script>if (a<b && '</div>') {}</script><i></i>"), 1);
    assert_eq!(html_nesting("<script><!--<script></script></i>--></script><i></i>"), 1);
    assert_eq!(html_nesting("<title><b></title><i></i>"), 1);
    assert_eq!(html_nesting("<svg><title>t</title><link></svg>"), 2);
    assert_eq!(html_nesting("<!doctype html><?x?></><p>"), 1);
    assert_eq!(html_nesting("<div"), 0);
    // What cannot be told counts as the whole page.
    assert_eq!(html_nesting("<svg><style><g></style>"), 23);
    assert_eq!(html_nesting("<![CDATA[x]]>"), 13);
}

#[test]
fn deep_pages_are_not_converted() {
    let page = |n: usize| format!("{}deep{}", "<div>".repeat(n), "</div>".repeat(n));
    assert_eq!(html_to_markdown(&page(400)), "deep");
    assert_eq!(html_to_markdown(&page(401)), "");
    assert_eq!(html_to_markdown(&"<div>".repeat(100_000)), "");
    // A table counts for its body and its row as well.
    let tables = format!("{}deep", "<table><td>".repeat(100));
    assert!(html_to_markdown(&tables).contains("deep"));
    assert_eq!(html_nesting("<table><td></td></table>"), 4);
    // Many elements are not deep ones.
    assert!(html_to_markdown(&"<p>x</p>".repeat(3_000)).starts_with('x'));
}

#[test]
fn truncate_caps_length() {
    let long = "x".repeat(50_000);
    let out = truncate_chars(&long, MAX_CONTENT_CHARS);
    assert!(out.chars().count() <= MAX_CONTENT_CHARS + 16);
    assert!(out.ends_with("[truncated]"));
    assert_eq!(truncate_chars("éé", 2), "éé");
    assert_eq!(truncate_chars("ééé", 2), "éé\n\n[truncated]");
}

#[test]
fn insert_text_expression_cjk_is_ascii_single_line() {
    let expr = build_insert_text_expression("中文测试一二三");
    assert!(expr.is_ascii(), "expression must be pure ASCII: {expr}");
    assert!(!expr.contains('\n'), "expression must be single line: {expr}");
    assert!(expr.starts_with("(() => {"), "expr: {expr}");
    assert!(expr.ends_with("})()"), "expr: {expr}");
    assert!(expr.contains("execCommand('insertText'"), "expr: {expr}");
    assert!(expr.contains("\\u4e2d\\u6587"), "cjk escape: {expr}");
}

#[test]
fn insert_text_expression_astral_uses_surrogate_pair() {
    let expr = build_insert_text_expression("😀");
    assert!(expr.is_ascii(), "expression must be pure ASCII: {expr}");
    assert!(expr.contains("\\ud83d\\ude00"), "surrogate pair: {expr}");
}

#[test]
fn insert_text_expression_escapes_quotes_backslash_and_cjk() {
    let expr = build_insert_text_expression("He said \"hi\" \\ ok 中文");
    assert!(expr.is_ascii(), "expression must be pure ASCII: {expr}");
    assert!(expr.contains("\\\""), "escaped double quote: {expr}");
    assert!(expr.contains("\\\\"), "escaped backslash: {expr}");
    assert!(expr.contains("\\u4e2d"), "cjk escape: {expr}");
}

#[test]
fn insert_text_expression_handles_empty_control_and_single_quote() {
    let empty = build_insert_text_expression("");
    assert!(empty.is_ascii(), "expression: {empty}");
    assert!(empty.contains("false, \"\")"), "empty literal: {empty}");

    let newline = build_insert_text_expression("a\nb");
    assert!(newline.is_ascii(), "expression: {newline}");
    assert!(newline.contains("a\\nb"), "escaped newline: {newline}");

    let apostrophe = build_insert_text_expression("it's");
    assert!(apostrophe.is_ascii(), "expression: {apostrophe}");
    assert!(apostrophe.contains("\"it's\""), "literal: {apostrophe}");
}

#[test]
fn insert_text_literal_reads_back_as_json() {
    let text = "a\"\\\u{8}\t\n\u{c}\r\u{1}\u{1f}\u{7f}é中😀'";
    let expr = build_insert_text_expression(text);
    let start = expr.find("false, ").unwrap() + "false, ".len();
    let end = expr.rfind("); })()").unwrap();
    let back: String = serde_json::from_str(&expr[start..end]).unwrap();
    assert_eq!(back, text);
    assert!(expr.contains("\\u0001\\u001f"));
}

#[test]
fn browser_tool_constants_match_registered_ids() {
    assert_eq!(BROWSER_NAVIGATE_TOOL_NAME, "browser_navigate");
    assert_eq!(BROWSER_SNAPSHOT_TOOL_NAME, "browser_snapshot");
    assert_eq!(BROWSER_CLICK_TOOL_NAME, "browser_click");
    assert_eq!(BROWSER_TYPE_TOOL_NAME, "browser_type");
    assert_eq!(BROWSER_READ_TOOL_NAME, "browser_read");
    assert_eq!(NavigateImpl.id(), BROWSER_NAVIGATE_TOOL_NAME);
    assert_eq!(ClickImpl.id(), BROWSER_CLICK_TOOL_NAME);
    assert_eq!(SnapshotImpl.id(), BROWSER_SNAPSHOT_TOOL_NAME);
    assert_eq!(TypeImpl.id(), BROWSER_TYPE_TOOL_NAME);
    assert_eq!(ReadImpl.id(), BROWSER_READ_TOOL_NAME);
}

#[test]
fn browser_tool_descriptions_use_constant_names() {
    for (name, desc) in [
        (BROWSER_NAVIGATE_TOOL_NAME, NavigateImpl.description()),
        (BROWSER_SNAPSHOT_TOOL_NAME, SnapshotImpl.description()),
        (BROWSER_CLICK_TOOL_NAME, ClickImpl.description()),
        (BROWSER_TYPE_TOOL_NAME, TypeImpl.description()),
        (BROWSER_READ_TOOL_NAME, ReadImpl.description()),
    ] {
        assert_eq!(desc.name, name);
    }
}

#[test]
fn browser_tool_meta_split_read_vs_act() {
    for (kind, caps) in [
        (NavigateImpl.kind(), NavigateImpl.capabilities()),
        (SnapshotImpl.kind(), SnapshotImpl.capabilities()),
        (ReadImpl.kind(), ReadImpl.capabilities()),
    ] {
        assert!(matches!(kind, ToolKind::BrowserRead));
        assert!(ToolKind::BrowserRead.is_read_only());
        assert!(caps.is_read_only);
        assert_eq!(caps.tool_scope, Some(ToolScope::Read));
    }
    for (kind, caps) in [
        (ClickImpl.kind(), ClickImpl.capabilities()),
        (TypeImpl.kind(), TypeImpl.capabilities()),
    ] {
        assert!(matches!(kind, ToolKind::BrowserAct));
        assert!(!ToolKind::BrowserAct.is_read_only());
        assert!(!caps.is_read_only);
        assert_eq!(caps.tool_scope, Some(ToolScope::Write));
    }
    for ns in [
        NavigateImpl.tool_namespace(),
        SnapshotImpl.tool_namespace(),
        ReadImpl.tool_namespace(),
        ClickImpl.tool_namespace(),
        TypeImpl.tool_namespace(),
    ] {
        assert_eq!(ns, ToolNamespace::QidiBuild);
    }
}

#[test]
fn descriptions_name_the_tools() {
    assert!(NavigateImpl.description_template().contains("browser_snapshot"));
    assert!(SnapshotImpl.description_template().contains("browser_click"));
    assert!(ClickImpl.description_template().contains("browser_snapshot"));
    assert!(TypeImpl.description_template().contains("submit=true"));
    assert!(ReadImpl.description_template().contains("browser_navigate"));
}

fn nav(url: &str) -> BrowserNavigateInput {
    BrowserNavigateInput { url: url.to_string(), wait_ms: None }
}

#[test]
fn navigate_run_uses_backend_and_validates_url() {
    assert_eq!(NavigateImpl.check_url(&nav(" HTTPS://example.test ")).unwrap(), "HTTPS://example.test");
    assert_eq!(NavigateImpl.check_url(&nav("https://example.test")).unwrap(), "https://example.test");
    for url in ["about:blank", "data:text/html,x", "file:///etc/hosts", "ftp://x", "http:/x", ""] {
        assert!(NavigateImpl.check_url(&nav(url)).is_err(), "{url}");
    }
    let e = NavigateImpl.check_url(&nav("javascript:alert(1)")).unwrap_err();
    assert_eq!(e.code, "invalid_url");
    assert_eq!(
        e.message,
        "url must be absolute with an http/https scheme, got `javascript:alert(1)`"
    );
    assert_eq!(
        NavigateImpl.loaded("https://example.test/final", "Example"),
        "Loaded: https://example.test/final\nTitle: Example"
    );
}

#[test]
fn snapshots_list_elements_and_content() {
    let snap = BrowserSnapshotResult {
        url: "https://example.test".to_string(),
        title: "Example".to_string(),
        markdown: "# Example\n\nbody text".to_string(),
        refs: vec![
            BrowserElementRef {
                ref_id: 1,
                tag: "button".to_string(),
                role: "button".to_string(),
                text: "go".to_string(),
                css_path: "button".to_string(),
            },
            BrowserElementRef {
                ref_id: 2,
                tag: "a".to_string(),
                role: "link".to_string(),
                text: String::new(),
                css_path: "a".to_string(),
            },
        ],
    };
    assert_eq!(
        SnapshotImpl.render(&snap, false),
        "# Example\nURL: https://example.test\n\n## Interactive elements\n- [1] button: \"go\"\n\
         - [2] link: \"-\"\n\n## Content\n# Example\n\nbody text"
    );
    assert!(!SnapshotImpl.render(&snap, true).contains("body text"));
    let quotes = vec!["'go'".to_string(), "'-'".to_string()];
    assert!(SnapshotImpl.render_with(&snap, &quotes, true).contains("- [1] button: 'go'\n"));
}

#[test]
fn typing_nothing_is_refused() {
    let input = |text: &str, clear: bool| BrowserTypeInput {
        selector: "#q".to_string(),
        text: text.to_string(),
        submit: false,
        clear,
    };
    assert_eq!(TypeImpl.check_input(&input("", false)).unwrap().code, "empty_type");
    assert!(TypeImpl.check_input(&input("", true)).is_none());
    assert!(TypeImpl.check_input(&input("x", false)).is_none());
}

#[test]
fn text_is_typed_or_inserted() {
    assert!(matches!(typing_of("hello"), Typing::Keys));
    match typing_of("héllo") {
        Typing::Script(s) => assert_eq!(s, build_insert_text_expression("héllo")),
        Typing::Keys => panic!("not ASCII"),
    }
    assert_eq!(typed_detail(" #q ", false), "typed into `#q`");
    assert_eq!(typed_detail("#q", true), "typed into `#q` and submitted (Enter)");
    assert_eq!(clicked_detail("x", "u"), "clicked; page is now `x` (u)");
}

#[test]
fn selectors_are_told_apart() {
    assert!(matches!(classify_selector("  "), Target::Nothing));
    assert!(matches!(classify_selector(" 7 "), Target::Ref(n) if n == "7"));
    assert!(matches!(classify_selector("0"), Target::Css(_)));
    assert!(matches!(classify_selector("a.login"), Target::Css(s) if s == "a.login"));
    assert_eq!(
        ref_lookup_expression("7"),
        "(() => { const e = window.__qidiRefs && window.__qidiRefs[7]; return e ? e.css_path : null; })()"
    );
    assert!(stale_ref_message("7").starts_with("ref 7 is stale"));
    assert_eq!(no_match_message("b", "x"), "no element matches selector `b`: x");
}

#[test]
fn waits_are_bounded() {
    assert_eq!(settle_ms(None), 300);
    assert_eq!(settle_ms(Some(0)), 0);
    assert_eq!(settle_ms(Some(99_999)), 10_000);
    assert!(keep_waiting(&None, 0));
    assert!(keep_waiting(&Some("loading".to_string()), 19_999));
    assert!(!keep_waiting(&Some("loading".to_string()), 20_000));
    assert!(!keep_waiting(&Some("complete".to_string()), 0));
}

#[test]
fn content_is_trimmed_and_listed_elements_are_limited() {
    assert_eq!(element_content(Some("  a \n".to_string())), "a");
    assert_eq!(element_content(None), "");
    assert_eq!(show_markdown(Some(" # x ".to_string())), "# x");
    let r = BrowserElementRef {
        ref_id: 1,
        tag: String::new(),
        role: String::new(),
        text: String::new(),
        css_path: String::new(),
    };
    assert_eq!(limit_refs(vec![r.clone(); 401]).len(), 400);
    assert_eq!(limit_refs(vec![r; 3]).len(), 3);
}

#[test]
fn think_tool_constant_matches_registered_id() {
    assert_eq!(THINK_TOOL_NAME, "think");
    assert_eq!(ThinkImpl.id(), THINK_TOOL_NAME);
}

#[test]
fn think_tool_is_read_only_meta() {
    assert_eq!(ThinkImpl.kind(), ToolKind::Think);
    assert!(ToolKind::Think.is_read_only());
    assert_eq!(ThinkImpl.tool_namespace(), ToolNamespace::QidiBuild);
    let caps = ThinkImpl.capabilities();
    assert!(caps.is_read_only);
    assert_eq!(caps.tool_scope, Some(ToolScope::Read));
    assert!(ThinkImpl.description_template().starts_with("Record your internal reasoning"));
}

#[test]
fn think_tool_description_uses_constant_name() {
    assert_eq!(ThinkImpl.description().name, THINK_TOOL_NAME);
}

#[test]
fn think_run_acks_without_side_effects() {
    let input = ThinkInput { thought: "probe: restate, decompose, decide".to_string() };
    assert_eq!(ThinkImpl.run(&input), "Thought recorded.");
}
