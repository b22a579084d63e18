use qidi_core::html_text::{
    class_text_of, extract_attr, extract_class_text, first_anchor_in_h3, first_p_text, strip_tags,
};
use qidi_core::web_search::{
    after_answer, format_results, has_cjk, is_allowed_host, is_challenge, is_host_in, next_engine,
    parse_bing, parse_so360, parse_sogou, results_in, retain_domains, score_of, so360_block,
    sogou_block, sogou_results, Block, Engine, SearchResult, SearchStep,
};

#[test]
fn cjk_detection() {
    assert!(has_cjk("Rust 并发编程"));
    assert!(has_cjk("东京 天气"));
    assert!(!has_cjk("rust async programming"));
}

#[test]
fn strip_tags_basics() {
    assert_eq!(strip_tags("<p>Hello <b>world</b></p>"), "Hello world");
    assert_eq!(strip_tags("a &amp; b&nbsp;&nbsp;c"), "a & b c");
    assert_eq!(
        strip_tags("<script>var x=1;</script><style>p{}</style>text"),
        "text"
    );
    assert_eq!(strip_tags("  multi   \n line  "), "multi line");
}

#[test]
fn blocks_are_dropped_wholesale() {
    assert_eq!(strip_tags("<style>p{}</style>keep<SCRIPT>x</SCRIPT>"), "keep");
    assert_eq!(strip_tags("İ<script>x</script>ok"), "İok");
    assert_eq!(strip_tags("a<script>open"), "aopen");
    assert_eq!(strip_tags("&lt;b&gt; &quot;q&quot; &#39;s&#39;&#160;"), "<b> \"q\" 's'");
}

#[test]
fn parse_so360_sample() {
    let html = r#"<ul><li class="res-list" data-mdurl="https://real.example/a">
        <h3><a href="https://tracker.so.com/link?x">Example A</a></h3>
        <p class="res-desc">关于 A 的摘要</p></li>
        <li class="res-list"><h3><a href="https://b.example/b">B result</a></h3></li></ul>"#;
    let rs = parse_so360(html, 5);
    assert_eq!(rs.len(), 2);
    assert_eq!(rs[0].url, "https://real.example/a"); // mdurl preferred
    assert_eq!(rs[0].title, "Example A");
    assert_eq!(rs[0].snippet, "关于 A 的摘要");
    assert_eq!(rs[1].url, "https://b.example/b");
}

#[test]
fn parse_sogou_sample() {
    let html = r#"<div class="vrwrap"><h3><a href="/link?url=abc123">Sogou 标题</a></h3>
        <p class="space-txt">摘要文字</p></div>
        <div class="rb"><h3><a href="https://plain.example/x">Plain</a></h3></div>"#;
    let rs = parse_sogou(html, 5);
    assert_eq!(rs.len(), 2);
    assert_eq!(rs[0].url, "https://www.sogou.com/link?url=abc123");
    assert_eq!(rs[0].snippet, "摘要文字");
    assert_eq!(rs[1].url, "https://plain.example/x");
}

#[test]
fn parse_bing_scores_and_blacklist() {
    let html = r#"<ol><li class="b_algo"><h2><a href="https://good.example/rust">rust guide</a></h2>
        <p>rust async runtime</p></li>
        <li class="b_algo"><h2><a href="https://baike.baidu.com/item/rust">rust 百科</a></h2>
        <p>rust 词条</p></li>
        <li class="b_algo"><h2><a href="https://other.example/unrelated">unrelated</a></h2>
        <p>nothing here</p></li></ol>"#;
    let rs = parse_bing(html, "rust async", 3);
    assert_eq!(rs.len(), 3);
    // Scoring: title+snippet hits rank first; blacklist sinks to last.
    assert_eq!(rs[0].url, "https://good.example/rust");
    assert_eq!(rs.last().unwrap().url, "https://baike.baidu.com/item/rust");
    assert_eq!(parse_bing(html, "rust async", 1).len(), 1);
}

#[test]
fn first_anchor_handles_nested_markup() {
    let block = r#"<h3 class="t"><a class="a" href='https://x.example/1'>Title <strong>bold</strong></a></h3>"#;
    let (title, href) = first_anchor_in_h3(block).unwrap();
    assert_eq!(title, "Title bold");
    assert_eq!(href, "https://x.example/1");
}

#[test]
fn empty_html_yields_empty() {
    assert!(parse_so360("<html></html>", 5).is_empty());
    assert!(parse_sogou("", 5).is_empty());
    assert!(parse_bing("no results", "q", 5).is_empty());
}

#[test]
fn format_results_renders_numbered_list() {
    let rs = vec![
        SearchResult {
            title: "Title A".into(),
            url: "https://a.example".into(),
            snippet: "snippet a".into(),
        },
        SearchResult {
            title: "Title B".into(),
            url: "https://b.example".into(),
            snippet: String::new(),
        },
    ];
    let out = format_results("q", &rs);
    assert!(out.starts_with("Web search results for \"q\":"));
    assert!(out.contains("[1] Title A\nURL: https://a.example\nSnippet: snippet a"));
    assert!(out.contains("[2] Title B\nURL: https://b.example\n"));
    assert!(!out.contains("Snippet: \n"));
    assert_eq!(format_results("q", &vec![]), "No results found for \"q\".");
}

#[test]
fn reading_stops_at_the_count() {
    let block = |u: &str| format!("<h3><a href=\"http://{u}\">{u}</a></h3>");
    let blocks = vec!["head".to_string(), block("a"), "none".to_string(), block("b"), block("c")];
    let urls = |n: usize| -> Vec<String> {
        results_in(Engine::Bing, &blocks, n).into_iter().map(|r| r.url).collect()
    };
    assert_eq!(urls(2), vec!["http://a", "http://b"]);
    assert_eq!(urls(9).len(), 3);
    assert_eq!(urls(0), vec!["http://a"]);
}

#[test]
fn blocks_come_to_results() {
    let s = |t: &str| Some(t.to_string());
    let link = || Some(("T".to_string(), "/link?x".to_string()));
    match sogou_block(link(), None, s("space"), "p".to_string()) {
        Block::Result(r) => {
            assert_eq!(r.url, "https://www.sogou.com/link?x");
            assert_eq!(r.snippet, "space");
        }
        other => panic!("got {other:?}"),
    }
    match sogou_block(link(), None, None, "p".to_string()) {
        Block::Result(r) => assert_eq!(r.snippet, "p"),
        other => panic!("got {other:?}"),
    }
    assert!(matches!(so360_block(link(), None, None), Block::NoResult));
    assert!(matches!(so360_block(None, s("http://x"), None), Block::NoLink));
}

#[test]
fn class_text_follows_nesting() {
    let block = "<div class=\"a b\">one<div>two</div>three</div>four";
    assert_eq!(extract_class_text(block, "b").as_deref(), Some("onetwothree"));
    assert_eq!(extract_class_text(block, "c"), None);
    assert_eq!(extract_class_text("<p class='x'>open<br>", "x").as_deref(), Some("open"));
    assert_eq!(extract_class_text("<p class='x'></p>", "x"), None);
    let pieces: Vec<String> = ["", "hi", ""].iter().map(|s| s.to_string()).collect();
    let tags = vec![
        ("<P class=\"x\">".to_string(), "P".to_string()),
        ("</p>".to_string(), "p".to_string()),
    ];
    assert_eq!(class_text_of(&pieces, &tags, "x").as_deref(), Some("hi"));
}

#[test]
fn attributes_and_paragraphs() {
    assert_eq!(extract_attr("<a href='x\"y'>", "href").as_deref(), Some("x\"y"));
    assert_eq!(extract_attr("<a href=x>", "href"), None);
    assert_eq!(extract_attr("<a>", "href"), None);
    assert_eq!(first_p_text("<p class=q>a <i>b</i></p>"), "a b");
    assert_eq!(first_p_text("<p>open"), "");
}

#[test]
fn engines_take_turns() {
    let order = |q: &str| -> Vec<Option<Engine>> { (0..4).map(|n| next_engine(q, n)).collect() };
    assert_eq!(
        order("天气"),
        vec![Some(Engine::So360), Some(Engine::Sogou), Some(Engine::Bing), None]
    );
    assert_eq!(
        order("weather"),
        vec![Some(Engine::Bing), Some(Engine::So360), Some(Engine::Sogou), None]
    );
}

#[test]
fn challenges_are_recognised() {
    assert!(is_challenge("/antispider/", "<html>"));
    assert!(is_challenge("/web", "请输入验证码"));
    assert!(!is_challenge("/web", "<html>"));
    let far = format!("{}验", "x".repeat(2000));
    assert!(!is_challenge("/web", &far));
}

#[test]
fn challenged_pages_bring_no_results() {
    let page = "<div class=\"rb\"><h3><a href=\"/link?url=x\">Title</a></h3><p>text</p>";
    assert_eq!(sogou_results("/web", page, 5), parse_sogou(page, 5));
    assert_eq!(sogou_results("/web", page, 5).len(), 1);
    assert!(sogou_results("/antispider/", page, 5).is_empty());
    assert!(sogou_results("/web", &format!("验{page}"), 5).is_empty());
    // A character that lies across the end of the window.
    let torn = format!("{page}{}é{}", "x".repeat(1999 - page.len()), "x".repeat(10));
    assert!(sogou_results("/web", &torn, 5).is_empty());
    let whole = format!("{page}{}é{}", "x".repeat(1998 - page.len()), "x".repeat(10));
    assert_eq!(sogou_results("/web", &whole, 5).len(), 1);
}

#[test]
fn domains_filter_results() {
    let r = |u: &str| SearchResult { title: "t".into(), url: u.into(), snippet: String::new() };
    let all = vec![r("https://a.example/1"), r("https://b.example/2")];
    let only = vec!["b.example".to_string()];
    assert_eq!(retain_domains(all.clone(), Some(&only)), vec![r("https://b.example/2")]);
    assert_eq!(retain_domains(all.clone(), Some(&Vec::new())).len(), 2);
    assert_eq!(retain_domains(all, None).len(), 2);
    let others = vec![
        r("https://evil.test/?q=b.example"),
        r("https://notb.example/"),
        r("https://b.example.evil.test/"),
        r("no address"),
        r("https://www.B.example/3"),
    ];
    assert_eq!(retain_domains(others, Some(&only)), vec![r("https://www.B.example/3")]);
    assert!(is_host_in("a.b.example", "B.example"));
    assert!(!is_host_in("ab.example", "b.example"));
    assert!(!is_allowed_host(&None, Some(&only)));
    assert!(is_allowed_host(&None, None));
}

#[test]
fn first_engine_with_results_ends_the_search() {
    assert_eq!(after_answer("rust", 0, 3), SearchStep::Finish);
    assert_eq!(after_answer("rust", 0, 0), SearchStep::Ask(Engine::So360));
    assert_eq!(after_answer("rust", 1, 0), SearchStep::Ask(Engine::Sogou));
    assert_eq!(after_answer("rust", 2, 0), SearchStep::Finish);
    assert_eq!(after_answer("天气", 0, 0), SearchStep::Ask(Engine::Sogou));
    assert_eq!(after_answer("rust", usize::MAX, 0), SearchStep::Finish);
}

#[test]
fn unclosed_styles_hide_no_script() {
    assert_eq!(strip_tags("<style>a<script>x</script>b"), "ab");
    assert_eq!(strip_tags("<style>a</script>b"), "b");
    assert_eq!(strip_tags("<style>a</style>b<script>x</script>c"), "bc");
    assert_eq!(strip_tags("<script>a<style>x</style>b"), "b");
    assert_eq!(strip_tags("<style>a<script>x"), "ax");
}

#[test]
fn attributes_are_told_by_their_whole_names() {
    let tag = "<a data-href=\"t\" href='u'>";
    assert_eq!(extract_attr(tag, "href").as_deref(), Some("u"));
    assert_eq!(extract_attr(tag, "data-href").as_deref(), Some("t"));
    assert_eq!(extract_attr("href=\"x\"", "href").as_deref(), Some("x"));
    assert_eq!(extract_attr("<a href=x>", "href"), None);
    assert_eq!(extract_attr("<a href=\"x>", "href"), None);
}

#[test]
fn paragraphs_and_headings_are_told_by_their_tags() {
    assert_eq!(first_p_text("<pre>x</pre><p>y</p>"), "y");
    assert_eq!(first_p_text("<p class=\"a\">y</p>"), "y");
    assert_eq!(first_p_text("<p\n>y</p>"), "y");
    assert_eq!(first_p_text("<p>y"), "");
    assert_eq!(first_p_text("<p"), "");
    assert_eq!(first_anchor_in_h3("<h3>t</h3><a href='u'>x</a>"), None);
    assert_eq!(
        first_anchor_in_h3("<h3>t</h3><h2><a name='n'></a><a href='u'>x</a></h2>"),
        Some(("x".to_string(), "u".to_string()))
    );
    assert_eq!(
        first_anchor_in_h3("<h3><a href='u'>x</a>"),
        Some(("x".to_string(), "u".to_string()))
    );
}

#[test]
fn scores_count_terms_and_sink_blacklisted_sites() {
    let terms = vec!["rust".to_string(), "async".to_string()];
    let r = SearchResult {
        title: "rust async".into(),
        url: "https://map.baidu.com/x".into(),
        snippet: "rust".into(),
    };
    assert_eq!(score_of(&r, &terms), 3 + 3 + 1 - 10);
}
