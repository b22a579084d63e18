//! The browser tools: what they accept, what they ask of the browser, and how its answers
//! are put.
use crate::html_nesting::{html_nesting, nesting};
use crate::insert_text::{build_insert_text_expression, insert_script};
use crate::skill_deploy::{debug_quoted, quoted};
use crate::text::{
    ascii_lower, ascii_lower_chars, chars_of, decimal, decimal_u64, is_digit, same_text,
    starts_with, starts_with_chars, string_of, text_of, trim, trim_chars, trim_text, views,
};
use crate::tool_meta::{
    read_capabilities, reads, write_capabilities, writes, ToolCapabilities, ToolDescription, ToolKind,
    ToolNamespace,
};
use vstd::prelude::*;
use vstd::slice::slice_subrange;
use vstd::string::StringExecFns;

verus! {

/// How long a page settles after it is loaded, in milliseconds.
pub const DEFAULT_SETTLE_MS: u64 = 300;

/// The longest time a page may be given to settle, in milliseconds.
pub const MAX_SETTLE_MS: u64 = 10_000;

/// How long a page may take to load, in milliseconds.
pub const READY_TIMEOUT_MS: u64 = 20_000;

/// How many characters of a page are shown.
pub const MAX_CONTENT_CHARS: usize = 40_000;

/// How many elements of a page are listed.
pub const MAX_REFS: usize = 400;

/// The names of the tools.
pub const BROWSER_NAVIGATE_TOOL_NAME: &'static str = "browser_navigate";

pub const BROWSER_SNAPSHOT_TOOL_NAME: &'static str = "browser_snapshot";

pub const BROWSER_CLICK_TOOL_NAME: &'static str = "browser_click";

pub const BROWSER_TYPE_TOOL_NAME: &'static str = "browser_type";

pub const BROWSER_READ_TOOL_NAME: &'static str = "browser_read";

// ----------------------------------------------------------------------- inputs

/// What `browser_navigate` is called with.
#[derive(Debug, Clone)]
pub struct BrowserNavigateInput {
    /// The address to load.
    pub url: String,
    /// How long the page settles after it is loaded, in milliseconds.
    pub wait_ms: Option<u64>,
}

/// What `browser_snapshot` is called with.
#[derive(Debug, Clone)]
pub struct BrowserSnapshotInput {
    /// Only the elements are listed; the content is left out.
    pub refs_only: bool,
}

/// What `browser_click` is called with.
#[derive(Debug, Clone)]
pub struct BrowserClickInput {
    /// The number of a listed element, or a CSS selector.
    pub selector: String,
}

/// What `browser_type` is called with.
#[derive(Debug, Clone)]
pub struct BrowserTypeInput {
    /// The number of a listed element, or a CSS selector.
    pub selector: String,
    /// What is typed.
    pub text: String,
    /// Enter is pressed afterwards.
    pub submit: bool,
    /// The field is emptied first.
    pub clear: bool,
}

/// What `browser_read` is called with.
#[derive(Debug, Clone)]
pub struct BrowserReadInput {
    /// The element to read; the whole page where there is none.
    pub selector: Option<String>,
}

/// An element of a page that can be acted on.
#[derive(Debug, Clone)]
pub struct BrowserElementRef {
    pub ref_id: u64,
    pub tag: String,
    pub role: String,
    pub text: String,
    pub css_path: String,
}

/// What is seen of a page.
#[derive(Debug)]
pub struct BrowserSnapshotResult {
    pub url: String,
    pub title: String,
    pub markdown: String,
    pub refs: Vec<BrowserElementRef>,
}

/// Why a tool refuses a call: a code and what is said.
#[derive(Debug)]
pub struct ToolRefusal {
    pub code: &'static str,
    pub message: String,
}

// ----------------------------------------------------------------------- content

/// `s`, or its first `max` characters and a note that the rest is missing.
pub open spec fn truncated(s: Seq<char>, max: int) -> Seq<char> {
    if s.len() <= max {
        s
    } else {
        s.take(max) + "\n\n[truncated]"@
    }
}

/// `s`, or its first `max` characters and a note that the rest is missing.
pub fn truncate_chars(s: &str, max: usize) -> (r: String)
    ensures
        r@ == truncated(s@, max as int),
{
    let v: Vec<char> = chars_of(s);
    if v.len() <= max {
        return s.to_owned();
    }
    assert(v@.subrange(0, max as int) =~= v@.take(max as int));
    let mut out: String = string_of(slice_subrange(&v, 0, max));
    out.append("\n\n[truncated]");
    out
}

/// What is never longer than the limit and the note together.
pub proof fn truncation_caps_the_length(s: Seq<char>, max: int)
    requires
        0 <= max,
    ensures
        truncated(s, max).len() <= max + "\n\n[truncated]"@.len(),
        s.len() <= max ==> truncated(s, max) == s,
{
}

/// The Markdown that the `htmd` crate makes of a page, the elements with the given tags
/// left out; nothing where it fails.
pub uninterp spec fn htmd_markdown(html: Seq<char>, skip: Seq<Seq<char>>) -> Option<Seq<char>>;

/// A page with elements that are nested deeper than this is not converted.
pub const MAX_NESTING: usize = 400;

/// `htmd::HtmlToMarkdown::builder` with `skip_tags`, and then `HtmlToMarkdown::convert`:
/// the Markdown is a function of the page and the tags. `skip_tags` panics where it is
/// given no tags, and `convert` walks the page by recursion, which takes stack for each
/// level of nesting: such calls are left out.
#[verifier::external_body]
fn convert_html(html: &str, skip: &Vec<String>) -> (r: Option<String>)
    requires
        skip@.len() > 0,
        nesting(html@) <= MAX_NESTING,
    ensures
        text_of(r) == htmd_markdown(html@, views(skip@)),
{
    let tags = skip.iter().map(|tag| tag.as_str()).collect();
    htmd::HtmlToMarkdown::builder().skip_tags(tags).build().convert(html).ok()
}

/// The tags of elements that hold nothing to read.
pub open spec fn skipped_tags() -> Seq<Seq<char>> {
    seq![
        "script"@,
        "style"@,
        "noscript"@,
        "svg"@,
        "iframe"@,
        "object"@,
        "embed"@,
    ]
}

fn skip_list() -> (r: Vec<String>)
    ensures
        views(r@) == skipped_tags(),
{
    let r: Vec<String> = vec![
        "script".to_owned(),
        "style".to_owned(),
        "noscript".to_owned(),
        "svg".to_owned(),
        "iframe".to_owned(),
        "object".to_owned(),
        "embed".to_owned(),
    ];
    assert(views(r@) =~= skipped_tags());
    r
}

/// What is shown of Markdown: trimmed, and no more than the limit.
pub open spec fn shown(markdown: Option<Seq<char>>) -> Seq<char> {
    truncated(
        trim(
            match markdown {
                Some(m) => m,
                None => Seq::empty(),
            },
        ),
        MAX_CONTENT_CHARS as int,
    )
}

/// What is shown of Markdown; of none, nothing.
pub fn show_markdown(markdown: Option<String>) -> (r: String)
    ensures
        r@ == shown(text_of(markdown)),
{
    let text: String = match markdown {
        Some(m) => m,
        None => String::new(),
    };
    assert(text@ =~= match text_of(markdown) {
        Some(m) => m,
        None => Seq::empty(),
    });
    truncate_chars(trim_text(text.as_str()).as_str(), MAX_CONTENT_CHARS)
}

/// A page as Markdown; nothing of one whose elements are nested too deep.
pub fn html_to_markdown(html: &str) -> (r: String)
    ensures
        r@ == if nesting(html@) <= MAX_NESTING {
            shown(htmd_markdown(html@, skipped_tags()))
        } else {
            shown(None)
        },
{
    if html_nesting(html) > MAX_NESTING {
        return show_markdown(None);
    }
    let skip: Vec<String> = skip_list();
    assert(views(skip@).len() == 7);
    show_markdown(convert_html(html, &skip))
}

/// The text of an element as it is shown; an element without one has an empty one.
pub fn element_content(text: Option<String>) -> (r: String)
    ensures
        r@ == shown(text_of(text)),
{
    show_markdown(text)
}

// --------------------------------------------------------------------- selectors

/// What a selector names.
#[derive(Debug)]
pub enum Target {
    /// Nothing: it is empty.
    Nothing,
    /// A listed element.
    Ref(String),
    /// What a CSS selector finds.
    Css(String),
}

/// [`Target`] by its text.
pub enum TargetModel {
    Nothing,
    Ref(Seq<char>),
    Css(Seq<char>),
}

impl View for Target {
    type V = TargetModel;

    open spec fn view(&self) -> TargetModel {
        match self {
            Target::Nothing => TargetModel::Nothing,
            Target::Ref(s) => TargetModel::Ref(s@),
            Target::Css(s) => TargetModel::Css(s@),
        }
    }
}

/// What a selector names: a number that is not zero names a listed element.
pub open spec fn target_of(selector: Seq<char>) -> TargetModel {
    let s = trim(selector);
    if s.len() == 0 {
        TargetModel::Nothing
    } else if (forall|i: int| 0 <= i < s.len() ==> is_digit(#[trigger] s[i])) && s != "0"@ {
        TargetModel::Ref(s)
    } else {
        TargetModel::Css(s)
    }
}

/// What a selector names.
pub fn classify_selector(selector: &str) -> (r: Target)
    ensures
        r@ == target_of(selector@),
{
    let v: Vec<char> = chars_of(selector);
    let s: &[char] = trim_chars(&v);
    if s.len() == 0 {
        return Target::Nothing;
    }
    let text: String = string_of(s);
    let mut i: usize = 0;
    while i < s.len()
        invariant
            i <= s.len(),
            s@ == trim(selector@),
            s@.len() > 0,
            text@ == s@,
            forall|k: int| 0 <= k < i ==> is_digit(#[trigger] s@[k]),
        decreases s.len() - i,
    {
        if !('0' <= s[i] && s[i] <= '9') {
            assert(!is_digit(s@[i as int]));
            return Target::Css(text);
        }
        i += 1;
    }
    if same_text(text.as_str(), "0") {
        Target::Css(text)
    } else {
        Target::Ref(text)
    }
}

/// What is said of an empty selector.
pub const EMPTY_SELECTOR: &'static str = "empty selector: pass a snapshot ref number or a CSS selector";

/// The script that looks up a listed element.
pub fn ref_lookup_expression(number: &str) -> (r: String)
    ensures
        r@ == "(() => { const e = window.__qidiRefs && window.__qidiRefs["@ + number@
            + "]; return e ? e.css_path : null; })()"@,
{
    let mut s: String = "(() => { const e = window.__qidiRefs && window.__qidiRefs[".to_owned();
    s.append(number);
    s.append("]; return e ? e.css_path : null; })()");
    s
}

/// What is said of a listed element that is no longer there.
pub fn stale_ref_message(number: &str) -> (r: String)
    ensures
        r@ == "ref "@ + number@ + " is stale -- run browser_snapshot first and use a fresh ref"@,
{
    let mut s: String = "ref ".to_owned();
    s.append(number);
    s.append(" is stale -- run browser_snapshot first and use a fresh ref");
    s
}

/// What is said of a selector that finds nothing.
pub fn no_match_message(selector: &str, error: &str) -> (r: String)
    ensures
        r@ == "no element matches selector `"@ + selector@ + "`: "@ + error@,
{
    let mut s: String = "no element matches selector `".to_owned();
    s.append(selector);
    s.append("`: ");
    s.append(error);
    s
}

// ------------------------------------------------------------------------ steps

/// How long a page settles: as asked for, or as usual, and never too long.
pub fn settle_ms(wait_ms: Option<u64>) -> (r: u64)
    ensures
        r == {
            let w = match wait_ms {
                Some(w) => w,
                None => DEFAULT_SETTLE_MS,
            };
            if w <= MAX_SETTLE_MS {
                w
            } else {
                MAX_SETTLE_MS
            }
        },
{
    let w: u64 = match wait_ms {
        Some(w) => w,
        None => DEFAULT_SETTLE_MS,
    };
    if w <= MAX_SETTLE_MS {
        w
    } else {
        MAX_SETTLE_MS
    }
}

/// Whether to wait on for a page: its state is not `complete` and its time is not up.
pub fn keep_waiting(ready_state: &Option<String>, waited_ms: u64) -> (r: bool)
    ensures
        r == (text_of(*ready_state) != Some("complete"@) && waited_ms < READY_TIMEOUT_MS),
{
    let complete: bool = match ready_state {
        Some(s) => same_text(s.as_str(), "complete"),
        None => false,
    };
    !complete && waited_ms < READY_TIMEOUT_MS
}

/// No more of the listed elements than the limit.
pub fn limit_refs(refs: Vec<BrowserElementRef>) -> (r: Vec<BrowserElementRef>)
    ensures
        r@ == if refs@.len() > MAX_REFS {
            refs@.take(MAX_REFS as int)
        } else {
            refs@
        },
{
    let mut r = refs;
    let ghost all = r@;
    r.truncate(MAX_REFS);
    assert(r@ =~= if all.len() > MAX_REFS {
        all.take(MAX_REFS as int)
    } else {
        all
    });
    r
}

/// What is said of a click.
pub fn clicked_detail(title: &str, url: &str) -> (r: String)
    ensures
        r@ == "clicked; page is now `"@ + title@ + "` ("@ + url@ + ")"@,
{
    let mut s: String = "clicked; page is now `".to_owned();
    s.append(title);
    s.append("` (");
    s.append(url);
    s.append(")");
    s
}

/// How text gets into a field.
#[derive(Debug)]
pub enum Typing {
    /// Key by key.
    Keys,
    /// By a script.
    Script(String),
}

/// Only ASCII characters.
pub open spec fn all_ascii(s: Seq<char>) -> bool {
    forall|i: int| 0 <= i < s.len() ==> #[trigger] s[i] as u32 <= 0x7f
}

/// How text gets into a field: what a keyboard has is typed, anything else is inserted by
/// a script.
pub fn typing_of(text: &str) -> (r: Typing)
    ensures
        match r {
            Typing::Keys => all_ascii(text@),
            Typing::Script(s) => !all_ascii(text@) && s@ == insert_script(text@),
        },
{
    let v: Vec<char> = chars_of(text);
    let mut i: usize = 0;
    while i < v.len()
        invariant
            i <= v.len(),
            v@ == text@,
            forall|k: int| 0 <= k < i ==> #[trigger] text@[k] as u32 <= 0x7f,
        decreases v.len() - i,
    {
        if v[i] as u32 > 0x7f {
            assert(text@[i as int] as u32 > 0x7f);
            return Typing::Script(build_insert_text_expression(text));
        }
        i += 1;
    }
    Typing::Keys
}

/// What is said of typing.
pub fn typed_detail(selector: &str, submit: bool) -> (r: String)
    ensures
        r@ == if submit {
            "typed into `"@ + trim(selector@) + "`"@ + " and submitted (Enter)"@
        } else {
            "typed into `"@ + trim(selector@) + "`"@
        },
{
    let mut s: String = "typed into `".to_owned();
    s.append(trim_text(selector).as_str());
    s.append("`");
    if submit {
        s.append(" and submitted (Enter)");
    }
    s
}

// ------------------------------------------------------------------------- tools

/// `browser_navigate`.
#[derive(Debug, Clone, Copy)]
pub struct NavigateImpl;

/// `browser_snapshot`.
#[derive(Debug, Clone, Copy)]
pub struct SnapshotImpl;

/// `browser_click`.
#[derive(Debug, Clone, Copy)]
pub struct ClickImpl;

/// `browser_type`.
#[derive(Debug, Clone, Copy)]
pub struct TypeImpl;

/// `browser_read`.
#[derive(Debug, Clone, Copy)]
pub struct ReadImpl;

/// An address that a browser may be sent to: one of the web, whatever the case of its
/// scheme.
pub open spec fn is_navigable(url: Seq<char>) -> bool {
    let low = ascii_lower(url);
    starts_with(low, "http://"@) || starts_with(low, "https://"@)
}

impl NavigateImpl {
    /// The name of the tool.
    pub fn id(&self) -> (r: &'static str)
        ensures
            r@ == BROWSER_NAVIGATE_TOOL_NAME@,
    {
        BROWSER_NAVIGATE_TOOL_NAME
    }

    /// What the tool is for.
    pub fn kind(&self) -> (r: ToolKind)
        ensures
            r == ToolKind::BrowserRead,
    {
        ToolKind::BrowserRead
    }

    /// What the model is told of the tool.
    pub fn description_template(&self) -> (r: &'static str)
        ensures
            r@ == NAVIGATE_DESCRIPTION@,
    {
        NAVIGATE_DESCRIPTION
    }

    /// The family of the tool.
    pub fn tool_namespace(&self) -> (r: ToolNamespace)
        ensures
            r == ToolNamespace::QidiBuild,
    {
        ToolNamespace::QidiBuild
    }

    /// The tool as it is announced.
    pub fn description(&self) -> (r: ToolDescription)
        ensures
            r.name@ == BROWSER_NAVIGATE_TOOL_NAME@,
            r.description@ == NAVIGATE_DESCRIPTION@,
    {
        ToolDescription { name: BROWSER_NAVIGATE_TOOL_NAME, description: NAVIGATE_DESCRIPTION }
    }

    /// What the tool may do.
    pub fn capabilities(&self) -> (r: ToolCapabilities)
        ensures
            r == reads(),
    {
        read_capabilities()
    }

    /// The address to load, or why it is refused.
    pub fn check_url(&self, input: &BrowserNavigateInput) -> (r: Result<String, ToolRefusal>)
        ensures
            match r {
                Ok(url) => is_navigable(trim(input.url@)) && url@ == trim(input.url@),
                Err(e) => !is_navigable(trim(input.url@)) && e.code@ == "invalid_url"@
                    && e.message@
                    == "url must be absolute with an http/https scheme, got `"@
                    + trim(input.url@) + "`"@,
            },
    {
        let url: String = trim_text(input.url.as_str());
        let low: Vec<char> = ascii_lower_chars(&chars_of(url.as_str()));
        let ok: bool = starts_with_chars(&low, &chars_of("http://")) || starts_with_chars(
            &low,
            &chars_of("https://"),
        );
        if ok {
            return Ok(url);
        }
        let mut message: String =
            "url must be absolute with an http/https scheme, got `".to_owned();
        message.append(url.as_str());
        message.append("`");
        Err(ToolRefusal { code: "invalid_url", message })
    }

    /// What is said of a page that was loaded.
    pub fn loaded(&self, final_url: &str, title: &str) -> (r: String)
        ensures
            r@ == "Loaded: "@ + final_url@ + "\nTitle: "@ + title@,
    {
        let mut s: String = "Loaded: ".to_owned();
        s.append(final_url);
        s.append("\nTitle: ");
        s.append(title);
        s
    }
}

/// What the model is told of `browser_navigate`.
pub const NAVIGATE_DESCRIPTION: &'static str = "Load a URL in the built-in headless browser and return the final URL and page title. The browser session persists across tool calls: navigate, then use browser_snapshot to see the page as markdown with numbered interactive elements, browser_click / browser_type to act on them, and browser_read to extract text. Prefer this over web_fetch for JavaScript-heavy pages that need rendering.";

/// What the model is told of `browser_snapshot`.
pub const SNAPSHOT_DESCRIPTION: &'static str = "Observe the current page: title, URL, a numbered list of interactive elements (links, buttons, inputs), and the page content rendered as markdown. The numbers are refs -- pass them as the selector to browser_click / browser_type. Refs go stale after navigation; re-snapshot after any page change.";

/// What the model is told of `browser_click`.
pub const CLICK_DESCRIPTION: &'static str = "Click an element on the current page. Pass the element's snapshot ref number from browser_snapshot (preferred) or a CSS selector. This acts on the live page -- it can submit forms, trigger navigation, or change site state. Re-snapshot afterwards if the page changed.";

/// What the model is told of `browser_type`.
pub const TYPE_DESCRIPTION: &'static str = "Type text into a page field identified by a snapshot ref number or CSS selector. Clears the field first by default; set submit=true to press Enter after typing (search boxes, form submits). This acts on the live page.";

/// What the model is told of `browser_read`.
pub const READ_DESCRIPTION: &'static str = "Read text from the current page: the whole page rendered as markdown (no selector) or one element's inner text (CSS selector). Use after browser_navigate; unlike browser_snapshot this returns content only, no interactive-element listing.";

/// The text of an element in the list: a dash where it has none.
pub open spec fn listed_text(text: Seq<char>) -> Seq<char> {
    if text.len() == 0 {
        "-"@
    } else {
        text
    }
}

/// `head` and the lines on the first `n` elements; `quotes` are their texts in quotes.
pub open spec fn ref_lines(
    head: Seq<char>,
    refs: Seq<BrowserElementRef>,
    quotes: Seq<Seq<char>>,
    n: int,
) -> Seq<char>
    decreases n,
{
    if n <= 0 || n > refs.len() {
        head
    } else {
        ref_lines(head, refs, quotes, n - 1) + "- ["@ + decimal(refs[n - 1].ref_id as nat) + "] "@
            + refs[n - 1].role@ + ": "@ + quotes[n - 1] + "\n"@
    }
}

/// What is said of a page.
pub open spec fn snapshot_text(
    s: BrowserSnapshotResult,
    quotes: Seq<Seq<char>>,
    refs_only: bool,
) -> Seq<char> {
    let head = "# "@ + s.title@ + "\nURL: "@ + s.url@ + "\n"@;
    let listed = if s.refs@.len() > 0 {
        ref_lines(head + "\n## Interactive elements\n"@, s.refs@, quotes, s.refs@.len() as int)
    } else {
        head
    };
    if refs_only {
        listed
    } else {
        listed + "\n## Content\n"@ + s.markdown@
    }
}

/// The texts of the elements in quotes.
pub open spec fn ref_quotes(refs: Seq<BrowserElementRef>) -> Seq<Seq<char>> {
    refs.map_values(|r: BrowserElementRef| debug_quoted(listed_text(r.text@)))
}

impl SnapshotImpl {
    /// The name of the tool.
    pub fn id(&self) -> (r: &'static str)
        ensures
            r@ == BROWSER_SNAPSHOT_TOOL_NAME@,
    {
        BROWSER_SNAPSHOT_TOOL_NAME
    }

    /// What the tool is for.
    pub fn kind(&self) -> (r: ToolKind)
        ensures
            r == ToolKind::BrowserRead,
    {
        ToolKind::BrowserRead
    }

    /// What the model is told of the tool.
    pub fn description_template(&self) -> (r: &'static str)
        ensures
            r@ == SNAPSHOT_DESCRIPTION@,
    {
        SNAPSHOT_DESCRIPTION
    }

    /// The family of the tool.
    pub fn tool_namespace(&self) -> (r: ToolNamespace)
        ensures
            r == ToolNamespace::QidiBuild,
    {
        ToolNamespace::QidiBuild
    }

    /// The tool as it is announced.
    pub fn description(&self) -> (r: ToolDescription)
        ensures
            r.name@ == BROWSER_SNAPSHOT_TOOL_NAME@,
            r.description@ == SNAPSHOT_DESCRIPTION@,
    {
        ToolDescription { name: BROWSER_SNAPSHOT_TOOL_NAME, description: SNAPSHOT_DESCRIPTION }
    }

    /// What the tool may do.
    pub fn capabilities(&self) -> (r: ToolCapabilities)
        ensures
            r == reads(),
    {
        read_capabilities()
    }

    /// What is said of a page, with the texts of its elements already in quotes.
    pub fn render_with(&self, snap: &BrowserSnapshotResult, quotes: &Vec<String>, refs_only: bool) -> (r:
        String)
        requires
            quotes@.len() == snap.refs@.len(),
        ensures
            r@ == snapshot_text(*snap, views(quotes@), refs_only),
    {
        let mut out: String = "# ".to_owned();
        out.append(snap.title.as_str());
        out.append("\nURL: ");
        out.append(snap.url.as_str());
        out.append("\n");
        if snap.refs.len() > 0 {
            out.append("\n## Interactive elements\n");
            let ghost head = out@;
            let mut i: usize = 0;
            while i < snap.refs.len()
                invariant
                    i <= snap.refs.len(),
                    quotes@.len() == snap.refs@.len(),
                    out@ == ref_lines(head, snap.refs@, views(quotes@), i as int),
                decreases snap.refs.len() - i,
            {
                assert(views(quotes@)[i as int] == quotes@[i as int]@);
                out.append("- [");
                out.append(decimal_u64(snap.refs[i].ref_id).as_str());
                out.append("] ");
                out.append(snap.refs[i].role.as_str());
                out.append(": ");
                out.append(quotes[i].as_str());
                out.append("\n");
                i += 1;
            }
        }
        if !refs_only {
            out.append("\n## Content\n");
            out.append(snap.markdown.as_str());
        }
        out
    }

    /// What is said of a page.
    pub fn render(&self, snap: &BrowserSnapshotResult, refs_only: bool) -> (r: String)
        ensures
            r@ == snapshot_text(*snap, ref_quotes(snap.refs@), refs_only),
    {
        let mut quotes: Vec<String> = Vec::new();
        let ghost all = ref_quotes(snap.refs@);
        let mut i: usize = 0;
        assert(views(quotes@) =~= all.take(0));
        while i < snap.refs.len()
            invariant
                i <= snap.refs.len(),
                all == ref_quotes(snap.refs@),
                quotes@.len() == i,
                views(quotes@) == all.take(i as int),
            decreases snap.refs.len() - i,
        {
            let q: String = if snap.refs[i].text.as_str().is_empty() {
                quoted("-")
            } else {
                quoted(snap.refs[i].text.as_str())
            };
            let ghost before = quotes@;
            quotes.push(q);
            assert(views(quotes@) =~= views(before).push(q@));
            assert(all.take(i as int + 1) =~= all.take(i as int).push(all[i as int]));
            i += 1;
        }
        assert(all.take(i as int) =~= all);
        self.render_with(snap, &quotes, refs_only)
    }
}

impl ClickImpl {
    /// The name of the tool.
    pub fn id(&self) -> (r: &'static str)
        ensures
            r@ == BROWSER_CLICK_TOOL_NAME@,
    {
        BROWSER_CLICK_TOOL_NAME
    }

    /// What the tool is for.
    pub fn kind(&self) -> (r: ToolKind)
        ensures
            r == ToolKind::BrowserAct,
    {
        ToolKind::BrowserAct
    }

    /// What the model is told of the tool.
    pub fn description_template(&self) -> (r: &'static str)
        ensures
            r@ == CLICK_DESCRIPTION@,
    {
        CLICK_DESCRIPTION
    }

    /// The family of the tool.
    pub fn tool_namespace(&self) -> (r: ToolNamespace)
        ensures
            r == ToolNamespace::QidiBuild,
    {
        ToolNamespace::QidiBuild
    }

    /// The tool as it is announced.
    pub fn description(&self) -> (r: ToolDescription)
        ensures
            r.name@ == BROWSER_CLICK_TOOL_NAME@,
            r.description@ == CLICK_DESCRIPTION@,
    {
        ToolDescription { name: BROWSER_CLICK_TOOL_NAME, description: CLICK_DESCRIPTION }
    }

    /// What the tool may do.
    pub fn capabilities(&self) -> (r: ToolCapabilities)
        ensures
            r == writes(),
    {
        write_capabilities()
    }
}

impl TypeImpl {
    /// The name of the tool.
    pub fn id(&self) -> (r: &'static str)
        ensures
            r@ == BROWSER_TYPE_TOOL_NAME@,
    {
        BROWSER_TYPE_TOOL_NAME
    }

    /// What the tool is for.
    pub fn kind(&self) -> (r: ToolKind)
        ensures
            r == ToolKind::BrowserAct,
    {
        ToolKind::BrowserAct
    }

    /// What the model is told of the tool.
    pub fn description_template(&self) -> (r: &'static str)
        ensures
            r@ == TYPE_DESCRIPTION@,
    {
        TYPE_DESCRIPTION
    }

    /// The family of the tool.
    pub fn tool_namespace(&self) -> (r: ToolNamespace)
        ensures
            r == ToolNamespace::QidiBuild,
    {
        ToolNamespace::QidiBuild
    }

    /// The tool as it is announced.
    pub fn description(&self) -> (r: ToolDescription)
        ensures
            r.name@ == BROWSER_TYPE_TOOL_NAME@,
            r.description@ == TYPE_DESCRIPTION@,
    {
        ToolDescription { name: BROWSER_TYPE_TOOL_NAME, description: TYPE_DESCRIPTION }
    }

    /// What the tool may do.
    pub fn capabilities(&self) -> (r: ToolCapabilities)
        ensures
            r == writes(),
    {
        write_capabilities()
    }

    /// Why a call is refused: it would neither type nor clear anything.
    pub fn check_input(&self, input: &BrowserTypeInput) -> (r: Option<ToolRefusal>)
        ensures
            match r {
                Some(e) => input.text@.len() == 0 && !input.clear && e.code@ == "empty_type"@
                    && e.message@ == "text is empty and clear=false: nothing would be typed"@,
                None => input.text@.len() > 0 || input.clear,
            },
    {
        if input.text.as_str().is_empty() && !input.clear {
            Some(
                ToolRefusal {
                    code: "empty_type",
                    message: "text is empty and clear=false: nothing would be typed".to_owned(),
                },
            )
        } else {
            None
        }
    }
}

impl ReadImpl {
    /// The name of the tool.
    pub fn id(&self) -> (r: &'static str)
        ensures
            r@ == BROWSER_READ_TOOL_NAME@,
    {
        BROWSER_READ_TOOL_NAME
    }

    /// What the tool is for.
    pub fn kind(&self) -> (r: ToolKind)
        ensures
            r == ToolKind::BrowserRead,
    {
        ToolKind::BrowserRead
    }

    /// What the model is told of the tool.
    pub fn description_template(&self) -> (r: &'static str)
        ensures
            r@ == READ_DESCRIPTION@,
    {
        READ_DESCRIPTION
    }

    /// The family of the tool.
    pub fn tool_namespace(&self) -> (r: ToolNamespace)
        ensures
            r == ToolNamespace::QidiBuild,
    {
        ToolNamespace::QidiBuild
    }

    /// The tool as it is announced.
    pub fn description(&self) -> (r: ToolDescription)
        ensures
            r.name@ == BROWSER_READ_TOOL_NAME@,
            r.description@ == READ_DESCRIPTION@,
    {
        ToolDescription { name: BROWSER_READ_TOOL_NAME, description: READ_DESCRIPTION }
    }

    /// What the tool may do.
    pub fn capabilities(&self) -> (r: ToolCapabilities)
        ensures
            r == reads(),
    {
        read_capabilities()
    }
}

// ------------------------------------------------------------------------- think

/// The name of the tool.
pub const THINK_TOOL_NAME: &'static str = "think";

/// What the model is told of `think`.
pub const THINK_DESCRIPTION: &'static str = "Record your internal reasoning before acting. Use this tool to think through complex problems step by step BEFORE calling other tools or answering. In the `thought` parameter, write your working analysis: restate the problem, decompose it, list candidate approaches, weigh trade-offs, and settle on a plan. The tool has no side effects and returns only an acknowledgement, so call it freely whenever a structured scratchpad helps — especially when hidden reasoning is unavailable, and for multi-step plans, tricky bugs, or risky changes.";

/// What `think` is called with.
#[derive(Debug, Clone)]
pub struct ThinkInput {
    pub thought: String,
}

/// `think`: a place to reason in the open.
#[derive(Debug, Clone, Copy)]
pub struct ThinkImpl;

impl ThinkImpl {
    /// The name of the tool.
    pub fn id(&self) -> (r: &'static str)
        ensures
            r@ == THINK_TOOL_NAME@,
    {
        THINK_TOOL_NAME
    }

    /// What the tool is for.
    pub fn kind(&self) -> (r: ToolKind)
        ensures
            r == ToolKind::Think,
    {
        ToolKind::Think
    }

    /// What the model is told of the tool.
    pub fn description_template(&self) -> (r: &'static str)
        ensures
            r@ == THINK_DESCRIPTION@,
    {
        THINK_DESCRIPTION
    }

    /// The family of the tool.
    pub fn tool_namespace(&self) -> (r: ToolNamespace)
        ensures
            r == ToolNamespace::QidiBuild,
    {
        ToolNamespace::QidiBuild
    }

    /// The tool as it is announced.
    pub fn description(&self) -> (r: ToolDescription)
        ensures
            r.name@ == THINK_TOOL_NAME@,
            r.description@ == THINK_DESCRIPTION@,
    {
        ToolDescription { name: THINK_TOOL_NAME, description: THINK_DESCRIPTION }
    }

    /// What the tool may do.
    pub fn capabilities(&self) -> (r: ToolCapabilities)
        ensures
            r == reads(),
    {
        read_capabilities()
    }

    /// The thought stands in the call itself; it is only acknowledged.
    pub fn run(&self, input: &ThinkInput) -> (r: String)
        ensures
            r@ == "Thought recorded."@,
    {
        "Thought recorded.".to_owned()
    }
}

} // verus!
