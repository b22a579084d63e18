//! Searching the web without a key: which engine is asked first, what is read out of its
//! page, and how the results are put.
use crate::html_text::{
    class_text_in, extract_attr, attribute, extract_class_text, first_anchor_in_h3, first_p_text,
    heading_link, pair_text, paragraph_text, regex_pieces, split_by,
};
use crate::proxy_url::{host_of, url_host};
use crate::text::{
    ascii_lower, ascii_lower_chars, chars_of, contains, contains_text, decimal, decimal_usize,
    ends_with, ends_with_text, push_chars, same_chars, split_chars, split_on, split_words,
    starts_with, starts_with_text, string_of, text_of, views, words,
};
use vstd::prelude::*;
use vstd::string::{StringExecFns, StringSliceAdditionalSpecFns};
use vstd::utf8::*;

verus! {

/// One result of a search.
#[derive(Debug, Clone, PartialEq, Eq)]
pub struct SearchResult {
    pub title: String,
    pub url: String,
    pub snippet: String,
}

/// [`SearchResult`] by its texts.
pub struct ResultModel {
    pub title: Seq<char>,
    pub url: Seq<char>,
    pub snippet: Seq<char>,
}

impl View for SearchResult {
    type V = ResultModel;

    open spec fn view(&self) -> ResultModel {
        ResultModel { title: self.title@, url: self.url@, snippet: self.snippet@ }
    }
}

/// The texts of a list of results.
pub open spec fn result_models(v: Seq<SearchResult>) -> Seq<ResultModel> {
    v.map_values(|r: SearchResult| r@)
}

/// What the engines are told the client is.
pub const DESKTOP_UA: &'static str = "Mozilla/5.0 (Windows NT 10.0; Win64; x64) AppleWebKit/537.36 (KHTML, like Gecko) Chrome/120.0 Safari/537.36";

/// How many seconds all engines together have.
pub const CHAIN_TIMEOUT_SECS: u64 = 30;

/// How many seconds one engine has.
pub const FETCH_TIMEOUT_SECS: u64 = 10;

/// How many results are asked for.
pub const DEFAULT_COUNT: usize = 5;

/// How far into a page of Sogou a challenge is looked for, in bytes.
pub const CHALLENGE_WINDOW: usize = 2000;

// --------------------------------------------------------------------- engines

/// A search engine.
#[derive(Debug, Clone, Copy, PartialEq, Eq, Structural)]
pub enum Engine {
    So360,
    Sogou,
    Bing,
}

/// The text holds a Chinese character.
pub open spec fn holds_cjk(query: Seq<char>) -> bool {
    exists|i: int| 0 <= i < query.len() && '\u{4e00}' <= #[trigger] query[i] <= '\u{9fff}'
}

/// Whether the text holds a Chinese character.
pub fn has_cjk(query: &str) -> (r: bool)
    ensures
        r == holds_cjk(query@),
{
    let v: Vec<char> = chars_of(query);
    let mut i: usize = 0;
    while i < v.len()
        invariant
            i <= v.len(),
            v@ == query@,
            forall|k: int| 0 <= k < i ==> !('\u{4e00}' <= #[trigger] query@[k] <= '\u{9fff}'),
        decreases v.len() - i,
    {
        if '\u{4e00}' <= v[i] && v[i] <= '\u{9fff}' {
            assert('\u{4e00}' <= query@[i as int] <= '\u{9fff}');
            return true;
        }
        i += 1;
    }
    false
}

/// The engines in the order in which they are asked: for Chinese queries those that know
/// Chinese best come first.
pub open spec fn engine_order(query: Seq<char>) -> Seq<Engine> {
    if holds_cjk(query) {
        seq![Engine::So360, Engine::Sogou, Engine::Bing]
    } else {
        seq![Engine::Bing, Engine::So360, Engine::Sogou]
    }
}

/// The engine at a place in that order; none behind the last.
pub open spec fn engine_at(query: Seq<char>, asked: int) -> Option<Engine> {
    if 0 <= asked < engine_order(query).len() {
        Some(engine_order(query)[asked])
    } else {
        None
    }
}

/// The engine to ask once `asked` of them have brought nothing; none when all have.
pub fn next_engine(query: &str, asked: usize) -> (r: Option<Engine>)
    ensures
        r == engine_at(query@, asked as int),
{
    if asked >= 3 {
        return None;
    }
    let cjk: bool = has_cjk(query);
    Some(
        match (cjk, asked) {
            (true, 0) => Engine::So360,
            (true, 1) => Engine::Sogou,
            (true, _) => Engine::Bing,
            (false, 0) => Engine::Bing,
            (false, 1) => Engine::So360,
            (false, _) => Engine::Sogou,
        },
    )
}

/// How a search goes on.
#[derive(Debug, Clone, Copy, PartialEq, Eq, Structural)]
pub enum SearchStep {
    /// This engine is asked next.
    Ask(Engine),
    /// What the last engine brought is the result.
    Finish,
}

/// How a search goes on once the engine behind the first `asked` of them has brought `found`
/// results: the first engine that brings any ends it.
pub fn after_answer(query: &str, asked: usize, found: usize) -> (r: SearchStep)
    ensures
        r == if found > 0 {
            SearchStep::Finish
        } else {
            match engine_at(query@, asked + 1) {
                Some(e) => SearchStep::Ask(e),
                None => SearchStep::Finish,
            }
        },
{
    if found > 0 || asked >= 3 {
        return SearchStep::Finish;
    }
    match next_engine(query, asked + 1) {
        Some(e) => SearchStep::Ask(e),
        None => SearchStep::Finish,
    }
}

/// Every engine has its turn, and each just once.
pub proof fn every_engine_has_its_turn(query: Seq<char>, e: Engine)
    ensures
        engine_order(query).len() == 3,
        engine_order(query).contains(e),
{
    let s = engine_order(query);
    let i: int = match (holds_cjk(query), e) {
        (true, Engine::So360) => 0,
        (true, Engine::Sogou) => 1,
        (true, Engine::Bing) => 2,
        (false, Engine::Bing) => 0,
        (false, Engine::So360) => 1,
        (false, Engine::Sogou) => 2,
    };
    assert(s[i] == e);
}

/// Where the start of a page ends, in bytes.
pub open spec fn window_end(html: Seq<u8>) -> int {
    if html.len() <= CHALLENGE_WINDOW {
        html.len() as int
    } else {
        CHALLENGE_WINDOW as int
    }
}

/// The address says that the page asks for a proof of humanity.
pub open spec fn leads_to_challenge(path: Seq<char>) -> bool {
    contains(path, "antispider"@)
}

/// The start of the page, in whole characters, asks for a proof of humanity.
pub open spec fn opens_with_challenge(html: Seq<u8>) -> bool {
    contains(decode_utf8(html.take(window_end(html))), "验"@)
}

/// Sogou asks for a proof of humanity instead of bringing results: its address says so, or
/// the start of the page does.
pub fn is_challenge(path: &str, html: &str) -> (r: bool)
    requires
        leads_to_challenge(path@) || is_char_boundary(
            html.spec_bytes(),
            window_end(html.spec_bytes()),
        ),
    ensures
        r == (leads_to_challenge(path@) || opens_with_challenge(html.spec_bytes())),
{
    if contains_text(path, "antispider") {
        return true;
    }
    let len: usize = html.as_bytes().len();
    let window: usize = if len <= CHALLENGE_WINDOW {
        len
    } else {
        CHALLENGE_WINDOW
    };
    let head: &str = html.split_at(window).0;
    proof {
        encode_utf8_decode_utf8(head@);
        assert(head.spec_bytes() =~= html.spec_bytes().take(window as int));
    }
    contains_text(head, "验")
}

/// The results of which the address lies in one of the domains; all of them where no
/// domains are given.
pub open spec fn in_domains(rs: Seq<ResultModel>, domains: Option<Seq<Seq<char>>>, n: int) -> Seq<
    ResultModel,
>
    decreases n,
{
    if n <= 0 || n > rs.len() {
        Seq::empty()
    } else {
        let before = in_domains(rs, domains, n - 1);
        let r = rs[n - 1];
        if allowed(url_host(r.url), domains) {
            before.push(r)
        } else {
            before
        }
    }
}

/// The host is the domain or lies below it, whatever the case of the letters.
pub open spec fn host_in(host: Seq<char>, domain: Seq<char>) -> bool {
    ascii_lower(host) == ascii_lower(domain) || ends_with(
        ascii_lower(host),
        seq!['.'] + ascii_lower(domain),
    )
}

/// The host lies in one of the domains, or no domains are given.
pub open spec fn allowed(host: Option<Seq<char>>, domains: Option<Seq<Seq<char>>>) -> bool {
    match domains {
        Some(ds) => ds.len() == 0 || (host is Some && exists|i: int|
            0 <= i < ds.len() && host_in(host->0, #[trigger] ds[i])),
        None => true,
    }
}

/// The texts of an optional list.
pub open spec fn domain_texts(d: Option<&Vec<String>>) -> Option<Seq<Seq<char>>> {
    match d {
        Some(v) => Some(views(v@)),
        None => None,
    }
}

/// Whether the host is the domain or lies below it.
pub fn is_host_in(host: &str, domain: &str) -> (r: bool)
    ensures
        r == host_in(host@, domain@),
{
    let h: Vec<char> = ascii_lower_chars(&chars_of(host));
    let d: Vec<char> = ascii_lower_chars(&chars_of(domain));
    if same_chars(&h, &d) {
        return true;
    }
    let mut tail: Vec<char> = vec!['.'];
    push_chars(&mut tail, &d);
    assert(tail@ =~= seq!['.'] + d@);
    ends_with_text(string_of(&h).as_str(), string_of(&tail).as_str())
}

/// Whether the host lies in one of the domains, or no domains are given.
pub fn is_allowed_host(host: &Option<String>, domains: Option<&Vec<String>>) -> (r: bool)
    ensures
        r == allowed(text_of(*host), domain_texts(domains)),
{
    match (domains, host) {
        (Some(ds), Some(h)) => {
            let ghost all = views(ds@);
            assert(all.len() == ds@.len());
            if ds.len() == 0 {
                return true;
            }
            let mut i: usize = 0;
            while i < ds.len()
                invariant
                    i <= ds.len(),
                    all == views(ds@),
                    domain_texts(domains) == Some(all),
                    text_of(*host) == Some(h@),
                    all.len() == ds@.len(),
                    ds@.len() > 0,
                    forall|k: int| 0 <= k < i ==> !host_in(h@, #[trigger] all[k]),
                decreases ds.len() - i,
            {
                assert(all[i as int] == ds@[i as int]@);
                if is_host_in(h.as_str(), ds[i].as_str()) {
                    assert(host_in(h@, all[i as int]));
                    return true;
                }
                i += 1;
            }
            false
        },
        (Some(ds), None) => {
            assert(views(ds@).len() == ds@.len());
            ds.len() == 0
        },
        (None, _) => true,
    }
}

/// Whether the address lies in one of the domains, or no domains are given.
pub fn is_allowed(url: &str, domains: Option<&Vec<String>>) -> (r: bool)
    ensures
        r == allowed(url_host(url@), domain_texts(domains)),
{
    is_allowed_host(&host_of(url), domains)
}

/// Keeps the results in the given domains.
pub fn retain_domains(results: Vec<SearchResult>, domains: Option<&Vec<String>>) -> (r: Vec<
    SearchResult,
>)
    ensures
        result_models(r@) == in_domains(
            result_models(results@),
            domain_texts(domains),
            results@.len() as int,
        ),
{
    let mut r: Vec<SearchResult> = Vec::new();
    let ghost all = result_models(results@);
    let mut i: usize = 0;
    assert(result_models(r@) =~= Seq::empty());
    while i < results.len()
        invariant
            i <= results.len(),
            all == result_models(results@),
            result_models(r@) == in_domains(all, domain_texts(domains), i as int),
        decreases results.len() - i,
    {
        assert(all[i as int] == results@[i as int]@);
        if is_allowed(results[i].url.as_str(), domains) {
            let ghost before = r@;
            r.push(copy_result(&results[i]));
            assert(result_models(r@) =~= result_models(before).push(all[i as int]));
        }
        i += 1;
    }
    r
}

fn copy_result(x: &SearchResult) -> (r: SearchResult)
    ensures
        r@ == x@,
{
    SearchResult { title: x.title.clone(), url: x.url.clone(), snippet: x.snippet.clone() }
}

// ------------------------------------------------------------------ rendering

/// `head` and the lines on the first `n` results.
pub open spec fn result_lines(head: Seq<char>, rs: Seq<ResultModel>, n: int) -> Seq<char>
    decreases n,
{
    if n <= 0 || n > rs.len() {
        head
    } else {
        let r = rs[n - 1];
        let listed = result_lines(head, rs, n - 1) + "\n["@ + decimal(n as nat) + "] "@ + r.title
            + "\n"@ + "URL: "@ + r.url + "\n"@;
        if r.snippet.len() > 0 {
            listed + "Snippet: "@ + r.snippet + "\n"@
        } else {
            listed
        }
    }
}

/// The results in words.
pub open spec fn results_text(query: Seq<char>, rs: Seq<ResultModel>) -> Seq<char> {
    if rs.len() == 0 {
        "No results found for \""@ + query + "\"."@
    } else {
        result_lines(
            "Web search results for \""@ + query + "\":\n"@,
            rs,
            rs.len() as int,
        )
    }
}

/// The results in words: a numbered list.
pub fn format_results(query: &str, results: &Vec<SearchResult>) -> (s: String)
    ensures
        s@ == results_text(query@, result_models(results@)),
{
    let ghost all = result_models(results@);
    assert(all.len() == results@.len());
    if results.len() == 0 {
        let mut s: String = "No results found for \"".to_owned();
        s.append(query);
        s.append("\".");
        return s;
    }
    let mut out: String = "Web search results for \"".to_owned();
    out.append(query);
    out.append("\":\n");
    let ghost head = out@;
    let mut i: usize = 0;
    while i < results.len()
        invariant
            i <= results.len(),
            all == result_models(results@),
            out@ == result_lines(head, all, i as int),
        decreases results.len() - i,
    {
        assert(all[i as int] == results@[i as int]@);
        out.append("\n[");
        out.append(decimal_usize(i + 1).as_str());
        out.append("] ");
        out.append(results[i].title.as_str());
        out.append("\n");
        out.append("URL: ");
        out.append(results[i].url.as_str());
        out.append("\n");
        if !results[i].snippet.as_str().is_empty() {
            out.append("Snippet: ");
            out.append(results[i].snippet.as_str());
            out.append("\n");
        }
        i += 1;
    }
    out
}

// --------------------------------------------------------------------- reading

/// What a block of a page comes to: no link, a link that is no result, or a result.
pub enum BlockModel {
    NoLink,
    NoResult,
    Result(ResultModel),
}

/// What a block of a page comes to.
#[derive(Debug)]
pub enum Block {
    NoLink,
    NoResult,
    Result(SearchResult),
}

impl View for Block {
    type V = BlockModel;

    open spec fn view(&self) -> BlockModel {
        match self {
            Block::NoLink => BlockModel::NoLink,
            Block::NoResult => BlockModel::NoResult,
            Block::Result(r) => BlockModel::Result(r@),
        }
    }
}

/// A result with these parts, unless its title is empty or its address is none of the web.
pub open spec fn web_result(title: Seq<char>, url: Seq<char>, snippet: Seq<char>) -> BlockModel {
    if title.len() > 0 && starts_with(url, "http"@) {
        BlockModel::Result(ResultModel { title, url, snippet })
    } else {
        BlockModel::NoResult
    }
}

/// A result with these parts, unless its title is empty or its address is none of the web.
pub fn web_result_of(title: String, url: String, snippet: String) -> (r: Block)
    ensures
        r@ == web_result(title@, url@, snippet@),
{
    if !title.as_str().is_empty() && starts_with_text(url.as_str(), "http") {
        Block::Result(SearchResult { title, url, snippet })
    } else {
        Block::NoResult
    }
}

/// The text, empty where there is none.
pub open spec fn or_empty(t: Option<Seq<char>>) -> Seq<char> {
    match t {
        Some(s) => s,
        None => Seq::empty(),
    }
}

fn text_or_empty(t: Option<String>) -> (r: String)
    ensures
        r@ == or_empty(text_of(t)),
{
    match t {
        Some(s) => s,
        None => {
            let s = String::new();
            assert(s@ =~= Seq::empty());
            s
        },
    }
}

/// What a block of 360 with this link comes to: the address that the block itself names
/// is the real one.
pub open spec fn so360_parts(
    link: Option<(Seq<char>, Seq<char>)>,
    real_url: Option<Seq<char>>,
    snippet: Option<Seq<char>>,
) -> BlockModel {
    match link {
        Some((title, href)) => web_result(
            title,
            match real_url {
                Some(u) => u,
                None => href,
            },
            or_empty(snippet),
        ),
        None => BlockModel::NoLink,
    }
}

/// What a block of 360 with this link comes to.
pub fn so360_block(
    link: Option<(String, String)>,
    real_url: Option<String>,
    snippet: Option<String>,
) -> (r: Block)
    ensures
        r@ == so360_parts(pair_text(link), text_of(real_url), text_of(snippet)),
{
    match link {
        Some((title, href)) => web_result_of(
            title,
            match real_url {
                Some(u) => u,
                None => href,
            },
            text_or_empty(snippet),
        ),
        None => Block::NoLink,
    }
}

/// What a block of Sogou with this link comes to: the first of the three texts is its
/// snippet, and an address on Sogou itself is made whole.
pub open spec fn sogou_parts(
    link: Option<(Seq<char>, Seq<char>)>,
    wiki: Option<Seq<char>>,
    space: Option<Seq<char>>,
    paragraph: Seq<char>,
) -> BlockModel {
    match link {
        Some((title, href)) => web_result(
            title,
            if starts_with(href, "/link"@) {
                "https://www.sogou.com"@ + href
            } else {
                href
            },
            match (wiki, space) {
                (Some(w), _) => w,
                (None, Some(s)) => s,
                (None, None) => paragraph,
            },
        ),
        None => BlockModel::NoLink,
    }
}

/// What a block of Sogou with this link comes to.
pub fn sogou_block(
    link: Option<(String, String)>,
    wiki: Option<String>,
    space: Option<String>,
    paragraph: String,
) -> (r: Block)
    ensures
        r@ == sogou_parts(pair_text(link), text_of(wiki), text_of(space), paragraph@),
{
    match link {
        Some((title, href)) => {
            let url: String = if starts_with_text(href.as_str(), "/link") {
                let mut u: String = "https://www.sogou.com".to_owned();
                u.append(href.as_str());
                u
            } else {
                href
            };
            let snippet: String = match (wiki, space) {
                (Some(w), _) => w,
                (None, Some(s)) => s,
                (None, None) => paragraph,
            };
            web_result_of(title, url, snippet)
        },
        None => Block::NoLink,
    }
}

/// What a block of 360 comes to.
pub open spec fn so360_result(block: Seq<char>) -> BlockModel {
    so360_parts(
        heading_link(block),
        attribute(block, "data-mdurl"@),
        class_text_in(block, "res-desc"@),
    )
}

/// What a block of Sogou comes to.
pub open spec fn sogou_result(block: Seq<char>) -> BlockModel {
    sogou_parts(
        heading_link(block),
        class_text_in(block, "star-wiki"@),
        class_text_in(block, "space-txt"@),
        paragraph_text(block),
    )
}

/// What a block of Bing comes to.
pub open spec fn bing_result(block: Seq<char>) -> BlockModel {
    match heading_link(block) {
        Some((title, href)) => web_result(title, href, paragraph_text(block)),
        None => BlockModel::NoLink,
    }
}

/// What the block of an engine comes to.
pub open spec fn block_result(engine: Engine, block: Seq<char>) -> BlockModel {
    match engine {
        Engine::So360 => so360_result(block),
        Engine::Sogou => sogou_result(block),
        Engine::Bing => bing_result(block),
    }
}

/// What the block of an engine comes to.
pub fn read_block(engine: Engine, block: &str) -> (r: Block)
    ensures
        r@ == block_result(engine, block@),
{
    let link: Option<(String, String)> = first_anchor_in_h3(block);
    match engine {
        Engine::So360 => so360_block(
            link,
            extract_attr(block, "data-mdurl"),
            extract_class_text(block, "res-desc"),
        ),
        Engine::Sogou => sogou_block(
            link,
            extract_class_text(block, "star-wiki"),
            extract_class_text(block, "space-txt"),
            first_p_text(block),
        ),
        Engine::Bing => match link {
            Some((title, href)) => web_result_of(title, href, first_p_text(block)),
            None => Block::NoLink,
        },
    }
}

/// The results in the blocks from the `i`th on, behind those in `got`: reading stops when
/// a block with a link has been read and there are `count` results.
pub open spec fn results_from(
    engine: Engine,
    blocks: Seq<Seq<char>>,
    i: int,
    count: nat,
    got: Seq<ResultModel>,
) -> Seq<ResultModel>
    decreases blocks.len() - i,
{
    if i < 0 || i >= blocks.len() {
        got
    } else {
        match block_result(engine, blocks[i]) {
            BlockModel::NoLink => results_from(engine, blocks, i + 1, count, got),
            BlockModel::NoResult => if got.len() >= count {
                got
            } else {
                results_from(engine, blocks, i + 1, count, got)
            },
            BlockModel::Result(r) => if got.len() + 1 >= count {
                got.push(r)
            } else {
                results_from(engine, blocks, i + 1, count, got.push(r))
            },
        }
    }
}

/// The results in the blocks of a page; what stands before the first block is none.
pub fn results_in(engine: Engine, blocks: &Vec<String>, count: usize) -> (r: Vec<SearchResult>)
    ensures
        result_models(r@) == results_from(engine, views(blocks@), 1, count as nat, Seq::empty()),
{
    let ghost all = views(blocks@);
    assert(all.len() == blocks@.len());
    let mut got: Vec<SearchResult> = Vec::new();
    let mut i: usize = 1;
    assert(result_models(got@) =~= Seq::empty());
    while i < blocks.len()
        invariant
            1 <= i,
            all == views(blocks@),
            all.len() == blocks@.len(),
            results_from(engine, all, 1, count as nat, Seq::empty()) == results_from(
                engine,
                all,
                i as int,
                count as nat,
                result_models(got@),
            ),
        decreases blocks.len() - i,
    {
        assert(all[i as int] == blocks@[i as int]@);
        assert(result_models(got@).len() == got@.len());
        match read_block(engine, blocks[i].as_str()) {
            Block::NoLink => {},
            Block::NoResult => {
                if got.len() >= count {
                    return got;
                }
            },
            Block::Result(x) => {
                let ghost before = got@;
                let ghost model = x@;
                got.push(x);
                assert(result_models(got@) =~= result_models(before).push(model));
                if got.len() >= count {
                    return got;
                }
            },
        }
        i += 1;
    }
    got
}

/// The pieces of `html` between the occurrences of `mark`.
fn blocks_of(html: &str, mark: &str) -> (r: Vec<String>)
    requires
        mark@.len() > 0,
    ensures
        views(r@) == split_on(html@, mark@),
{
    let pieces: Vec<Vec<char>> = split_chars(&chars_of(html), &chars_of(mark));
    let ghost texts = |v: Vec<char>| v@;
    let ghost all = split_on(html@, mark@);
    assert(pieces@.map_values(texts) == all);
    let mut r: Vec<String> = Vec::new();
    let mut i: usize = 0;
    assert(views(r@) =~= all.take(0));
    while i < pieces.len()
        invariant
            i <= pieces.len(),
            texts == (|v: Vec<char>| v@),
            pieces@.map_values(texts) == all,
            views(r@) == all.take(i as int),
        decreases pieces.len() - i,
    {
        assert(all[i as int] == pieces@[i as int]@);
        let ghost before = r@;
        r.push(string_of(&pieces[i]));
        assert(views(r@) =~= views(before).push(all[i as int]));
        assert(all.take(i as int + 1) =~= all.take(i as int).push(all[i as int]));
        i += 1;
    }
    assert(all.take(i as int) =~= all);
    r
}

/// The results in a page of 360.
pub fn parse_so360(html: &str, count: usize) -> (r: Vec<SearchResult>)
    ensures
        result_models(r@) == results_from(
            Engine::So360,
            split_on(html@, "<li class=\"res-list\""@),
            1,
            count as nat,
            Seq::empty(),
        ),
{
    proof {
        reveal_strlit("<li class=\"res-list\"");
    }
    results_in(Engine::So360, &blocks_of(html, "<li class=\"res-list\""), count)
}

/// What begins a block of a page of Sogou.
pub const SOGOU_PATTERN: &'static str = "<div class=\"vrwrap\">|<div class=\"rb\">";

/// The results in a page of Sogou.
pub fn parse_sogou(html: &str, count: usize) -> (r: Vec<SearchResult>)
    ensures
        result_models(r@) == match regex_pieces(SOGOU_PATTERN@, html@) {
            Some(blocks) => results_from(Engine::Sogou, blocks, 1, count as nat, Seq::empty()),
            None => Seq::empty(),
        },
{
    match split_by(SOGOU_PATTERN, html) {
        Some(blocks) => results_in(Engine::Sogou, &blocks, count),
        None => {
            let r: Vec<SearchResult> = Vec::new();
            assert(result_models(r@) =~= Seq::empty());
            r
        },
    }
}

/// The results in a page of Sogou that was loaded from an address with this path: none
/// where the page asks for a proof of humanity, nor where its start cannot be read
/// because a character lies across its end, so that the next engine has its turn.
pub fn sogou_results(path: &str, html: &str, count: usize) -> (r: Vec<SearchResult>)
    ensures
        result_models(r@) == if leads_to_challenge(path@) || !is_char_boundary(
            html.spec_bytes(),
            window_end(html.spec_bytes()),
        ) || opens_with_challenge(html.spec_bytes()) {
            Seq::empty()
        } else {
            match regex_pieces(SOGOU_PATTERN@, html@) {
                Some(blocks) => results_from(Engine::Sogou, blocks, 1, count as nat, Seq::empty()),
                None => Seq::empty(),
            }
        },
{
    let len: usize = html.as_bytes().len();
    let window: usize = if len <= CHALLENGE_WINDOW {
        len
    } else {
        CHALLENGE_WINDOW
    };
    if !html.is_char_boundary(window) || is_challenge(path, html) {
        let r: Vec<SearchResult> = Vec::new();
        assert(result_models(r@) =~= Seq::empty());
        return r;
    }
    parse_sogou(html, count)
}

// --------------------------------------------------------------------- ranking

/// Sites that only get in the way.
pub open spec fn is_blacklisted(url: Seq<char>) -> bool {
    contains(url, "baike.baidu.com"@) || contains(url, "map.baidu.com"@) || contains(
        url,
        "zhihu.com/topic"@,
    ) || contains(url, "zhidao.baidu.com"@) || contains(url, "tieba.baidu.com"@)
}

/// Whether the address is on a site that only gets in the way.
pub fn blacklisted(url: &str) -> (r: bool)
    ensures
        r == is_blacklisted(url@),
{
    contains_text(url, "baike.baidu.com") || contains_text(url, "map.baidu.com") || contains_text(
        url,
        "zhihu.com/topic",
    ) || contains_text(url, "zhidao.baidu.com") || contains_text(url, "tieba.baidu.com")
}

/// How much the first `n` terms speak for a result: three for each in its title, one for
/// each in its snippet.
pub open spec fn term_score(r: ResultModel, terms: Seq<Seq<char>>, n: int) -> int
    decreases n,
{
    if n <= 0 || n > terms.len() {
        0
    } else {
        term_score(r, terms, n - 1) + (if contains(r.title, terms[n - 1]) {
            3int
        } else {
            0
        }) + (if contains(r.snippet, terms[n - 1]) {
            1int
        } else {
            0
        })
    }
}

/// How much speaks for a result.
pub open spec fn score(r: ResultModel, terms: Seq<Seq<char>>) -> int {
    term_score(r, terms, terms.len() as int) - (if is_blacklisted(r.url) {
        10int
    } else {
        0
    })
}

/// How much speaks for a result.
pub fn score_of(r: &SearchResult, terms: &Vec<String>) -> (s: i128)
    ensures
        s == score(r@, views(terms@)),
{
    let ghost all = views(terms@);
    assert(all.len() == terms@.len());
    let mut s: i128 = 0;
    let mut i: usize = 0;
    while i < terms.len()
        invariant
            i <= terms.len(),
            all == views(terms@),
            s == term_score(r@, all, i as int),
            0 <= s <= 4 * i,
        decreases terms.len() - i,
    {
        assert(all[i as int] == terms@[i as int]@);
        if contains_text(r.title.as_str(), terms[i].as_str()) {
            s = s + 3;
        }
        if contains_text(r.snippet.as_str(), terms[i].as_str()) {
            s = s + 1;
        }
        i += 1;
    }
    if blacklisted(r.url.as_str()) {
        s = s - 10;
    }
    s
}

/// How many results at the front have no smaller score.
pub open spec fn rank_place(rs: Seq<ResultModel>, terms: Seq<Seq<char>>, s: int) -> nat
    decreases rs.len(),
{
    if rs.len() > 0 && score(rs[0], terms) >= s {
        1 + rank_place(rs.drop_first(), terms, s)
    } else {
        0
    }
}

/// The results by score, the best first; those with the same score as they came.
pub open spec fn ranked(rs: Seq<ResultModel>, terms: Seq<Seq<char>>) -> Seq<ResultModel>
    decreases rs.len(),
{
    if rs.len() == 0 {
        rs
    } else {
        let before = ranked(rs.drop_last(), terms);
        before.insert(rank_place(before, terms, score(rs.last(), terms)) as int, rs.last())
    }
}

fn insert_ranked(list: &mut Vec<SearchResult>, x: SearchResult, terms: &Vec<String>)
    ensures
        result_models(final(list)@) == result_models(old(list)@).insert(
            rank_place(
                result_models(old(list)@),
                views(terms@),
                score(x@, views(terms@)),
            ) as int,
            x@,
        ),
{
    let ghost s = result_models(list@);
    let ghost ts = views(terms@);
    let sc: i128 = score_of(&x, terms);
    let mut n: usize = 0;
    assert(s.skip(0) =~= s);
    while n < list.len() && score_of(&list[n], terms) >= sc
        invariant
            n <= list.len(),
            list@ == old(list)@,
            s == result_models(list@),
            ts == views(terms@),
            sc == score(x@, ts),
            rank_place(s, ts, sc as int) == n + rank_place(s.skip(n as int), ts, sc as int),
        decreases list.len() - n,
    {
        assert(s.skip(n as int)[0] == list@[n as int]@);
        assert(s.skip(n as int).drop_first() =~= s.skip(n as int + 1));
        n += 1;
    }
    proof {
        if n < list.len() {
            assert(s.skip(n as int)[0] == list@[n as int]@);
        }
        assert(rank_place(s.skip(n as int), ts, sc as int) == 0);
    }
    let ghost added = x@;
    list.insert(n, x);
    assert(result_models(list@) =~= s.insert(n as int, added));
}

/// The results of Bing in the blocks up to the `n`th, the first one left out.
pub open spec fn all_results_upto(blocks: Seq<Seq<char>>, n: int) -> Seq<ResultModel>
    decreases n,
{
    if n <= 1 || n > blocks.len() {
        Seq::empty()
    } else {
        let before = all_results_upto(blocks, n - 1);
        match bing_result(blocks[n - 1]) {
            BlockModel::Result(r) => before.push(r),
            _ => before,
        }
    }
}

/// All results in a page of Bing, in the order of the page.
pub open spec fn bing_results(html: Seq<char>) -> Seq<ResultModel> {
    let blocks = split_on(html, "<li class=\"b_algo\""@);
    all_results_upto(blocks, blocks.len() as int)
}

/// The best `count` results in a page of Bing for the query.
pub fn parse_bing(html: &str, query: &str, count: usize) -> (r: Vec<SearchResult>)
    ensures
        ({
            let rs = ranked(bing_results(html@), words(query@));
            result_models(r@) == if count < rs.len() {
                rs.take(count as int)
            } else {
                rs
            }
        }),
{
    proof {
        reveal_strlit("<li class=\"b_algo\"");
    }
    let terms: Vec<String> = split_words(&chars_of(query));
    let blocks: Vec<String> = blocks_of(html, "<li class=\"b_algo\"");
    let ghost all = views(blocks@);
    assert(all.len() == blocks@.len());
    let mut results: Vec<SearchResult> = Vec::new();
    let mut i: usize = 1;
    assert(result_models(results@) =~= Seq::empty());
    assert(all_results_upto(all, 1) =~= Seq::empty());
    while i < blocks.len()
        invariant
            1 <= i,
            i <= blocks.len() || blocks.len() == 0,
            all == views(blocks@),
            all.len() == blocks@.len(),
            views(terms@) == words(query@),
            result_models(results@) == ranked(all_results_upto(all, i as int), words(query@)),
        decreases blocks.len() - i,
    {
        assert(all[i as int] == blocks@[i as int]@);
        if let Block::Result(x) = read_block(Engine::Bing, blocks[i].as_str()) {
            proof {
                let before = all_results_upto(all, i as int);
                assert(before.push(x@).drop_last() =~= before);
            }
            insert_ranked(&mut results, x, &terms);
        }
        i += 1;
    }
    proof {
        if blocks.len() == 0 {
            assert(all_results_upto(all, 0) =~= all_results_upto(all, 1));
        }
    }
    let ghost rs = result_models(results@);
    results.truncate(count);
    assert(result_models(results@) =~= if count < rs.len() {
        rs.take(count as int)
    } else {
        rs
    });
    results
}

/// Ranking puts the results by score, the best first, and neither loses nor adds any.
pub proof fn ranking_ranks(rs: Seq<ResultModel>, terms: Seq<Seq<char>>)
    ensures
        ranked(rs, terms).to_multiset() == rs.to_multiset(),
        forall|i: int, j: int|
            0 <= i < j < ranked(rs, terms).len() ==> score(
                #[trigger] ranked(rs, terms)[i],
                terms,
            ) >= score(#[trigger] ranked(rs, terms)[j], terms),
    decreases rs.len(),
{
    if rs.len() > 0 {
        let before = ranked(rs.drop_last(), terms);
        let x = rs.last();
        let sc = score(x, terms);
        ranking_ranks(rs.drop_last(), terms);
        rank_place_bound(before, terms, sc);
        let n = rank_place(before, terms, sc) as int;
        let w = before.insert(n, x);
        vstd::seq_lib::to_multiset_insert(before, n, x);
        rs.drop_last().to_multiset_ensures();
        assert(rs =~= rs.drop_last().push(x));
        assert forall|i: int, j: int| 0 <= i < j < w.len() implies score(#[trigger] w[i], terms)
            >= score(#[trigger] w[j], terms) by {
            if j < n {
                assert(w[i] == before[i] && w[j] == before[j]);
            } else if j == n {
                assert(w[i] == before[i]);
            } else if i > n {
                assert(w[i] == before[i - 1] && w[j] == before[j - 1]);
            } else {
                assert(w[j] == before[j - 1]);
                if i < n {
                    assert(w[i] == before[i]);
                } else if j - 1 > n {
                    assert(score(before[n], terms) >= score(before[j - 1], terms));
                }
            }
        }
    }
}

pub proof fn rank_place_bound(rs: Seq<ResultModel>, terms: Seq<Seq<char>>, s: int)
    ensures
        rank_place(rs, terms, s) <= rs.len(),
        forall|j: int| 0 <= j < rank_place(rs, terms, s) ==> score(#[trigger] rs[j], terms) >= s,
        rank_place(rs, terms, s) < rs.len() ==> score(
            rs[rank_place(rs, terms, s) as int],
            terms,
        ) < s,
    decreases rs.len(),
{
    if rs.len() > 0 && score(rs[0], terms) >= s {
        let rest = rs.drop_first();
        rank_place_bound(rest, terms, s);
        assert forall|j: int| 0 <= j < rank_place(rs, terms, s) implies score(
            #[trigger] rs[j],
            terms,
        ) >= s by {
            if j > 0 {
                assert(rs[j] == rest[j - 1]);
            }
        }
    }
}

} // verus!
