//! What a search keeps, reads and shows, said of the results themselves.
use crate::html_text::{attribute, class_text_in, heading_link, paragraph_text};
use crate::proxy_url::url_host;
use crate::text::{ascii_lower, contains, decimal, starts_with};
use crate::text_laws::texts_hold_texts;
use crate::web_search::{
    all_results_upto, allowed, block_result, engine_at, host_in, in_domains,
    is_blacklisted, leads_to_challenge, opens_with_challenge, rank_place, rank_place_bound, ranked,
    result_lines, results_from, results_text, score, term_score, BlockModel, Engine, ResultModel,
};
use vstd::prelude::*;
use vstd::utf8::decode_utf8;

verus! {

// ------------------------------------------------------------------------ domains

/// The host is the domain, or something and a dot and the domain, whatever the case.
pub open spec fn is_in_domain(host: Seq<char>, domain: Seq<char>) -> bool {
    ||| ascii_lower(host) == ascii_lower(domain)
    ||| exists|sub: Seq<char>|
        ascii_lower(host) == #[trigger] (sub + (seq!['.'] + ascii_lower(domain)))
}

/// The address has a host that is in one of the domains, whichever.
pub open spec fn is_in_some_domain(url: Seq<char>, domains: Seq<Seq<char>>) -> bool {
    url_host(url) is Some && exists|i: int|
        0 <= i < domains.len() && is_in_domain(url_host(url)->0, #[trigger] domains[i])
}

proof fn host_in_is_in_domain(host: Seq<char>, domain: Seq<char>)
    ensures
        host_in(host, domain) <==> is_in_domain(host, domain),
{
    texts_hold_texts(ascii_lower(host), seq!['.'] + ascii_lower(domain));
}

/// Of the results just those are kept, in order, whose address is in one of the domains,
/// whichever of them; where no domains are given, all are kept.
pub proof fn results_in_domains_are_kept(rs: Seq<ResultModel>, domains: Option<Seq<Seq<char>>>)
    ensures
        domains is None || domains->0.len() == 0 ==> in_domains(rs, domains, rs.len() as int) == rs,
        domains is Some && domains->0.len() > 0 ==> in_domains(rs, domains, rs.len() as int)
            == rs.filter(|r: ResultModel| is_in_some_domain(r.url, domains->0)),
{
    kept_so_far(rs, domains, rs.len() as int);
    assert(rs.take(rs.len() as int) =~= rs);
}

proof fn kept_so_far(rs: Seq<ResultModel>, domains: Option<Seq<Seq<char>>>, n: int)
    requires
        0 <= n <= rs.len(),
    ensures
        domains is None || domains->0.len() == 0 ==> in_domains(rs, domains, n) == rs.take(n),
        domains is Some && domains->0.len() > 0 ==> in_domains(rs, domains, n) == rs.take(n).filter(
            |r: ResultModel| is_in_some_domain(r.url, domains->0),
        ),
    decreases n,
{
    reveal(Seq::filter);
    if n == 0 {
        assert(rs.take(0) =~= Seq::empty());
    } else {
        kept_so_far(rs, domains, n - 1);
        let r = rs[n - 1];
        assert(rs.take(n).drop_last() =~= rs.take(n - 1));
        assert(rs.take(n).last() == r);
        assert(rs.take(n) =~= rs.take(n - 1).push(r));
        if let Some(ds) = domains {
            if url_host(r.url) is Some {
                let h = url_host(r.url)->0;
                assert forall|i: int| 0 <= i < ds.len() implies host_in(h, #[trigger] ds[i])
                    == is_in_domain(h, ds[i]) by {
                    host_in_is_in_domain(h, ds[i]);
                }
                if exists|i: int| 0 <= i < ds.len() && host_in(h, #[trigger] ds[i]) {
                    let i = choose|i: int| 0 <= i < ds.len() && host_in(h, #[trigger] ds[i]);
                    assert(is_in_domain(h, ds[i]));
                }
                if exists|i: int| 0 <= i < ds.len() && is_in_domain(h, #[trigger] ds[i]) {
                    let i = choose|i: int| 0 <= i < ds.len() && is_in_domain(h, #[trigger] ds[i]);
                    assert(host_in(h, ds[i]));
                }
            }
            if ds.len() > 0 {
                assert(allowed(url_host(r.url), domains) == is_in_some_domain(r.url, ds));
            }
        }
    }
}

/// What is kept for a list of domains is what is kept for one of them alone.
pub proof fn domains_are_kept_one_by_one(host: Option<Seq<char>>, ds: Seq<Seq<char>>, more: Seq<Seq<char>>)
    requires
        ds.len() > 0,
        more.len() > 0,
    ensures
        allowed(host, Some(ds)) <==> exists|i: int|
            0 <= i < ds.len() && allowed(host, Some(seq![#[trigger] ds[i]])),
        allowed(host, Some(ds + more)) <==> allowed(host, Some(ds)) || allowed(host, Some(more)),
{
    let both = ds + more;
    assert forall|d: Seq<char>| allowed(host, Some(seq![d])) <==> host is Some && #[trigger] host_in(
        host->0,
        d,
    ) by {
        let one = seq![d];
        assert(one[0] == d);
    }
    if host is Some {
        let h = host->0;
        if allowed(host, Some(ds)) {
            let i = choose|i: int| 0 <= i < ds.len() && host_in(h, #[trigger] ds[i]);
            assert(allowed(host, Some(seq![ds[i]])));
            assert(both[i] == ds[i]);
        }
        if allowed(host, Some(more)) {
            let i = choose|i: int| 0 <= i < more.len() && host_in(h, #[trigger] more[i]);
            assert(both[ds.len() + i] == more[i]);
        }
        if allowed(host, Some(both)) {
            let i = choose|i: int| 0 <= i < both.len() && host_in(h, #[trigger] both[i]);
            if i < ds.len() {
                assert(ds[i] == both[i]);
            } else {
                assert(more[i - ds.len()] == both[i]);
            }
        }
        if exists|i: int| 0 <= i < ds.len() && allowed(host, Some(seq![#[trigger] ds[i]])) {
            let i = choose|i: int| 0 <= i < ds.len() && allowed(host, Some(seq![#[trigger] ds[i]]));
            assert(host_in(h, ds[i]));
        }
    }
}

// ------------------------------------------------------------------------- reading

/// The result that a block holds, if any.
pub open spec fn result_of(b: BlockModel) -> Option<ResultModel> {
    match b {
        BlockModel::Result(r) => Some(r),
        _ => None,
    }
}

/// The results of all the blocks, in order.
pub open spec fn results_of(engine: Engine, blocks: Seq<Seq<char>>) -> Seq<ResultModel> {
    blocks.filter_map(|b: Seq<char>| result_of(block_result(engine, b)))
}

proof fn results_go_on(
    engine: Engine,
    blocks: Seq<Seq<char>>,
    i: int,
    count: nat,
    got: Seq<ResultModel>,
)
    requires
        0 <= i <= blocks.len(),
        got.len() < count,
    ensures
        ({
            let all = got + results_of(engine, blocks.skip(i));
            results_from(engine, blocks, i, count, got) == if all.len() <= count {
                all
            } else {
                all.take(count as int)
            }
        }),
    decreases blocks.len() - i,
{
    let f = |b: Seq<char>| result_of(block_result(engine, b));
    let rest = blocks.skip(i);
    if i < blocks.len() {
        let b = blocks[i];
        let later = blocks.skip(i + 1);
        assert(rest =~= seq![b] + later);
        filter_map_in_front(b, later, f);
        let tail = results_of(engine, later);
        match block_result(engine, b) {
            BlockModel::Result(r) => {
                assert(results_of(engine, rest) == seq![r] + tail);
                assert(got + (seq![r] + tail) =~= got.push(r) + tail);
                if got.len() + 1 >= count {
                    assert((got.push(r) + tail).take(count as int) =~= got.push(r));
                    if tail.len() == 0 {
                        assert(got.push(r) + tail =~= got.push(r));
                    }
                } else {
                    results_go_on(engine, blocks, i + 1, count, got.push(r));
                }
            },
            _ => {
                assert(results_of(engine, rest) == tail);
                results_go_on(engine, blocks, i + 1, count, got);
            },
        }
    } else {
        reveal(Seq::filter_map);
        assert(rest =~= Seq::empty());
        assert(got + results_of(engine, rest) =~= got);
    }
}

/// What is left of a list with one more in front.
pub proof fn filter_map_in_front<A, B>(a: A, s: Seq<A>, f: spec_fn(A) -> Option<B>)
    ensures
        (seq![a] + s).filter_map(f) == match f(a) {
            Some(b) => seq![b] + s.filter_map(f),
            None => s.filter_map(f),
        },
    decreases s.len(),
{
    reveal(Seq::filter_map);
    let all = seq![a] + s;
    if s.len() == 0 {
        assert(all =~= seq![a]);
        assert(all.drop_last() =~= Seq::empty());
        assert(Seq::<A>::empty().filter_map(f) =~= Seq::<B>::empty());
        assert(s.filter_map(f) =~= Seq::<B>::empty());
        if let Some(b) = f(a) {
            assert(seq![b] + s.filter_map(f) =~= seq![b]);
            assert(all.filter_map(f) =~= seq![b]);
        }
    } else {
        filter_map_in_front(a, s.drop_last(), f);
        assert(all.drop_last() =~= seq![a] + s.drop_last());
        assert(all.last() == s.last());
        let m = s.drop_last().filter_map(f);
        if let Some(b) = f(a) {
            if let Some(c) = f(s.last()) {
                assert((seq![b] + m).push(c) =~= seq![b] + m.push(c));
                assert(all.filter_map(f) =~= seq![b] + s.filter_map(f));
            }
        }
    }
}

/// The results of a page are those of its blocks, in order, what stands before the first block
/// left out: all of them, or the first `count` where there are more.
pub proof fn first_results_are_taken(engine: Engine, blocks: Seq<Seq<char>>, count: nat)
    requires
        blocks.len() > 0,
    ensures
        ({
            let all = results_of(engine, blocks.skip(1));
            let got = results_from(engine, blocks, 1, count, Seq::empty());
            &&& count > 0 ==> got == if all.len() <= count {
                all
            } else {
                all.take(count as int)
            }
            &&& count == 0 ==> got.len() <= 1
        }),
{
    let none = Seq::<ResultModel>::empty();
    if count > 0 {
        results_go_on(engine, blocks, 1, count, none);
        let all = results_of(engine, blocks.skip(1));
        assert(none + all =~= all);
    } else {
        at_most_one(engine, blocks, 1);
    }
}

proof fn at_most_one(engine: Engine, blocks: Seq<Seq<char>>, i: int)
    ensures
        results_from(engine, blocks, i, 0, Seq::empty()).len() <= 1,
    decreases blocks.len() - i,
{
    if 0 <= i < blocks.len() {
        at_most_one(engine, blocks, i + 1);
    }
}

/// The results of a page of Bing, before they are ranked, are those of all its blocks, in order.
pub proof fn bing_reads_every_block(blocks: Seq<Seq<char>>, n: int)
    requires
        1 <= n <= blocks.len(),
    ensures
        all_results_upto(blocks, n) == results_of(Engine::Bing, blocks.subrange(1, n)),
    decreases n,
{
    reveal(Seq::filter_map);
    if n == 1 {
        assert(blocks.subrange(1, 1) =~= Seq::empty());
    } else {
        bing_reads_every_block(blocks, n - 1);
        assert(blocks.subrange(1, n).drop_last() =~= blocks.subrange(1, n - 1));
        assert(blocks.subrange(1, n).last() == blocks[n - 1]);
        assert(block_result(Engine::Bing, blocks[n - 1]) == crate::web_search::bing_result(
            blocks[n - 1],
        ));
    }
}

/// A block holds a result just where its heading has a link with a text, and an address of the
/// web behind it. The text of the link is the title. With 360 the address that the block
/// names itself stands for that of the link; with Sogou an address on Sogou is made whole.
/// The snippet is the text of the element that is made for it, or else of a paragraph.
pub proof fn blocks_hold_results(block: Seq<char>, title: Seq<char>, href: Seq<char>)
    requires
        heading_link(block) == Some((title, href)),
    ensures
        ({
            let named = attribute(block, "data-mdurl"@);
            let url = if named is Some {
                named->0
            } else {
                href
            };
            let desc = class_text_in(block, "res-desc"@);
            result_of(block_result(Engine::So360, block)) == if title.len() > 0 && starts_with(
                url,
                "http"@,
            ) {
                Some(
                    ResultModel {
                        title,
                        url,
                        snippet: if desc is Some {
                            desc->0
                        } else {
                            Seq::empty()
                        },
                    },
                )
            } else {
                None
            }
        }),
        ({
            let url = if starts_with(href, "/link"@) {
                "https://www.sogou.com"@ + href
            } else {
                href
            };
            let wiki = class_text_in(block, "star-wiki"@);
            let space = class_text_in(block, "space-txt"@);
            result_of(block_result(Engine::Sogou, block)) == if title.len() > 0 && starts_with(
                url,
                "http"@,
            ) {
                Some(
                    ResultModel {
                        title,
                        url,
                        snippet: if wiki is Some {
                            wiki->0
                        } else if space is Some {
                            space->0
                        } else {
                            paragraph_text(block)
                        },
                    },
                )
            } else {
                None
            }
        }),
        result_of(block_result(Engine::Bing, block)) == if title.len() > 0 && starts_with(
            href,
            "http"@,
        ) {
            Some(ResultModel { title, url: href, snippet: paragraph_text(block) })
        } else {
            None
        },
{
}

/// A block without a link in a heading holds no result.
pub proof fn blocks_without_link_hold_none(engine: Engine, block: Seq<char>)
    requires
        heading_link(block) is None,
    ensures
        result_of(block_result(engine, block)) is None,
{
}

// ------------------------------------------------------------------------- ranking

/// A result scores three for each term in its title, one for each in its snippet, and ten
/// less on a site that only gets in the way.
pub proof fn terms_count(r: ResultModel, terms: Seq<Seq<char>>)
    ensures
        score(r, terms) == 3 * terms.filter(|t: Seq<char>| contains(r.title, t)).len()
            + terms.filter(|t: Seq<char>| contains(r.snippet, t)).len() - if is_blacklisted(r.url) {
            10int
        } else {
            0
        },
{
    terms_so_far(r, terms, terms.len() as int);
    assert(terms.take(terms.len() as int) =~= terms);
}

proof fn terms_so_far(r: ResultModel, terms: Seq<Seq<char>>, n: int)
    requires
        0 <= n <= terms.len(),
    ensures
        term_score(r, terms, n) == 3 * terms.take(n).filter(
            |t: Seq<char>| contains(r.title, t),
        ).len() + terms.take(n).filter(|t: Seq<char>| contains(r.snippet, t)).len(),
    decreases n,
{
    reveal(Seq::filter);
    if n > 0 {
        terms_so_far(r, terms, n - 1);
        assert(terms.take(n).drop_last() =~= terms.take(n - 1));
        assert(terms.take(n).last() == terms[n - 1]);
    }
}

/// Results with the same score stay in the order in which they came.
pub proof fn ranking_is_stable(rs: Seq<ResultModel>, terms: Seq<Seq<char>>, s: int)
    ensures
        ranked(rs, terms).filter(|r: ResultModel| score(r, terms) == s) == rs.filter(
            |r: ResultModel| score(r, terms) == s,
        ),
    decreases rs.len(),
{
    reveal(Seq::filter);
    let p = |r: ResultModel| score(r, terms) == s;
    if rs.len() > 0 {
        let x = rs.last();
        let before = ranked(rs.drop_last(), terms);
        let sc = score(x, terms);
        ranking_is_stable(rs.drop_last(), terms, s);
        crate::web_search::ranking_ranks(rs.drop_last(), terms);
        rank_place_bound(before, terms, sc);
        let n = rank_place(before, terms, sc) as int;
        let a = before.take(n);
        let c = before.skip(n);
        assert(before =~= a + c);
        assert(before.insert(n, x) =~= a + (seq![x] + c));
        Seq::filter_distributes_over_add(a, c, p);
        Seq::filter_distributes_over_add(a, seq![x] + c, p);
        Seq::filter_distributes_over_add(seq![x], c, p);
        assert(seq![x].drop_last() =~= Seq::empty());
        if sc == s {
            assert forall|i: int| 0 <= i < c.len() implies !p(#[trigger] c[i]) by {
                assert(c[i] == before[n + i]);
                if i > 0 {
                    assert(score(before[n], terms) >= score(before[n + i], terms));
                }
            }
            none_left(c, p);
            assert(seq![x].filter(p) =~= seq![x]);
            assert(a.filter(p) + (seq![x] + c.filter(p)) =~= (a.filter(p) + c.filter(p)).push(x));
        } else {
            assert(!p(x));
            none_left(seq![x], p);
            assert(a.filter(p) + (seq![x].filter(p) + c.filter(p)) =~= a.filter(p) + c.filter(p));
        }
    }
}

proof fn none_left<A>(s: Seq<A>, p: spec_fn(A) -> bool)
    requires
        forall|i: int| 0 <= i < s.len() ==> !p(#[trigger] s[i]),
    ensures
        s.filter(p) == Seq::<A>::empty(),
    decreases s.len(),
{
    reveal(Seq::filter);
    if s.len() > 0 {
        assert forall|i: int| 0 <= i < s.drop_last().len() implies !p(#[trigger] s.drop_last()[i]) by {
            assert(s.drop_last()[i] == s[i]);
        }
        none_left(s.drop_last(), p);
        assert(!p(s[s.len() - 1]));
    } else {
        assert(s =~= Seq::empty());
    }
}

// ------------------------------------------------------------------------- showing

/// The lines on a result with its number.
pub open spec fn result_entry(n: int, r: ResultModel) -> Seq<char> {
    "\n["@ + decimal(n as nat) + "] "@ + r.title + "\nURL: "@ + r.url + "\n"@ + if r.snippet.len()
        > 0 {
        "Snippet: "@ + r.snippet + "\n"@
    } else {
        Seq::empty()
    }
}

/// Every result is shown, in order and with its number, behind the query.
pub proof fn every_result_is_shown(query: Seq<char>, rs: Seq<ResultModel>)
    requires
        rs.len() > 0,
    ensures
        results_text(query, rs) == "Web search results for \""@ + query + "\":\n"@ + Seq::new(
            rs.len(),
            |i: int| result_entry(i + 1, rs[i]),
        ).flatten(),
{
    let head = "Web search results for \""@ + query + "\":\n"@;
    lines_so_far(head, rs, rs.len() as int);
}

proof fn lines_so_far(head: Seq<char>, rs: Seq<ResultModel>, n: int)
    requires
        0 <= n <= rs.len(),
    ensures
        result_lines(head, rs, n) == head + Seq::new(
            n as nat,
            |i: int| result_entry(i + 1, rs[i]),
        ).flatten(),
    decreases n,
{
    let parts = Seq::new(n as nat, |i: int| result_entry(i + 1, rs[i]));
    if n == 0 {
        assert(parts =~= Seq::empty());
        assert(parts.flatten() =~= Seq::<char>::empty());
        assert(head + parts.flatten() =~= head);
    } else {
        lines_so_far(head, rs, n - 1);
        let fewer = Seq::new((n - 1) as nat, |i: int| result_entry(i + 1, rs[i]));
        assert(parts =~= fewer.push(result_entry(n, rs[n - 1])));
        fewer.lemma_flatten_push(result_entry(n, rs[n - 1]));
        reveal_strlit("\nURL: ");
        reveal_strlit("URL: ");
        reveal_strlit("\n");
        assert("\nURL: "@ =~= "\n"@ + "URL: "@);
        assert(result_lines(head, rs, n) =~= head + (fewer.flatten() + result_entry(n, rs[n - 1])));
    }
}

// -------------------------------------------------------------------- the engines

/// A query with a Chinese character goes to the Chinese engines first, any other to Bing.
pub proof fn chinese_queries_go_to_chinese_engines(query: Seq<char>)
    ensures
        ({
            let chinese = exists|i: int|
                0 <= i < query.len() && '\u{4e00}' <= #[trigger] query[i] <= '\u{9fff}';
            &&& chinese ==> engine_at(query, 0) == Some(Engine::So360) && engine_at(query, 1)
                == Some(Engine::Sogou) && engine_at(query, 2) == Some(Engine::Bing)
            &&& !chinese ==> engine_at(query, 0) == Some(Engine::Bing) && engine_at(query, 1)
                == Some(Engine::So360) && engine_at(query, 2) == Some(Engine::Sogou)
            &&& engine_at(query, 3) is None
        }),
{
}

/// A site only gets in the way where its address holds one of these.
pub proof fn sites_in_the_way(url: Seq<char>)
    ensures
        is_blacklisted(url) <==> {
            ||| contains(url, "baike.baidu.com"@)
            ||| contains(url, "map.baidu.com"@)
            ||| contains(url, "zhihu.com/topic"@)
            ||| contains(url, "zhidao.baidu.com"@)
            ||| contains(url, "tieba.baidu.com"@)
        },
{
}

/// A page that asks for a proof is told by its address, or by what stands within the first
/// two thousand bytes of it.
pub proof fn challenges_are_told(path: Seq<char>, html: Seq<u8>)
    ensures
        leads_to_challenge(path) <==> contains(path, "antispider"@),
        html.len() <= 2000 ==> (opens_with_challenge(html) <==> contains(
            decode_utf8(html),
            "验"@,
        )),
        html.len() > 2000 ==> (opens_with_challenge(html) <==> contains(
            decode_utf8(html.take(2000)),
            "验"@,
        )),
{
    if html.len() <= 2000 {
        assert(html.take(html.len() as int) =~= html);
    }
}

} // verus!
