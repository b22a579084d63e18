//! What the browser tools show, told of the page itself.
use crate::browser::{
    is_navigable, ref_lines, ref_quotes, shown, skipped_tags, snapshot_text, target_of, truncated,
    BrowserElementRef, BrowserSnapshotResult, TargetModel,
};
use crate::insert_text::{insert_script, text_literal};
use crate::skill_deploy::debug_quoted;
use crate::text::{ascii_lower, decimal, is_digit, trim};
use crate::tool_meta::{reads, writes, ToolScope};
use vstd::prelude::*;

verus! {

/// The line on an element.
pub open spec fn element_entry(r: BrowserElementRef, quote: Seq<char>) -> Seq<char> {
    "- ["@ + decimal(r.ref_id as nat) + "] "@ + r.role@ + ": "@ + quote + "\n"@
}

proof fn ref_lines_are(
    head: Seq<char>,
    refs: Seq<BrowserElementRef>,
    quotes: Seq<Seq<char>>,
    n: nat,
)
    requires
        n <= refs.len(),
    ensures
        ref_lines(head, refs, quotes, n as int) == head + Seq::new(
            n,
            |i: int| element_entry(refs[i], quotes[i]),
        ).flatten(),
    decreases n,
{
    let parts = Seq::new(n, |i: int| element_entry(refs[i], quotes[i]));
    if n == 0 {
        assert(parts =~= Seq::empty());
        assert(head + parts.flatten() =~= head);
    } else {
        ref_lines_are(head, refs, quotes, (n - 1) as nat);
        let fewer = Seq::new((n - 1) as nat, |i: int| element_entry(refs[i], quotes[i]));
        let e = element_entry(refs[n - 1], quotes[n - 1]);
        assert(parts =~= fewer.push(e));
        fewer.lemma_flatten_push(e);
        assert(ref_lines(head, refs, quotes, n as int) =~= head + parts.flatten());
    }
}

/// A snapshot names the page and each of its elements, and shows the content where it is
/// asked for.
pub proof fn every_element_is_listed(
    s: BrowserSnapshotResult,
    quotes: Seq<Seq<char>>,
    refs_only: bool,
)
    requires
        quotes.len() == s.refs@.len(),
    ensures
        snapshot_text(s, quotes, refs_only) == "# "@ + s.title@ + "\nURL: "@ + s.url@ + "\n"@ + (
        if s.refs@.len() > 0 {
            "\n## Interactive elements\n"@ + Seq::new(
                s.refs@.len(),
                |i: int| element_entry(s.refs@[i], quotes[i]),
            ).flatten()
        } else {
            Seq::empty()
        }) + (if refs_only {
            Seq::empty()
        } else {
            "\n## Content\n"@ + s.markdown@
        }),
{
    let head = "# "@ + s.title@ + "\nURL: "@ + s.url@ + "\n"@;
    let title = "\n## Interactive elements\n"@;
    ref_lines_are(head + title, s.refs@, quotes, s.refs@.len());
    let lines = Seq::new(s.refs@.len(), |i: int| element_entry(s.refs@[i], quotes[i])).flatten();
    let listed = head + (if s.refs@.len() > 0 {
        title + lines
    } else {
        Seq::empty()
    });
    assert(head + title + lines =~= head + (title + lines));
    assert(head + Seq::<char>::empty() =~= head);
    assert(listed + Seq::<char>::empty() =~= listed);
    assert(listed + "\n## Content\n"@ + s.markdown@ =~= listed + ("\n## Content\n"@ + s.markdown@));
}

/// An element is told by its text in quotes, and by a dash where it has none.
pub proof fn elements_are_quoted(refs: Seq<BrowserElementRef>, i: int)
    requires
        0 <= i < refs.len(),
    ensures
        ref_quotes(refs).len() == refs.len(),
        refs[i].text@.len() > 0 ==> ref_quotes(refs)[i] == debug_quoted(refs[i].text@),
        refs[i].text@.len() == 0 ==> ref_quotes(refs)[i] == debug_quoted("-"@),
{
}

/// Of a text that is too long the front is shown and that something is missing; one that is
/// not is shown whole.
pub proof fn front_is_shown(s: Seq<char>, max: int, i: int)
    requires
        0 <= max,
        0 <= i < s.len(),
    ensures
        i < max ==> i < truncated(s, max).len() && truncated(s, max)[i] == s[i],
        s.len() > max ==> truncated(s, max).skip(max) == "\n\n[truncated]"@,
        s.len() <= max ==> truncated(s, max) == s,
{
    if s.len() > max {
        assert(truncated(s, max).skip(max) =~= "\n\n[truncated]"@);
    }
}

/// What is shown of a page is its text without the whitespace around it, and no more than
/// forty thousand characters of it.
pub proof fn shown_is_trimmed(m: Seq<char>)
    ensures
        trim(m).len() <= 40_000 ==> shown(Some(m)) == trim(m),
        trim(m).len() > 40_000 ==> shown(Some(m)) == trim(m).take(40_000) + "\n\n[truncated]"@,
        shown(None).len() == 0,
{
    let none = Seq::<char>::empty();
    crate::text::leading_white_bound(none);
    crate::text::trimmed_end_len_bound(crate::text::trim_start(none));
    assert(trim(none).len() == 0);
}

/// A number stands for an element of the last snapshot, anything else for a CSS selector;
/// whitespace around it does not matter.
pub proof fn numbers_are_refs(selector: Seq<char>)
    ensures
        match target_of(selector) {
            TargetModel::Nothing => trim(selector).len() == 0,
            TargetModel::Ref(n) => n == trim(selector) && n.len() > 0 && n != "0"@ && forall|i: int|
                0 <= i < n.len() ==> is_digit(#[trigger] n[i]),
            TargetModel::Css(s) => s == trim(selector) && s.len() > 0 && (s == "0"@ || exists|i: int|
                0 <= i < s.len() && !is_digit(#[trigger] s[i])),
        },
{
}

/// A browser goes to addresses of the web, in whatever case their scheme is written, and to
/// nothing else.
pub proof fn web_addresses_are_navigable(url: Seq<char>)
    ensures
        is_navigable(url) <==> {
            ||| url.len() >= 7 && ascii_lower(url.take(7)) == "http://"@
            ||| url.len() >= 8 && ascii_lower(url.take(8)) == "https://"@
        },
{
    reveal_strlit("http://");
    reveal_strlit("https://");
    let low = ascii_lower(url);
    if url.len() >= 7 {
        assert(ascii_lower(url.take(7)) =~= low.subrange(0, 7));
    }
    if url.len() >= 8 {
        assert(ascii_lower(url.take(8)) =~= low.subrange(0, 8));
    }
}

/// Scripts, styles and what is embedded are left out of a page.
pub proof fn scripts_are_skipped(tag: Seq<char>)
    ensures
        skipped_tags().contains(tag) <==> {
            ||| tag == "script"@
            ||| tag == "style"@
            ||| tag == "noscript"@
            ||| tag == "svg"@
            ||| tag == "iframe"@
            ||| tag == "object"@
            ||| tag == "embed"@
        },
{
    let s = skipped_tags();
    assert(s[0] == "script"@ && s[1] == "style"@ && s[2] == "noscript"@ && s[3] == "svg"@ && s[4]
        == "iframe"@ && s[5] == "object"@ && s[6] == "embed"@);
}

/// What is typed by a script is handed to the page as a literal, as if it were typed.
pub proof fn scripts_insert_the_text(text: Seq<char>)
    ensures
        insert_script(text)
            == "(() => { const el = document.activeElement; if (!el) return false; return document.execCommand('insertText', false, "@
            + text_literal(text) + "); })()"@,
{
}

/// A tool that only reads says so, and one that acts says that.
pub proof fn tools_say_what_they_do()
    ensures
        reads().is_read_only && reads().tool_scope == Some(ToolScope::Read),
        !writes().is_read_only && writes().tool_scope == Some(ToolScope::Write),
{
}

} // verus!
