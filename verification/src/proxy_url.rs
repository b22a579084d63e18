//! Which addresses are refreshed while a session is idle.
use crate::text::{same_text, text_of};
use vstd::prelude::*;

verus! {

/// The host in an address, as `reqwest::Url` reads it; nothing where the address cannot be
/// read or has no host.
pub uninterp spec fn url_host(url: Seq<char>) -> Option<Seq<char>>;

/// `reqwest::Url::parse` and `Url::host_str`: the host is a function of the address.
#[verifier::external_body]
pub(crate) fn host_of(url: &str) -> (r: Option<String>)
    ensures
        text_of(r) == url_host(url@),
{
    Some(reqwest::Url::parse(url).ok()?.host_str()?.to_string())
}

/// The host is this machine.
pub open spec fn is_local(host: Option<Seq<char>>) -> bool {
    host == Some("127.0.0.1"@) || host == Some("localhost"@) || host == Some("::1"@)
}

/// Whether the host is this machine.
pub fn is_local_host(host: &Option<String>) -> (r: bool)
    ensures
        r == is_local(text_of(*host)),
{
    match host {
        Some(h) => same_text(h.as_str(), "127.0.0.1") || same_text(h.as_str(), "localhost")
            || same_text(h.as_str(), "::1"),
        None => false,
    }
}

/// Whether the address is refreshed while a session is idle: it is that of the chat proxy,
/// or its host is this machine.
pub fn is_cli_chat_proxy_url_for_idle_refresh(url: &str, is_cli_chat_proxy: bool) -> (r: bool)
    ensures
        r == (is_cli_chat_proxy || is_local(url_host(url@))),
{
    is_cli_chat_proxy || is_local_host(&host_of(url))
}

} // verus!
