//! Where the files of the agent live.
use crate::paths::{join_path, joined};
use vstd::prelude::*;

verus! {

/// The text of an optional string slice.
pub open spec fn text_in(s: Option<&str>) -> Option<Seq<char>> {
    match s {
        Some(t) => Some(t@),
        None => None,
    }
}

/// The text of an optional string.
pub open spec fn owned_text(s: Option<String>) -> Option<Seq<char>> {
    match s {
        Some(t) => Some(t@),
        None => None,
    }
}

/// The directory of the agent in the directory of the user, which goes by its canonical
/// path where it has one.
pub open spec fn home_in(home: Seq<char>, canonical: Option<Seq<char>>) -> Seq<char> {
    joined(
        match canonical {
            Some(c) => c,
            None => home,
        },
        ".qidi"@,
    )
}

/// The directory of the agent: the one that is configured, word for word, unless that is
/// empty; else the one in the directory of the user.
pub open spec fn resolved_home(
    configured: Option<Seq<char>>,
    os_home: Option<Seq<char>>,
    canonical: Option<Seq<char>>,
) -> Option<Seq<char>> {
    if configured is Some && configured->0.len() > 0 {
        configured
    } else {
        match os_home {
            Some(h) => Some(home_in(h, canonical)),
            None => None,
        }
    }
}

/// The directory of the agent in the directory of the user.
pub fn qidi_home_in(home: &str, canonical: Option<&str>) -> (r: String)
    ensures
        r@ == home_in(home@, text_in(canonical)),
{
    match canonical {
        Some(c) => join_path(c, ".qidi"),
        None => join_path(home, ".qidi"),
    }
}

/// The directory of the agent, from what is configured and the directory of the user.
pub fn resolve_qidi_home_from(
    qidi_home_env: Option<&str>,
    os_home: Option<&str>,
    canonical: Option<&str>,
) -> (r: Option<String>)
    ensures
        owned_text(r) == resolved_home(text_in(qidi_home_env), text_in(os_home), text_in(canonical)),
{
    if let Some(env) = qidi_home_env {
        if !env.is_empty() {
            return Some(env.to_owned());
        }
    }
    match os_home {
        Some(h) => Some(qidi_home_in(h, canonical)),
        None => None,
    }
}

/// The directory of the agent where none is configured; where the user has no directory
/// either, it lies in the current one.
pub fn default_qidi_home(os_home: Option<&str>, canonical: Option<&str>) -> (r: String)
    ensures
        r@ == home_in(
            match os_home {
                Some(h) => h@,
                None => "."@,
            },
            text_in(canonical),
        ),
{
    match os_home {
        Some(h) => qidi_home_in(h, canonical),
        None => qidi_home_in(".", canonical),
    }
}

/// The directory of the agent: as resolved, else as by default.
pub fn qidi_home(resolved: Option<String>, default: String) -> (r: String)
    ensures
        r == match resolved {
            Some(h) => h,
            None => default,
        },
{
    match resolved {
        Some(h) => h,
        None => default,
    }
}

/// The directory of the agent, as it was settled at first, where one can be resolved at
/// all.
pub fn user_qidi_home(resolved: &Option<String>, settled: &str) -> (r: Option<String>)
    ensures
        r is Some <==> *resolved is Some,
        r matches Some(h) ==> h@ == settled@,
{
    match resolved {
        Some(_) => Some(settled.to_owned()),
        None => None,
    }
}

/// What is configured wins over everything else, and stands word for word.
pub proof fn configured_home_wins(
    configured: Seq<char>,
    os_home: Option<Seq<char>>,
    canonical: Option<Seq<char>>,
)
    requires
        configured.len() > 0,
    ensures
        resolved_home(Some(configured), os_home, canonical) == Some(configured),
{
}

} // verus!
