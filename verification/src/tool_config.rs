//! Checking the entries of a tool configuration.
use crate::skill_deploy::{debug_quoted, quoted};
use crate::text::{decimal, decimal_usize};
use crate::text_order::pair_views;
use vstd::prelude::*;
use vstd::string::StringExecFns;

verus! {

/// What is wrong with an entry.
#[derive(Debug, Clone)]
pub enum ToolConfigEntryErrorKind {
    /// The parameters are no JSON object.
    ParamsJsonParse { raw: String, error: String },
    /// The parameters are JSON but no object.
    ParamsJsonNotObject { value: String },
    /// The name that is given instead is no name.
    NameOverrideInvalid { name: String, error: String },
}

/// [`ToolConfigEntryErrorKind`] by its texts.
pub enum KindModel {
    ParamsJsonParse { raw: Seq<char>, error: Seq<char> },
    ParamsJsonNotObject { value: Seq<char> },
    NameOverrideInvalid { name: Seq<char>, error: Seq<char> },
}

impl View for ToolConfigEntryErrorKind {
    type V = KindModel;

    open spec fn view(&self) -> KindModel {
        match self {
            ToolConfigEntryErrorKind::ParamsJsonParse { raw, error } => KindModel::ParamsJsonParse {
                raw: raw@,
                error: error@,
            },
            ToolConfigEntryErrorKind::ParamsJsonNotObject { value } => {
                KindModel::ParamsJsonNotObject { value: value@ }
            },
            ToolConfigEntryErrorKind::NameOverrideInvalid { name, error } => {
                KindModel::NameOverrideInvalid { name: name@, error: error@ }
            },
        }
    }
}

/// An entry that is wrong.
#[derive(Debug, Clone)]
pub struct ToolConfigEntryError {
    /// Which entry it is.
    pub index: usize,
    pub tool_id: String,
    pub kind: ToolConfigEntryErrorKind,
}

/// [`ToolConfigEntryError`] by its texts.
pub struct EntryErrorModel {
    pub index: nat,
    pub tool_id: Seq<char>,
    pub kind: KindModel,
}

impl View for ToolConfigEntryError {
    type V = EntryErrorModel;

    open spec fn view(&self) -> EntryErrorModel {
        EntryErrorModel { index: self.index as nat, tool_id: self.tool_id@, kind: self.kind@ }
    }
}

/// The kind of an error in words; `first` and `second` are its texts in quotes.
pub open spec fn kind_text(kind: KindModel, first: Seq<char>, second: Seq<char>) -> Seq<char> {
    match kind {
        KindModel::ParamsJsonParse { .. } => "ParamsJsonParse { raw: "@ + first + ", error: "@
            + second + " }"@,
        KindModel::ParamsJsonNotObject { .. } => "ParamsJsonNotObject { value: "@ + first + " }"@,
        KindModel::NameOverrideInvalid { .. } => "NameOverrideInvalid { name: "@ + first
            + ", error: "@ + second + " }"@,
    }
}

/// The first text of a kind of error.
pub open spec fn first_text(kind: KindModel) -> Seq<char> {
    match kind {
        KindModel::ParamsJsonParse { raw, .. } => raw,
        KindModel::ParamsJsonNotObject { value } => value,
        KindModel::NameOverrideInvalid { name, .. } => name,
    }
}

/// The second text of a kind of error, empty where it has none.
pub open spec fn second_text(kind: KindModel) -> Seq<char> {
    match kind {
        KindModel::ParamsJsonParse { error, .. } => error,
        KindModel::ParamsJsonNotObject { .. } => Seq::empty(),
        KindModel::NameOverrideInvalid { error, .. } => error,
    }
}

/// The error in words; `first` and `second` are the texts of its kind in quotes.
pub open spec fn entry_error_text(e: EntryErrorModel, first: Seq<char>, second: Seq<char>) -> Seq<
    char,
> {
    "tool config entry error at index "@ + decimal(e.index) + " (tool_id="@ + e.tool_id + "): "@
        + kind_text(e.kind, first, second)
}

impl ToolConfigEntryError {
    /// An entry that is wrong.
    pub fn new(index: usize, tool_id: String, kind: ToolConfigEntryErrorKind) -> (r: Self)
        ensures
            r.index == index,
            r.tool_id == tool_id,
            r.kind == kind,
    {
        ToolConfigEntryError { index, tool_id, kind }
    }

    /// The error in words, with the texts of its kind already in quotes.
    pub fn message_with(&self, first: &str, second: &str) -> (r: String)
        ensures
            r@ == entry_error_text(self@, first@, second@),
    {
        let mut kind: String = match &self.kind {
            ToolConfigEntryErrorKind::ParamsJsonParse {
                ..
            } => "ParamsJsonParse { raw: ".to_owned(),
            ToolConfigEntryErrorKind::ParamsJsonNotObject {
                ..
            } => "ParamsJsonNotObject { value: ".to_owned(),
            ToolConfigEntryErrorKind::NameOverrideInvalid {
                ..
            } => "NameOverrideInvalid { name: ".to_owned(),
        };
        kind.append(first);
        let one: bool = match &self.kind {
            ToolConfigEntryErrorKind::ParamsJsonNotObject { .. } => true,
            _ => false,
        };
        if !one {
            kind.append(", error: ");
            kind.append(second);
        }
        kind.append(" }");
        let mut s: String = "tool config entry error at index ".to_owned();
        s.append(decimal_usize(self.index).as_str());
        s.append(" (tool_id=");
        s.append(self.tool_id.as_str());
        s.append("): ");
        s.append(kind.as_str());
        s
    }

    /// The error in words.
    pub fn message(&self) -> (r: String)
        ensures
            r@ == entry_error_text(
                self@,
                debug_quoted(first_text(self@.kind)),
                debug_quoted(second_text(self@.kind)),
            ),
    {
        match &self.kind {
            ToolConfigEntryErrorKind::ParamsJsonParse { raw, error } => self.message_with(
                quoted(raw.as_str()).as_str(),
                quoted(error.as_str()).as_str(),
            ),
            ToolConfigEntryErrorKind::ParamsJsonNotObject { value } => {
                let none: String = String::new();
                assert(none@ =~= Seq::empty());
                self.message_with(quoted(value.as_str()).as_str(), quoted(none.as_str()).as_str())
            },
            ToolConfigEntryErrorKind::NameOverrideInvalid { name, error } => self.message_with(
                quoted(name.as_str()).as_str(),
                quoted(error.as_str()).as_str(),
            ),
        }
    }
}

/// The fields of the JSON object `raw`, each with its name and its value as JSON, as
/// `serde_json` reads them; what it says where `raw` is none.
pub uninterp spec fn json_object(raw: Seq<char>) -> Result<Seq<(Seq<char>, Seq<char>)>, Seq<char>>;

/// The texts of parsed fields.
pub open spec fn fields_text(r: Result<Vec<(String, String)>, String>) -> Result<
    Seq<(Seq<char>, Seq<char>)>,
    Seq<char>,
> {
    match r {
        Ok(v) => Ok(pair_views(v@)),
        Err(e) => Err(e@),
    }
}

/// `serde_json::from_str` into a `serde_json::Map`: the fields, or the message of the error,
/// are a function of the text.
#[verifier::external_body]
fn parse_object(raw: &str) -> (r: Result<Vec<(String, String)>, String>)
    ensures
        fields_text(r) == json_object(raw@),
{
    let map: Result<serde_json::Map<String, serde_json::Value>, serde_json::Error> =
        serde_json::from_str(raw);
    map.map(|m| m.into_iter().map(|(k, v)| (k, v.to_string())).collect()).map_err(|e| e.to_string())
}

/// The error of an entry whose parameters are no JSON object.
pub open spec fn params_error(
    index: nat,
    tool_id: Seq<char>,
    raw: Seq<char>,
    error: Seq<char>,
) -> EntryErrorModel {
    EntryErrorModel { index, tool_id, kind: KindModel::ParamsJsonParse { raw, error } }
}

/// The parameters of an entry whose text parsed as `parsed`.
pub fn params_of(
    index: usize,
    tool_id: &str,
    raw: &str,
    parsed: Result<Vec<(String, String)>, String>,
) -> (r: Result<Vec<(String, String)>, ToolConfigEntryError>)
    ensures
        match (r, parsed) {
            (Ok(v), Ok(p)) => v == p,
            (Err(e), Err(text)) => e@ == params_error(index as nat, tool_id@, raw@, text@),
            _ => false,
        },
{
    match parsed {
        Ok(v) => Ok(v),
        Err(error) => Err(
            ToolConfigEntryError::new(
                index,
                tool_id.to_owned(),
                ToolConfigEntryErrorKind::ParamsJsonParse { raw: raw.to_owned(), error },
            ),
        ),
    }
}

/// The parameters of an entry: none where the text is missing or empty.
pub fn parse_params_json(index: usize, tool_id: &str, raw: Option<&str>) -> (r: Result<
    Option<Vec<(String, String)>>,
    ToolConfigEntryError,
>)
    ensures
        match raw {
            Some(text) => if text@.len() == 0 {
                r matches Ok(p) && p is None
            } else {
                match json_object(text@) {
                    Ok(fields) => r matches Ok(p) && (p matches Some(v) && pair_views(v@) == fields),
                    Err(error) => r matches Err(e) && e@ == params_error(
                        index as nat,
                        tool_id@,
                        text@,
                        error,
                    ),
                }
            },
            None => r matches Ok(p) && p is None,
        },
{
    match raw {
        Some(text) => {
            if text.is_empty() {
                return Ok(None);
            }
            match params_of(index, tool_id, text, parse_object(text)) {
                Ok(v) => Ok(Some(v)),
                Err(e) => Err(e),
            }
        },
        None => Ok(None),
    }
}

/// Checks the name that is given instead of a tool's own: it may be missing, not empty.
pub fn validate_name_override(
    index: usize,
    tool_id: &str,
    name: Option<&str>,
    raw: Option<&str>,
) -> (r: Result<(), ToolConfigEntryError>)
    ensures
        r is Ok <==> (name matches Some(n) ==> n@.len() > 0),
        r matches Err(e) ==> e@ == (EntryErrorModel {
            index: index as nat,
            tool_id: tool_id@,
            kind: KindModel::NameOverrideInvalid {
                name: Seq::empty(),
                error: "name override cannot be empty"@,
            },
        }),
{
    if let Some(n) = name {
        if n.is_empty() {
            assert(n@ =~= Seq::empty());
            return Err(
                ToolConfigEntryError::new(
                    index,
                    tool_id.to_owned(),
                    ToolConfigEntryErrorKind::NameOverrideInvalid {
                        name: n.to_owned(),
                        error: "name override cannot be empty".to_owned(),
                    },
                ),
            );
        }
    }
    Ok(())
}

/// Checks the name of a tool: it may not be empty.
pub fn validate_tool_name(name: &str) -> (r: Result<(), ToolConfigEntryError>)
    ensures
        r is Ok <==> name@.len() > 0,
        r matches Err(e) ==> e@ == (EntryErrorModel {
            index: 0,
            tool_id: Seq::empty(),
            kind: KindModel::NameOverrideInvalid {
                name: Seq::empty(),
                error: "tool name cannot be empty"@,
            },
        }),
{
    if name.is_empty() {
        assert(name@ =~= Seq::empty());
        let none: String = String::new();
        assert(none@ =~= Seq::empty());
        return Err(
            ToolConfigEntryError::new(
                0,
                none,
                ToolConfigEntryErrorKind::NameOverrideInvalid {
                    name: name.to_owned(),
                    error: "tool name cannot be empty".to_owned(),
                },
            ),
        );
    }
    Ok(())
}

} // verus!
