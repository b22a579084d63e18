//! What tools are announced with.
use vstd::prelude::*;

verus! {

/// What a tool is for.
#[derive(Debug, Clone, Copy, PartialEq, Eq, Structural)]
pub enum ToolKind {
    BrowserRead,
    BrowserAct,
    Think,
    /// Of no kind that a session with restricted tools is given.
    Other,
}

impl ToolKind {
    /// Whether tools of this kind are known to change nothing.
    pub fn is_read_only(&self) -> (r: bool)
        ensures
            r == (*self == ToolKind::BrowserRead || *self == ToolKind::Think),
    {
        match self {
            ToolKind::BrowserRead => true,
            ToolKind::Think => true,
            _ => false,
        }
    }
}

/// The family of tools that a tool belongs to.
#[derive(Debug, Clone, Copy, PartialEq, Eq, Structural)]
pub enum ToolNamespace {
    QidiBuild,
}

/// What a tool touches.
#[derive(Debug, Clone, Copy, PartialEq, Eq, Structural)]
pub enum ToolScope {
    Read,
    Write,
}

/// What a tool may do.
#[derive(Debug, Clone, Copy)]
pub struct ToolCapabilities {
    pub is_read_only: bool,
    pub tool_scope: Option<ToolScope>,
}

/// What a tool that changes nothing may do.
pub open spec fn reads() -> ToolCapabilities {
    ToolCapabilities { is_read_only: true, tool_scope: Some(ToolScope::Read) }
}

/// What a tool that changes something may do.
pub open spec fn writes() -> ToolCapabilities {
    ToolCapabilities { is_read_only: false, tool_scope: Some(ToolScope::Write) }
}

/// What a tool that changes nothing may do.
pub fn read_capabilities() -> (r: ToolCapabilities)
    ensures
        r == reads(),
{
    ToolCapabilities { is_read_only: true, tool_scope: Some(ToolScope::Read) }
}

/// What a tool that changes something may do.
pub fn write_capabilities() -> (r: ToolCapabilities)
    ensures
        r == writes(),
{
    ToolCapabilities { is_read_only: false, tool_scope: Some(ToolScope::Write) }
}

/// A tool as it is announced.
#[derive(Debug, Clone, Copy)]
pub struct ToolDescription {
    pub name: &'static str,
    pub description: &'static str,
}

} // verus!
