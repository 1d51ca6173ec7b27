//! The closed sets of values that a record of the table can hold, and the
//! ways in which an operation on the table fails.

use crate::text::text_eq;
use vstd::prelude::*;

verus! {

/// Why an operation did not give what was asked.
#[derive(Copy, Clone, PartialEq, Eq, Debug, Structural)]
pub enum Failure {
    /// No record matches.
    NotFound,
    /// A record of that name is in the table already.
    Duplicate,
    /// Stored or received data does not decode.
    Invalid,
    /// The request cannot be carried out as it was made.
    InvalidArgument,
}

impl Failure {
    /// The name under which the failure is reported to an operator.
    pub open spec fn label(self) -> Seq<char> {
        match self {
            Failure::NotFound => "NotFound"@,
            Failure::Duplicate => "Duplicate"@,
            Failure::Invalid => "Invalid"@,
            Failure::InvalidArgument => "InvalidArgument"@,
        }
    }

    /// The name of the failure as text.
    pub fn name(self) -> (s: &'static str)
        ensures
            s@ == self.label(),
    {
        match self {
            Failure::NotFound => "NotFound",
            Failure::Duplicate => "Duplicate",
            Failure::Invalid => "Invalid",
            Failure::InvalidArgument => "InvalidArgument",
        }
    }
}

/// The place of a node in the network. The stored code is a field of two
/// bits, one for each of `Root` and `Org`; `Hybrid` has both.
#[derive(Copy, Clone, PartialEq, Eq, Debug, Structural)]
pub enum NodeRole {
    Undefined,
    Root,
    Org,
    Hybrid,
}

impl NodeRole {
    /// The number that stands for the role in storage.
    pub open spec fn code_of(self) -> int {
        match self {
            NodeRole::Undefined => 0,
            NodeRole::Root => 1,
            NodeRole::Org => 2,
            NodeRole::Hybrid => 3,
        }
    }

    /// The role that a stored number stands for, if any.
    pub open spec fn of_code(code: int) -> Option<NodeRole> {
        if code == 0 {
            Some(NodeRole::Undefined)
        } else if code == 1 {
            Some(NodeRole::Root)
        } else if code == 2 {
            Some(NodeRole::Org)
        } else if code == 3 {
            Some(NodeRole::Hybrid)
        } else {
            None
        }
    }

    /// The name of the variant, as it is written in code.
    pub open spec fn label(self) -> Seq<char> {
        match self {
            NodeRole::Undefined => "Undefined"@,
            NodeRole::Root => "Root"@,
            NodeRole::Org => "Org"@,
            NodeRole::Hybrid => "Hybrid"@,
        }
    }

    /// The name of the variant.
    pub fn label_text(self) -> (s: &'static str)
        ensures
            s@ == self.label(),
    {
        match self {
            NodeRole::Undefined => "Undefined",
            NodeRole::Root => "Root",
            NodeRole::Org => "Org",
            NodeRole::Hybrid => "Hybrid",
        }
    }

    /// The word for it in commands and reports.
    pub open spec fn word(self) -> Seq<char> {
        match self {
            NodeRole::Undefined => "undefined"@,
            NodeRole::Root => "root"@,
            NodeRole::Org => "org"@,
            NodeRole::Hybrid => "hybrid"@,
        }
    }

    /// The role that a word names, if any.
    pub open spec fn of_word(w: Seq<char>) -> Option<NodeRole> {
        if w == "undefined"@ {
            Some(NodeRole::Undefined)
        } else if w == "root"@ {
            Some(NodeRole::Root)
        } else if w == "org"@ {
            Some(NodeRole::Org)
        } else if w == "hybrid"@ {
            Some(NodeRole::Hybrid)
        } else {
            None
        }
    }

    /// The number that is stored for it.
    pub fn code(self) -> (c: i64)
        ensures
            c == self.code_of(),
    {
        match self {
            NodeRole::Undefined => 0,
            NodeRole::Root => 1,
            NodeRole::Org => 2,
            NodeRole::Hybrid => 3,
        }
    }

    /// Reads it from the number that is stored for it.
    pub fn from_code(code: i64) -> (r: Option<NodeRole>)
        ensures
            r == Self::of_code(code as int),
    {
        if code == 0 {
            Some(NodeRole::Undefined)
        } else if code == 1 {
            Some(NodeRole::Root)
        } else if code == 2 {
            Some(NodeRole::Org)
        } else if code == 3 {
            Some(NodeRole::Hybrid)
        } else {
            None
        }
    }

    /// The word for it.
    pub fn name(self) -> (s: &'static str)
        ensures
            s@ == self.word(),
    {
        match self {
            NodeRole::Undefined => "undefined",
            NodeRole::Root => "root",
            NodeRole::Org => "org",
            NodeRole::Hybrid => "hybrid",
        }
    }

    /// Reads it from its word.
    pub fn from_str(s: &str) -> (r: Option<NodeRole>)
        ensures
            r == Self::of_word(s@),
    {
        if text_eq(s, "undefined") {
            Some(NodeRole::Undefined)
        } else if text_eq(s, "root") {
            Some(NodeRole::Root)
        } else if text_eq(s, "org") {
            Some(NodeRole::Org)
        } else if text_eq(s, "hybrid") {
            Some(NodeRole::Hybrid)
        } else {
            None
        }
    }

    /// Every role is found again from its code and from its word.
    pub proof fn lemma_round_trip(self)
        ensures
            Self::of_code(self.code_of()) == Some(self),
            Self::of_word(self.word()) == Some(self),
    {
        reveal_strlit("undefined");
        reveal_strlit("root");
        reveal_strlit("org");
        reveal_strlit("hybrid");
        assert("root"@.len() == 4 && "org"@.len() == 3 && "hybrid"@.len() == 6 && "undefined"@.len()
            == 9);
    }
}

/// Whether a node is in service.
#[derive(Copy, Clone, PartialEq, Eq, Debug, Structural)]
pub enum NodeState {
    Disabled,
    Enabled,
    Unresponsive,
    Unspecified,
}

impl NodeState {
    /// The number that stands for the state in storage.
    pub open spec fn code_of(self) -> int {
        match self {
            NodeState::Disabled => 0,
            NodeState::Enabled => 1,
            NodeState::Unresponsive => 2,
            NodeState::Unspecified => 3,
        }
    }

    /// The state that a stored number stands for, if any.
    pub open spec fn of_code(code: int) -> Option<NodeState> {
        if code == 0 {
            Some(NodeState::Disabled)
        } else if code == 1 {
            Some(NodeState::Enabled)
        } else if code == 2 {
            Some(NodeState::Unresponsive)
        } else if code == 3 {
            Some(NodeState::Unspecified)
        } else {
            None
        }
    }

    /// The name of the variant, as it is written in code.
    pub open spec fn label(self) -> Seq<char> {
        match self {
            NodeState::Disabled => "Disabled"@,
            NodeState::Enabled => "Enabled"@,
            NodeState::Unresponsive => "Unresponsive"@,
            NodeState::Unspecified => "Unspecified"@,
        }
    }

    /// The name of the variant.
    pub fn label_text(self) -> (s: &'static str)
        ensures
            s@ == self.label(),
    {
        match self {
            NodeState::Disabled => "Disabled",
            NodeState::Enabled => "Enabled",
            NodeState::Unresponsive => "Unresponsive",
            NodeState::Unspecified => "Unspecified",
        }
    }

    /// The word for it in commands and reports.
    pub open spec fn word(self) -> Seq<char> {
        match self {
            NodeState::Disabled => "disabled"@,
            NodeState::Enabled => "enabled"@,
            NodeState::Unresponsive => "unresponsive"@,
            NodeState::Unspecified => "unspecified"@,
        }
    }

    /// The state that a word names, if any.
    pub open spec fn of_word(w: Seq<char>) -> Option<NodeState> {
        if w == "disabled"@ {
            Some(NodeState::Disabled)
        } else if w == "enabled"@ {
            Some(NodeState::Enabled)
        } else if w == "unresponsive"@ {
            Some(NodeState::Unresponsive)
        } else if w == "unspecified"@ {
            Some(NodeState::Unspecified)
        } else {
            None
        }
    }

    /// The number that is stored for it.
    pub fn code(self) -> (c: i64)
        ensures
            c == self.code_of(),
    {
        match self {
            NodeState::Disabled => 0,
            NodeState::Enabled => 1,
            NodeState::Unresponsive => 2,
            NodeState::Unspecified => 3,
        }
    }

    /// Reads it from the number that is stored for it.
    pub fn from_code(code: i64) -> (r: Option<NodeState>)
        ensures
            r == Self::of_code(code as int),
    {
        if code == 0 {
            Some(NodeState::Disabled)
        } else if code == 1 {
            Some(NodeState::Enabled)
        } else if code == 2 {
            Some(NodeState::Unresponsive)
        } else if code == 3 {
            Some(NodeState::Unspecified)
        } else {
            None
        }
    }

    /// The word for it.
    pub fn name(self) -> (s: &'static str)
        ensures
            s@ == self.word(),
    {
        match self {
            NodeState::Disabled => "disabled",
            NodeState::Enabled => "enabled",
            NodeState::Unresponsive => "unresponsive",
            NodeState::Unspecified => "unspecified",
        }
    }

    /// Reads it from its word.
    pub fn from_str(s: &str) -> (r: Option<NodeState>)
        ensures
            r == Self::of_word(s@),
    {
        if text_eq(s, "disabled") {
            Some(NodeState::Disabled)
        } else if text_eq(s, "enabled") {
            Some(NodeState::Enabled)
        } else if text_eq(s, "unresponsive") {
            Some(NodeState::Unresponsive)
        } else if text_eq(s, "unspecified") {
            Some(NodeState::Unspecified)
        } else {
            None
        }
    }

    /// Every state is found again from its code and from its word.
    pub proof fn lemma_round_trip(self)
        ensures
            Self::of_code(self.code_of()) == Some(self),
            Self::of_word(self.word()) == Some(self),
    {
        reveal_strlit("disabled");
        reveal_strlit("enabled");
        reveal_strlit("unresponsive");
        reveal_strlit("unspecified");
        assert("disabled"@.len() == 8 && "enabled"@.len() == 7 && "unresponsive"@.len() == 12);
        assert("unspecified"@.len() == 11);
    }
}

/// The framing in which a node takes requests, and with it the port on
/// which it is reached.
#[derive(Copy, Clone, PartialEq, Eq, Debug, Structural)]
pub enum NodeService {
    Undefined,
    Dvsp,
    Http,
}

impl NodeService {
    /// The number that stands for the framing in storage.
    pub open spec fn code_of(self) -> int {
        match self {
            NodeService::Undefined => 0,
            NodeService::Dvsp => 1,
            NodeService::Http => 2,
        }
    }

    /// The framing that a stored number stands for, if any.
    pub open spec fn of_code(code: int) -> Option<NodeService> {
        if code == 0 {
            Some(NodeService::Undefined)
        } else if code == 1 {
            Some(NodeService::Dvsp)
        } else if code == 2 {
            Some(NodeService::Http)
        } else {
            None
        }
    }

    /// The name of the variant, as it is written in code.
    pub open spec fn label(self) -> Seq<char> {
        match self {
            NodeService::Undefined => "Undefined"@,
            NodeService::Dvsp => "Dvsp"@,
            NodeService::Http => "Http"@,
        }
    }

    /// The name of the variant.
    pub fn label_text(self) -> (s: &'static str)
        ensures
            s@ == self.label(),
    {
        match self {
            NodeService::Undefined => "Undefined",
            NodeService::Dvsp => "Dvsp",
            NodeService::Http => "Http",
        }
    }

    /// The word for it in commands and reports.
    pub open spec fn word(self) -> Seq<char> {
        match self {
            NodeService::Undefined => "undefined"@,
            NodeService::Dvsp => "dvsp"@,
            NodeService::Http => "http"@,
        }
    }

    /// The framing that a word names, if any.
    pub open spec fn of_word(w: Seq<char>) -> Option<NodeService> {
        if w == "undefined"@ {
            Some(NodeService::Undefined)
        } else if w == "dvsp"@ {
            Some(NodeService::Dvsp)
        } else if w == "http"@ {
            Some(NodeService::Http)
        } else {
            None
        }
    }

    /// The number that is stored for it.
    pub fn code(self) -> (c: i64)
        ensures
            c == self.code_of(),
    {
        match self {
            NodeService::Undefined => 0,
            NodeService::Dvsp => 1,
            NodeService::Http => 2,
        }
    }

    /// Reads it from the number that is stored for it.
    pub fn from_code(code: i64) -> (r: Option<NodeService>)
        ensures
            r == Self::of_code(code as int),
    {
        if code == 0 {
            Some(NodeService::Undefined)
        } else if code == 1 {
            Some(NodeService::Dvsp)
        } else if code == 2 {
            Some(NodeService::Http)
        } else {
            None
        }
    }

    /// The word for it.
    pub fn name(self) -> (s: &'static str)
        ensures
            s@ == self.word(),
    {
        match self {
            NodeService::Undefined => "undefined",
            NodeService::Dvsp => "dvsp",
            NodeService::Http => "http",
        }
    }

    /// Reads it from its word.
    pub fn from_str(s: &str) -> (r: Option<NodeService>)
        ensures
            r == Self::of_word(s@),
    {
        if text_eq(s, "undefined") {
            Some(NodeService::Undefined)
        } else if text_eq(s, "dvsp") {
            Some(NodeService::Dvsp)
        } else if text_eq(s, "http") {
            Some(NodeService::Http)
        } else {
            None
        }
    }

    /// Every framing is found again from its code and from its word.
    pub proof fn lemma_round_trip(self)
        ensures
            Self::of_code(self.code_of()) == Some(self),
            Self::of_word(self.word()) == Some(self),
    {
        reveal_strlit("undefined");
        reveal_strlit("dvsp");
        reveal_strlit("http");
        assert("dvsp"@.len() == 4 && "http"@.len() == 4 && "undefined"@.len() == 9);
        assert("dvsp"@[0] == 'd' && "http"@[0] == 'h');
    }
}

} // verus!
