use crate::text::same_text;
use vstd::prelude::*;

verus! {

/// The kind of a comment in a pull request's thread.
#[derive(Clone, Copy, Debug, PartialEq, Eq, Structural)]
pub enum CommentType {
    /// Added as a result of a code change
    CodeChange,
    /// Generated by the provider itself
    System,
    /// Written by a person
    Text,
    /// Not given, or not known
    Unknown,
}

impl Default for CommentType {
    fn default() -> (comment_type: Self)
        ensures
            comment_type == CommentType::Unknown,
    {
        CommentType::Unknown
    }
}

impl CommentType {
    /// The word that the provider writes for the kind.
    pub open spec fn name(self) -> Seq<char> {
        match self {
            CommentType::CodeChange => "codeChange"@,
            CommentType::System => "system"@,
            CommentType::Text => "text"@,
            CommentType::Unknown => "unknown"@,
        }
    }

    /// The kind that the provider writes as `name`, if there is one.
    pub open spec fn named(name: Seq<char>) -> Option<CommentType> {
        if name == "codeChange"@ {
            Some(CommentType::CodeChange)
        } else if name == "system"@ {
            Some(CommentType::System)
        } else if name == "text"@ {
            Some(CommentType::Text)
        } else if name == "unknown"@ {
            Some(CommentType::Unknown)
        } else {
            None
        }
    }

    /// The word that the provider writes for the kind.
    pub fn wire_name(&self) -> (name: &'static str)
        ensures
            name@ == self.name(),
    {
        match self {
            CommentType::CodeChange => "codeChange",
            CommentType::System => "system",
            CommentType::Text => "text",
            CommentType::Unknown => "unknown",
        }
    }

    /// Reads the kind that the provider wrote. A word that stands for no
    /// kind gives `None`.
    pub fn from_wire_name(name: &str) -> (comment_type: Option<CommentType>)
        ensures
            comment_type == CommentType::named(name@),
    {
        if same_text(name, "codeChange") {
            Some(CommentType::CodeChange)
        } else if same_text(name, "system") {
            Some(CommentType::System)
        } else if same_text(name, "text") {
            Some(CommentType::Text)
        } else if same_text(name, "unknown") {
            Some(CommentType::Unknown)
        } else {
            None
        }
    }

    /// Every kind is read back from the word that is written for it.
    pub proof fn lemma_name_is_read_back(self)
        ensures
            CommentType::named(self.name()) == Some(self),
    {
        reveal_strlit("codeChange");
        reveal_strlit("system");
        reveal_strlit("text");
        reveal_strlit("unknown");
        assert("codeChange"@.len() != "system"@.len());
        assert("codeChange"@.len() != "text"@.len());
        assert("codeChange"@.len() != "unknown"@.len());
        assert("system"@.len() != "text"@.len());
        assert("system"@.len() != "unknown"@.len());
        assert("text"@.len() != "unknown"@.len());
    }
}

/// The state of a pull request's comment thread.
#[derive(Clone, Copy, Debug, PartialEq, Eq, Structural)]
pub enum PullRequestCommentThreadStatus {
    Active,
    ByDesign,
    Closed,
    Fixed,
    Pending,
    Unknown,
    WontFix,
}

impl Default for PullRequestCommentThreadStatus {
    fn default() -> (status: Self)
        ensures
            status == PullRequestCommentThreadStatus::Unknown,
    {
        PullRequestCommentThreadStatus::Unknown
    }
}

impl PullRequestCommentThreadStatus {
    /// Whether a thread in this state needs no further attention: it was
    /// closed, fixed, declined or is as designed.
    pub open spec fn is_closed(self) -> bool {
        self == PullRequestCommentThreadStatus::Closed || self
            == PullRequestCommentThreadStatus::Fixed || self
            == PullRequestCommentThreadStatus::WontFix || self
            == PullRequestCommentThreadStatus::ByDesign
    }

    /// Whether a thread in this state needs no further attention.
    pub fn closed(&self) -> (closed: bool)
        ensures
            closed == self.is_closed(),
    {
        match self {
            PullRequestCommentThreadStatus::Closed => true,
            PullRequestCommentThreadStatus::Fixed => true,
            PullRequestCommentThreadStatus::WontFix => true,
            PullRequestCommentThreadStatus::ByDesign => true,
            _ => false,
        }
    }

    /// The word that the provider writes for the state.
    pub open spec fn name(self) -> Seq<char> {
        match self {
            PullRequestCommentThreadStatus::Active => "active"@,
            PullRequestCommentThreadStatus::ByDesign => "byDesign"@,
            PullRequestCommentThreadStatus::Closed => "closed"@,
            PullRequestCommentThreadStatus::Fixed => "fixed"@,
            PullRequestCommentThreadStatus::Pending => "pending"@,
            PullRequestCommentThreadStatus::Unknown => "unknown"@,
            PullRequestCommentThreadStatus::WontFix => "wontFix"@,
        }
    }

    /// The state that the provider writes as `name`, if there is one.
    pub open spec fn named(name: Seq<char>) -> Option<PullRequestCommentThreadStatus> {
        if name == "active"@ {
            Some(PullRequestCommentThreadStatus::Active)
        } else if name == "byDesign"@ {
            Some(PullRequestCommentThreadStatus::ByDesign)
        } else if name == "closed"@ {
            Some(PullRequestCommentThreadStatus::Closed)
        } else if name == "fixed"@ {
            Some(PullRequestCommentThreadStatus::Fixed)
        } else if name == "pending"@ {
            Some(PullRequestCommentThreadStatus::Pending)
        } else if name == "unknown"@ {
            Some(PullRequestCommentThreadStatus::Unknown)
        } else if name == "wontFix"@ {
            Some(PullRequestCommentThreadStatus::WontFix)
        } else {
            None
        }
    }

    /// The word that the provider writes for the state.
    pub fn wire_name(&self) -> (name: &'static str)
        ensures
            name@ == self.name(),
    {
        match self {
            PullRequestCommentThreadStatus::Active => "active",
            PullRequestCommentThreadStatus::ByDesign => "byDesign",
            PullRequestCommentThreadStatus::Closed => "closed",
            PullRequestCommentThreadStatus::Fixed => "fixed",
            PullRequestCommentThreadStatus::Pending => "pending",
            PullRequestCommentThreadStatus::Unknown => "unknown",
            PullRequestCommentThreadStatus::WontFix => "wontFix",
        }
    }

    /// Reads the state that the provider wrote. A word that stands for no
    /// state gives `None`.
    pub fn from_wire_name(name: &str) -> (status: Option<PullRequestCommentThreadStatus>)
        ensures
            status == PullRequestCommentThreadStatus::named(name@),
    {
        if same_text(name, "active") {
            Some(PullRequestCommentThreadStatus::Active)
        } else if same_text(name, "byDesign") {
            Some(PullRequestCommentThreadStatus::ByDesign)
        } else if same_text(name, "closed") {
            Some(PullRequestCommentThreadStatus::Closed)
        } else if same_text(name, "fixed") {
            Some(PullRequestCommentThreadStatus::Fixed)
        } else if same_text(name, "pending") {
            Some(PullRequestCommentThreadStatus::Pending)
        } else if same_text(name, "unknown") {
            Some(PullRequestCommentThreadStatus::Unknown)
        } else if same_text(name, "wontFix") {
            Some(PullRequestCommentThreadStatus::WontFix)
        } else {
            None
        }
    }

    /// Every state is read back from the word that is written for it.
    pub proof fn lemma_name_is_read_back(self)
        ensures
            PullRequestCommentThreadStatus::named(self.name()) == Some(self),
    {
        reveal_strlit("active");
        reveal_strlit("byDesign");
        reveal_strlit("closed");
        reveal_strlit("fixed");
        reveal_strlit("pending");
        reveal_strlit("unknown");
        reveal_strlit("wontFix");
        assert("active"@[0] == 'a');
        assert("byDesign"@[0] == 'b');
        assert("closed"@[0] == 'c');
        assert("fixed"@[0] == 'f');
        assert("pending"@[0] == 'p');
        assert("unknown"@[0] == 'u');
        assert("wontFix"@[0] == 'w');
    }
}

} // verus!
