//! Recognises code-forge snippet links and `repo#id` shorthand references in chat text.
pub mod issue;
pub mod reaction;
pub mod snippet;
pub mod text;

pub use issue::{parse_issue_link, Issue, IssueType, Repo};
pub use reaction::{link, Reaction};
pub use snippet::{match_link_code_storage, CodeLinkType};
