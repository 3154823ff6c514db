//! What the bot does about one chat message: both matchers run on every message.
use vstd::prelude::*;
use vstd::string::StringExecFns;
use crate::issue::{issue_view, parse_issue_link, reference_of, Issue, IssueType};
use crate::snippet::{code_of, contains_shape, match_link_code_storage, snippet_kind, CodeLinkType};

verus! {

/// The outcome of examining one message.
pub struct Reaction {
    /// The reply to post in the message's channel.
    pub reply: Option<String>,
    /// The reference to report.
    pub reference: Option<Issue>,
}

pub open spec fn string_view(s: Option<String>) -> Option<Seq<char>> {
    match s {
        Some(x) => Some(x@),
        None => None,
    }
}

/// The reply that a snippet link of the given forge gets.
pub open spec fn reply_for(kind: Option<CodeLinkType>) -> Option<Seq<char>> {
    match kind {
        Some(k) => Some("Bonjour "@ + code_of(k)),
        None => None,
    }
}

/// Runs both matchers on `text`: a snippet link earns a reply naming its forge, and the
/// shorthand reference, if any, is reported whether or not a link was found.
pub fn link(text: &str) -> (r: Reaction)
    ensures
        string_view(r.reply) == reply_for(snippet_kind(text@)),
        issue_view(r.reference) == reference_of(text@),
{
    let reply = match match_link_code_storage(text) {
        Some(kind) => {
            let mut s = String::from_str("Bonjour ");
            s.append(kind.code());
            Some(s)
        },
        None => None,
    };
    let reference = parse_issue_link(text);
    Reaction { reply, reference }
}

pub open spec fn noun_of(k: IssueType) -> Seq<char> {
    match k {
        IssueType::Issue => "an issue"@,
        IssueType::PR => "a pull-request"@,
        IssueType::Discussion => "a Discussion"@,
    }
}

impl IssueType {
    /// The item type with its article, as a report names it.
    pub fn noun(&self) -> (r: &'static str)
        ensures
            r@ == noun_of(*self),
    {
        match self {
            IssueType::Issue => "an issue",
            IssueType::PR => "a pull-request",
            IssueType::Discussion => "a Discussion",
        }
    }
}

/// Text that holds none of the four link shapes gets no snippet classification.
pub proof fn lemma_no_shape_no_link(t: Seq<char>)
    requires
        !contains_shape(t, CodeLinkType::GitHub),
        !contains_shape(t, CodeLinkType::GitHubGist),
        !contains_shape(t, CodeLinkType::GitLab),
        !contains_shape(t, CodeLinkType::BitBucket),
    ensures
        snippet_kind(t) is None,
        reply_for(snippet_kind(t)) is None,
{
}

/// Both matchers are functions of the text alone: two calls on equal text agree.
pub proof fn lemma_same_text_same_result(t1: Seq<char>, t2: Seq<char>)
    requires
        t1 == t2,
    ensures
        snippet_kind(t1) == snippet_kind(t2),
        reference_of(t1) == reference_of(t2),
        reply_for(snippet_kind(t1)) == reply_for(snippet_kind(t2)),
{
}

/// Neither matcher suppresses the other: text that holds both a snippet link and a
/// reference gets both the reply and the reference.
pub proof fn lemma_matchers_independent(t: Seq<char>)
    requires
        snippet_kind(t) is Some,
        reference_of(t) is Some,
    ensures
        reply_for(snippet_kind(t)) == Some("Bonjour "@ + code_of(snippet_kind(t)->0)),
        reference_of(t) is Some,
{
}

} // verus!
