use bevy_bot::{link, match_link_code_storage, parse_issue_link, CodeLinkType, Issue, IssueType, Repo};
use regex::Regex;

fn issue(id: u64, repo: Repo, author: &str, issue_type: IssueType) -> Issue {
    Issue { id, repo, author: author.to_string(), issue_type }
}

#[test]
fn parse_gh_link() {
    assert_eq!(
        match_link_code_storage("https://github.com/rust-lang/regex/blob/master/PERFORMANCE.md"),
        Some(CodeLinkType::GitHub)
    );
}

#[test]
fn parse_gh_gist_link() {
    assert_eq!(
        match_link_code_storage("https://gist.github.com/BlackPhlox/ed97c5a6b3793ec3f43d59e65acd54b8"),
        Some(CodeLinkType::GitHubGist)
    );
}

#[test]
fn gist_link_with_short_id() {
    assert_eq!(
        match_link_code_storage("https://gist.github.com/user/abc123"),
        Some(CodeLinkType::GitHubGist)
    );
}

#[test]
fn gitlab_blob_link() {
    assert_eq!(
        match_link_code_storage("https://gitlab.com/group/proj/-/blob/src/lib"),
        Some(CodeLinkType::GitLab)
    );
}

#[test]
fn bitbucket_src_link() {
    assert_eq!(
        match_link_code_storage("https://bitbucket.org/owner/repo/src/abcdef0"),
        Some(CodeLinkType::BitBucket)
    );
}

#[test]
fn parse_gitlab_link() {
    assert_eq!(match_link_code_storage("https://gitlab.com/vismut-org/vismut"), None);
}

#[test]
fn parse_bitbucket_link() {
    assert_eq!(match_link_code_storage("https://bitbucket.org/atlassian/pipelines-examples-rust"), None);
}

#[test]
fn project_pages_are_not_snippets() {
    assert_eq!(match_link_code_storage("https://github.com/rust-lang/regex"), None);
}

#[test]
fn names_may_hold_unicode_word_characters() {
    assert_eq!(match_link_code_storage("https://github.com/a/\u{e9}/blob/"), Some(CodeLinkType::GitHub));
    assert_eq!(
        match_link_code_storage("https://gitlab.com/gr\u{fc}ppe/projekt/-/blob/x"),
        Some(CodeLinkType::GitLab)
    );
    assert_eq!(
        match_link_code_storage("https://bitbucket.org/o/na\u{ef}ve/src/a1"),
        Some(CodeLinkType::BitBucket)
    );
    assert_eq!(match_link_code_storage("https://github.com/\u{e9}/a/blob/"), None);
    assert_eq!(match_link_code_storage("https://gist.github.com/u/\u{e9}"), None);
}

#[test]
fn plain_text_is_no_snippet() {
    assert_eq!(match_link_code_storage(""), None);
    assert_eq!(match_link_code_storage("hello there, see bevy#12"), None);
    assert_eq!(match_link_code_storage("http://github.com/a/b/blob/main"), None);
    assert_eq!(match_link_code_storage("https://github.com//b/blob/main"), None);
    assert_eq!(match_link_code_storage("https://gitlab.com/a/b/-/blob/#x"), None);
    assert_eq!(match_link_code_storage("https://bitbucket.org/a/b/src/"), None);
}

#[test]
fn link_inside_a_sentence() {
    assert_eq!(
        match_link_code_storage("look at https://github.com/bevyengine/bevy/blob/main/README.md please"),
        Some(CodeLinkType::GitHub)
    );
}

#[test]
fn github_wins_over_later_forges() {
    let text = "https://bitbucket.org/o/r/src/abc https://gist.github.com/u/1 https://github.com/o/r/blob/x";
    assert_eq!(match_link_code_storage(text), Some(CodeLinkType::GitHub));
    let text = "https://bitbucket.org/o/r/src/abc https://gist.github.com/u/1";
    assert_eq!(match_link_code_storage(text), Some(CodeLinkType::GitHubGist));
    let text = "https://bitbucket.org/o/r/src/abc https://gitlab.com/g/p/-/blob/a";
    assert_eq!(match_link_code_storage(text), Some(CodeLinkType::GitLab));
}

#[test]
fn codes_name_the_forge() {
    assert_eq!(CodeLinkType::GitHub.code(), "GH");
    assert_eq!(CodeLinkType::GitHubGist.code(), "GHG");
    assert_eq!(CodeLinkType::GitLab.code(), "GL");
    assert_eq!(CodeLinkType::BitBucket.code(), "BB");
}

#[test]
fn parse_bevy_issue() {
    assert_eq!(
        parse_issue_link("bevy#123"),
        Some(Issue {
            id: 123,
            repo: Repo::Bevy,
            author: "cart".to_string(),
            issue_type: IssueType::Issue
        })
    );
}

#[test]
fn parse_false_positive_fails() {
    assert_eq!(parse_issue_link("@bevy#1234"), None);
}

#[test]
fn parse_issue_fallback() {
    assert_eq!(
        parse_issue_link("BlackPhlox/bevy_config_cam#1"),
        Some(Issue {
            id: 1,
            repo: Repo::Other("bevy_config_cam".to_string()),
            author: "BlackPhlox".to_string(),
            issue_type: IssueType::Issue
        })
    );
}

#[test]
fn owner_prefix_falls_back_to_other() {
    assert_eq!(
        parse_issue_link("someuser/sometool#1"),
        Some(issue(1, Repo::Other("sometool".to_string()), "BlackPhlox", IssueType::Issue))
    );
}

#[test]
fn unknown_alias_without_owner_is_none() {
    assert_eq!(parse_issue_link("sometool#1"), None);
    assert_eq!(parse_issue_link("/sometool#1"), None);
}

#[test]
fn aliases_resolve_with_their_kind() {
    assert_eq!(parse_issue_link("b#7"), Some(issue(7, Repo::Bevy, "cart", IssueType::Issue)));
    assert_eq!(parse_issue_link("web#123"), Some(issue(123, Repo::BevyWeb, "cart", IssueType::Discussion)));
    assert_eq!(
        parse_issue_link("bevy-website#5"),
        Some(issue(5, Repo::BevyWeb, "cart", IssueType::Discussion))
    );
    assert_eq!(parse_issue_link("website#6"), Some(issue(6, Repo::BevyWeb, "cart", IssueType::Discussion)));
    assert_eq!(parse_issue_link("bot#9"), Some(issue(9, Repo::BevyBot, "cart", IssueType::PR)));
    assert_eq!(parse_issue_link("bevy-bot#123"), Some(issue(123, Repo::BevyBot, "cart", IssueType::PR)));
    assert_eq!(parse_issue_link("/bevy#4"), Some(issue(4, Repo::Bevy, "cart", IssueType::Issue)));
    assert_eq!(parse_issue_link("Bevy#4"), None);
}

#[test]
fn parse_bevy_web_issue() {
    assert_eq!(
        parse_issue_link("web#123"),
        Some(Issue {
            id: 123,
            repo: Repo::BevyWeb,
            author: "cart".to_string(),
            issue_type: IssueType::Discussion
        })
    );
}

#[test]
fn parse_bevy_bot_issue() {
    assert_eq!(
        parse_issue_link("bot#9"),
        Some(Issue {
            id: 9,
            repo: Repo::BevyBot,
            author: "cart".to_string(),
            issue_type: IssueType::PR
        })
    );
}

#[test]
fn parse_bevy_pr() {
    assert_eq!(
        parse_issue_link("bevy#123"),
        Some(Issue {
            id: 123,
            repo: Repo::Bevy,
            author: "cart".to_string(),
            issue_type: IssueType::Issue
        })
    );
}

#[test]
fn parse_bevy_discussion() {
    assert_eq!(
        parse_issue_link("bot#123"),
        Some(Issue {
            id: 123,
            repo: Repo::BevyBot,
            author: "cart".to_string(),
            issue_type: IssueType::PR
        })
    );
}

#[test]
fn unicode_owner_prefix() {
    assert_eq!(
        parse_issue_link("h\u{e9}llo/tool#1"),
        Some(issue(1, Repo::Other("tool".to_string()), "BlackPhlox", IssueType::Issue))
    );
    assert_eq!(
        parse_issue_link("\u{65e5}\u{672c}/bevy#3"),
        Some(issue(3, Repo::Bevy, "cart", IssueType::Issue))
    );
}

#[test]
fn owner_prefix_before_alias_keeps_alias() {
    assert_eq!(parse_issue_link("bevyengine/bevy#10"), Some(issue(10, Repo::Bevy, "cart", IssueType::Issue)));
    assert_eq!(parse_issue_link("me/@bevy#10"), None);
}

#[test]
fn reference_inside_a_sentence() {
    assert_eq!(
        parse_issue_link("have a look at bevy#42 tomorrow"),
        Some(issue(42, Repo::Bevy, "cart", IssueType::Issue))
    );
    assert_eq!(
        parse_issue_link("x\u{3000}bevy#42"),
        Some(issue(42, Repo::Bevy, "cart", IssueType::Issue))
    );
}

#[test]
fn first_candidate_decides() {
    assert_eq!(parse_issue_link("foo#1 bevy#2"), None);
    assert_eq!(parse_issue_link("#1 bevy#2"), Some(issue(2, Repo::Bevy, "cart", IssueType::Issue)));
}

#[test]
fn repo_token_runs_to_the_last_mark() {
    assert_eq!(
        parse_issue_link("a/b#1#2"),
        Some(issue(2, Repo::Other("b#1".to_string()), "BlackPhlox", IssueType::Issue))
    );
    assert_eq!(parse_issue_link("bevy#12x"), Some(issue(12, Repo::Bevy, "cart", IssueType::Issue)));
}

#[test]
fn id_needs_digits() {
    assert_eq!(parse_issue_link("bevy#"), None);
    assert_eq!(parse_issue_link("bevy#x"), None);
    assert_eq!(parse_issue_link(""), None);
    assert_eq!(parse_issue_link("#12"), None);
}

#[test]
fn id_range_is_u64() {
    assert_eq!(
        parse_issue_link("bevy#18446744073709551615"),
        Some(issue(u64::MAX, Repo::Bevy, "cart", IssueType::Issue))
    );
    assert_eq!(parse_issue_link("bevy#18446744073709551616"), None);
    assert_eq!(parse_issue_link("bevy#007"), Some(issue(7, Repo::Bevy, "cart", IssueType::Issue)));
}

#[test]
fn repeated_calls_agree() {
    for text in ["bevy#123", "@bevy#1", "someuser/sometool#1", "https://gist.github.com/user/abc123", ""] {
        assert_eq!(parse_issue_link(text), parse_issue_link(text));
        assert_eq!(match_link_code_storage(text), match_link_code_storage(text));
    }
}

#[test]
fn both_matchers_report() {
    let r = link("https://github.com/rust-lang/regex/blob/master/README.md bevy#123");
    assert_eq!(r.reply, Some("Bonjour GH".to_string()));
    assert_eq!(r.reference, Some(issue(123, Repo::Bevy, "cart", IssueType::Issue)));
    let r = link("nothing here");
    assert_eq!(r.reply, None);
    assert_eq!(r.reference, None);
    let r = link("https://bitbucket.org/owner/repo/src/abcdef0");
    assert_eq!(r.reply, Some("Bonjour BB".to_string()));
}

#[test]
fn nouns_name_the_item_type() {
    assert_eq!(IssueType::Issue.noun(), "an issue");
    assert_eq!(IssueType::PR.noun(), "a pull-request");
    assert_eq!(IssueType::Discussion.noun(), "a Discussion");
}

const SAMPLES: [&str; 20] = [
    "https://github.com/a/\u{e9}/blob/",
    "https://github.com/\u{e9}/a/blob/",
    "https://gitlab.com/gr\u{fc}ppe/projekt/-/blob/x",
    "https://bitbucket.org/o/na\u{ef}ve/src/a1",
    "https://gist.github.com/u/\u{e9}",
    "https://github.com/o/r\u{301}_x/blob/",
    "https://github.com/rust-lang/regex/blob/master/PERFORMANCE.md",
    "https://github.com/rust-lang/regex",
    "https://gist.github.com/user/abc123",
    "https://gist.github.com/user/",
    "https://gitlab.com/group/proj/-/blob/src/lib",
    "https://gitlab.com/group/proj/-/blob/#",
    "https://bitbucket.org/owner/repo/src/abcdef0",
    "https://bitbucket.org/owner/repo/src/",
    "see https://github.com/a-b/c.d_e/blob/x and more",
    "https://github.com/a/b/blob/",
    "https://github.com/a/b/c/blob/x",
    "https://gitlab.com/a.b/c-d/-/blob/>",
    "bevy#1 https://gist.github.com/x/y",
    "",
];

#[test]
fn classifier_agrees_with_regular_expressions() {
    let shapes = [
        (r"https://github\.com/[a-zA-Z0-9-]+/[\w.-]+/blob/", CodeLinkType::GitHub),
        (r"https://gist\.github\.com/[a-zA-Z0-9-]+/[a-zA-Z0-9]+", CodeLinkType::GitHubGist),
        (r"https://gitlab\.com/[\w.-]+/[\w.-]+/\-/blob/[^#>]+", CodeLinkType::GitLab),
        (r"https://bitbucket\.org/[a-zA-Z0-9-]+/[\w.-]+/src/[0-9a-zA-Z]+", CodeLinkType::BitBucket),
    ];
    let shapes: Vec<(Regex, CodeLinkType)> =
        shapes.iter().map(|(p, k)| (Regex::new(p).unwrap(), *k)).collect();
    for text in SAMPLES {
        let expected = shapes.iter().find(|(re, _)| re.is_match(text)).map(|(_, k)| *k);
        assert_eq!(match_link_code_storage(text), expected, "{}", text);
    }
}

#[test]
fn resolver_agrees_with_regular_expression() {
    let re = Regex::new(r"((?P<user>\w+)*/)?(?P<at>@)?(?P<repo>[^\s]+)#(?P<id>\d+)").unwrap();
    let texts = [
        "bevy#123",
        "@bevy#1234",
        "someuser/sometool#1",
        "sometool#1",
        "a/b#1#2",
        "x y/z#3 w",
        "/bevy#4",
        "me/@bevy#10",
        "foo#1 bevy#2",
        "a-b/c#5",
        "web#12x",
        "h\u{e9}llo/tool#1",
        "\u{65e5}\u{672c}/bevy#3",
        "a\u{301}b/x#4",
        "caf\u{e9}-bar/x#5",
        "\u{e9}#6 bevy#7",
    ];
    for text in texts {
        let found = parse_issue_link(text);
        match re.captures(text) {
            None => assert_eq!(found, None, "{}", text),
            Some(c) => {
                if c.name("at").is_some() {
                    assert_eq!(found, None, "{}", text);
                    continue;
                }
                let repo = c.name("repo").unwrap().as_str();
                let id: u64 = c.name("id").unwrap().as_str().parse().unwrap();
                let known = matches!(repo, "bevy" | "b" | "bevy-website" | "website" | "web" | "bevy-bot" | "bot");
                match found {
                    Some(i) => {
                        assert_eq!(i.id, id, "{}", text);
                        if !known {
                            assert_eq!(i.repo, Repo::Other(repo.to_string()), "{}", text);
                            assert!(c.name("user").is_some(), "{}", text);
                        }
                    }
                    None => assert!(!known && c.name("user").is_none(), "{}", text),
                }
            }
        }
    }
}
