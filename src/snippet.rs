//! Classification of links to hosted source files on the well-known code forges.
use vstd::prelude::*;
use crate::text::{all_in, chars_of, class_contains, has_lit_at, in_class, lit_at, scan_run, slash_is_not_word,
    CharClass};
use vstd::string::StrSliceExecFns;

verus! {

/// The forge whose file or snippet view a link points at.
#[derive(Clone, Copy, PartialEq, Eq, Debug)]
pub enum CodeLinkType {
    GitHub,
    GitHubGist,
    GitLab,
    BitBucket,
}

/// `t[i..k)` reads `head`, one or more characters of `c1`, a `/`, then one or more of `c2`,
/// with the `/` at `j`.
pub open spec fn two_part_split(
    t: Seq<char>,
    i: int,
    head: Seq<char>,
    c1: CharClass,
    c2: CharClass,
    j: int,
    k: int,
) -> bool {
    &&& lit_at(t, i, head)
    &&& i + head.len() < j
    &&& all_in(t, i + head.len(), j, c1)
    &&& t[j] == '/'
    &&& j + 1 < k <= t.len()
    &&& all_in(t, j + 1, k, c2)
}

/// `t[i..k)` reads `head`, one or more characters of `c1`, a `/`, then one or more of `c2`.
pub open spec fn two_part(
    t: Seq<char>,
    i: int,
    head: Seq<char>,
    c1: CharClass,
    c2: CharClass,
    k: int,
) -> bool {
    exists|j: int| two_part_split(t, i, head, c1, c2, j, k)
}

/// `t` holds `lit` at `k`, and right after it a character of class `c`.
pub open spec fn lit_then(t: Seq<char>, k: int, lit: Seq<char>, c: CharClass) -> bool {
    lit_at(t, k, lit) && k + lit.len() < t.len() && in_class(c, t[k + lit.len()])
}

/// A link of the given forge starts at position `i` of `t`:
/// - `https://github.com/<owner>/<repo>/blob/`
/// - `https://gist.github.com/<owner>/<gist id>`
/// - `https://gitlab.com/<group>/<project>/-/blob/<path>`
/// - `https://bitbucket.org/<owner>/<repo>/src/<ref>`
pub open spec fn shape_at(t: Seq<char>, i: int, kind: CodeLinkType) -> bool {
    match kind {
        CodeLinkType::GitHub => exists|k: int|
            two_part(t, i, "https://github.com/"@, CharClass::Owner, CharClass::Name, k)
                && lit_at(t, k, "/blob/"@),
        CodeLinkType::GitHubGist => exists|k: int|
            two_part(t, i, "https://gist.github.com/"@, CharClass::Owner, CharClass::Alnum, k),
        CodeLinkType::GitLab => exists|k: int|
            two_part(t, i, "https://gitlab.com/"@, CharClass::Name, CharClass::Name, k)
                && lit_then(t, k, "/-/blob/"@, CharClass::PathChar),
        CodeLinkType::BitBucket => exists|k: int|
            two_part(t, i, "https://bitbucket.org/"@, CharClass::Owner, CharClass::Name, k)
                && lit_then(t, k, "/src/"@, CharClass::Alnum),
    }
}

/// A link of the given forge occurs somewhere in `t`.
pub open spec fn contains_shape(t: Seq<char>, kind: CodeLinkType) -> bool {
    exists|i: int| shape_at(t, i, kind)
}

/// The forge of the first shape, in the order GitHub, gist, GitLab, BitBucket, that `t` holds.
pub open spec fn snippet_kind(t: Seq<char>) -> Option<CodeLinkType> {
    if contains_shape(t, CodeLinkType::GitHub) {
        Some(CodeLinkType::GitHub)
    } else if contains_shape(t, CodeLinkType::GitHubGist) {
        Some(CodeLinkType::GitHubGist)
    } else if contains_shape(t, CodeLinkType::GitLab) {
        Some(CodeLinkType::GitLab)
    } else if contains_shape(t, CodeLinkType::BitBucket) {
        Some(CodeLinkType::BitBucket)
    } else {
        None
    }
}

/// Where the longest `head c1+ / c2+` at `i` ends; every other end of such a stretch lies
/// inside its last run.
fn two_part_end(t: &Vec<char>, i: usize, head: &str, c1: CharClass, c2: CharClass) -> (r: Option<
    usize,
>)
    requires
        !in_class(c1, '/'),
    ensures
        r is None ==> forall|k: int| !two_part(t@, i as int, head@, c1, c2, k),
        r matches Some(k) ==> two_part(t@, i as int, head@, c1, c2, k as int),
        r matches Some(k) ==> forall|k2: int|
            #[trigger] two_part(t@, i as int, head@, c1, c2, k2) ==> k2 <= k && (k2 < k
                ==> in_class(c2, t@[k2])),
{
    if !has_lit_at(t, i, head) {
        return None;
    }
    let n = head.unicode_len();
    assert(i + n <= t.len());
    let start = i + n;
    let j = scan_run(t, start, c1);
    assert forall|k2: int, j2: int| two_part_split(t@, i as int, head@, c1, c2, j2, k2) implies j2
        == j by {
        if j2 < j {
            assert(in_class(c1, t@[j2]));
        }
        if j < j2 {
            assert(in_class(c1, t@[j as int]));
        }
    }
    if j == start || j >= t.len() || t[j] != '/' {
        return None;
    }
    let k = scan_run(t, j + 1, c2);
    if k == j + 1 {
        return None;
    }
    assert(two_part_split(t@, i as int, head@, c1, c2, j as int, k as int));
    assert forall|k2: int| #[trigger] two_part(t@, i as int, head@, c1, c2, k2) implies k2 <= k && (
    k2 < k ==> in_class(c2, t@[k2])) by {
        let j2 = choose|j2: int| two_part_split(t@, i as int, head@, c1, c2, j2, k2);
        assert(j2 == j);
        if k < k2 {
            assert(in_class(c2, t@[k as int]));
        }
    }
    Some(k)
}

/// `t` holds `lit` at `k`, followed by a character of class `c`.
fn has_lit_then(t: &Vec<char>, k: usize, lit: &str, c: CharClass) -> (r: bool)
    ensures
        r == lit_then(t@, k as int, lit@, c),
{
    if !has_lit_at(t, k, lit) {
        return false;
    }
    let n = lit.unicode_len();
    assert(k + n <= t.len());
    k + n < t.len() && class_contains(c, t[k + n])
}

/// Whether a link of forge `kind` starts at position `i`.
fn link_at(t: &Vec<char>, i: usize, kind: CodeLinkType) -> (r: bool)
    ensures
        r == shape_at(t@, i as int, kind),
{
    slash_is_not_word();
    proof {
        reveal_strlit("/blob/");
        reveal_strlit("/-/blob/");
        reveal_strlit("/src/");
    }
    match kind {
        CodeLinkType::GitHub => {
            let head = "https://github.com/";
            match two_part_end(t, i, head, CharClass::Owner, CharClass::Name) {
                None => false,
                Some(k) => {
                    let r = has_lit_at(t, k, "/blob/");
                    assert(r == shape_at(t@, i as int, kind)) by {
                        if !r {
                            assert forall|k2: int|
                                two_part(t@, i as int, head@, CharClass::Owner, CharClass::Name, k2)
                                implies !lit_at(t@, k2, "/blob/"@) by {
                                if k2 < k && lit_at(t@, k2, "/blob/"@) {
                                    assert(t@.subrange(k2, k2 + 6)[0] == '/');
                                }
                            }
                        }
                    }
                    r
                },
            }
        },
        CodeLinkType::GitHubGist => {
            let head = "https://gist.github.com/";
            two_part_end(t, i, head, CharClass::Owner, CharClass::Alnum).is_some()
        },
        CodeLinkType::GitLab => {
            let head = "https://gitlab.com/";
            match two_part_end(t, i, head, CharClass::Name, CharClass::Name) {
                None => false,
                Some(k) => {
                    let r = has_lit_then(t, k, "/-/blob/", CharClass::PathChar);
                    assert(r == shape_at(t@, i as int, kind)) by {
                        if !r {
                            assert forall|k2: int|
                                two_part(t@, i as int, head@, CharClass::Name, CharClass::Name, k2)
                                implies !lit_then(t@, k2, "/-/blob/"@, CharClass::PathChar) by {
                                if k2 < k && lit_then(t@, k2, "/-/blob/"@, CharClass::PathChar) {
                                    assert(t@.subrange(k2, k2 + 8)[0] == '/');
                                }
                            }
                        }
                    }
                    r
                },
            }
        },
        CodeLinkType::BitBucket => {
            let head = "https://bitbucket.org/";
            match two_part_end(t, i, head, CharClass::Owner, CharClass::Name) {
                None => false,
                Some(k) => {
                    let r = has_lit_then(t, k, "/src/", CharClass::Alnum);
                    assert(r == shape_at(t@, i as int, kind)) by {
                        if !r {
                            assert forall|k2: int|
                                two_part(t@, i as int, head@, CharClass::Owner, CharClass::Name, k2)
                                implies !lit_then(t@, k2, "/src/"@, CharClass::Alnum) by {
                                if k2 < k && lit_then(t@, k2, "/src/"@, CharClass::Alnum) {
                                    assert(t@.subrange(k2, k2 + 5)[0] == '/');
                                }
                            }
                        }
                    }
                    r
                },
            }
        },
    }
}

/// Whether a link of forge `kind` occurs anywhere in `t`.
fn contains_link(t: &Vec<char>, kind: CodeLinkType) -> (r: bool)
    ensures
        r == contains_shape(t@, kind),
{
    let mut i: usize = 0;
    while i < t.len()
        invariant
            i <= t@.len(),
            forall|i2: int| 0 <= i2 < i ==> !shape_at(t@, i2, kind),
        decreases t@.len() - i,
    {
        if link_at(t, i, kind) {
            return true;
        }
        i = i + 1;
    }
    assert forall|i2: int| !shape_at(t@, i2, kind) by {
        if i2 >= t@.len() && shape_at(t@, i2, kind) {
        }
    }
    false
}

/// The forge of the first link in `text`, trying GitHub files, gists, GitLab files and
/// BitBucket sources in that order; `None` when `text` holds none of them.
pub fn match_link_code_storage(text: &str) -> (r: Option<CodeLinkType>)
    ensures
        r == snippet_kind(text@),
{
    let t = chars_of(text);
    if contains_link(&t, CodeLinkType::GitHub) {
        Some(CodeLinkType::GitHub)
    } else if contains_link(&t, CodeLinkType::GitHubGist) {
        Some(CodeLinkType::GitHubGist)
    } else if contains_link(&t, CodeLinkType::GitLab) {
        Some(CodeLinkType::GitLab)
    } else if contains_link(&t, CodeLinkType::BitBucket) {
        Some(CodeLinkType::BitBucket)
    } else {
        None
    }
}

pub open spec fn code_of(kind: CodeLinkType) -> Seq<char> {
    match kind {
        CodeLinkType::GitHub => "GH"@,
        CodeLinkType::GitHubGist => "GHG"@,
        CodeLinkType::GitLab => "GL"@,
        CodeLinkType::BitBucket => "BB"@,
    }
}

impl CodeLinkType {
    /// The short code that a reply names the forge by.
    pub fn code(&self) -> (r: &'static str)
        ensures
            r@ == code_of(*self),
    {
        match self {
            CodeLinkType::GitHub => "GH",
            CodeLinkType::GitHubGist => "GHG",
            CodeLinkType::GitLab => "GL",
            CodeLinkType::BitBucket => "BB",
        }
    }
}

} // verus!
