//! Resolution of `repo#id` and `owner/repo#id` shorthand references.
use vstd::prelude::*;
use vstd::string::StrSliceExecFns;
use crate::text::{
    chars_of, class_contains, has_lit_at, is_word_char, in_class, is_digit, is_space, is_space_char, run_to, scan_run, CharClass,
};

verus! {

/// The type of a numbered item of a repository.
#[derive(Clone, Copy, PartialEq, Eq, Debug)]
pub enum IssueType {
    Issue,
    PR,
    Discussion,
}

/// The repository a reference points into.
#[derive(PartialEq, Eq, Debug)]
pub enum Repo {
    Bevy,
    BevyBot,
    BevyWeb,
    /// A repository named by an `owner/` prefixed reference that no alias covers; it carries
    /// the repository token as written.
    Other(String),
}

/// A resolved shorthand reference.
#[derive(PartialEq, Eq, Debug)]
pub struct Issue {
    pub id: u64,
    pub repo: Repo,
    /// A stand-in: the author is not looked up on the forge.
    pub author: String,
    pub issue_type: IssueType,
}

pub enum RepoView {
    Bevy,
    BevyBot,
    BevyWeb,
    Other(Seq<char>),
}

pub struct IssueView {
    pub id: u64,
    pub repo: RepoView,
    pub author: Seq<char>,
    pub issue_type: IssueType,
}

impl View for Repo {
    type V = RepoView;

    open spec fn view(&self) -> RepoView {
        match self {
            Repo::Bevy => RepoView::Bevy,
            Repo::BevyBot => RepoView::BevyBot,
            Repo::BevyWeb => RepoView::BevyWeb,
            Repo::Other(s) => RepoView::Other(s@),
        }
    }
}

impl View for Issue {
    type V = IssueView;

    open spec fn view(&self) -> IssueView {
        IssueView {
            id: self.id,
            repo: self.repo@,
            author: self.author@,
            issue_type: self.issue_type,
        }
    }
}

pub open spec fn issue_view(r: Option<Issue>) -> Option<IssueView> {
    match r {
        Some(i) => Some(i@),
        None => None,
    }
}

/// The repository that an alias names; aliases are compared exactly.
pub open spec fn alias_target(s: Seq<char>) -> Option<RepoView> {
    if s == "bevy"@ || s == "b"@ {
        Some(RepoView::Bevy)
    } else if s == "bevy-website"@ || s == "website"@ || s == "web"@ {
        Some(RepoView::BevyWeb)
    } else if s == "bevy-bot"@ || s == "bot"@ {
        Some(RepoView::BevyBot)
    } else {
        None
    }
}

/// What the numbered items of each repository are taken to be.
pub open spec fn kind_of(r: RepoView) -> IssueType {
    match r {
        RepoView::Bevy => IssueType::Issue,
        RepoView::BevyBot => IssueType::PR,
        RepoView::BevyWeb => IssueType::Discussion,
        RepoView::Other(_) => IssueType::Issue,
    }
}

/// The placeholder author: one for aliased repositories, one for the others.
pub open spec fn author_for(r: RepoView) -> Seq<char> {
    match r {
        RepoView::Other(_) => "BlackPhlox"@,
        _ => "cart"@,
    }
}

/// The number that a string of decimal digits writes.
pub open spec fn digits_value(s: Seq<char>) -> nat
    decreases s.len(),
{
    if s.len() == 0 {
        0
    } else {
        digits_value(s.drop_last()) * 10 + ((s.last() as u32) - ('0' as u32)) as nat
    }
}

/// `t[q]` is a `#` directly followed by a digit.
pub open spec fn id_mark_at(t: Seq<char>, q: int) -> bool {
    0 <= q && q + 1 < t.len() && t[q] == '#' && is_digit(t[q + 1])
}

/// No white space in `t[a..b)`.
pub open spec fn unbroken(t: Seq<char>, a: int, b: int) -> bool {
    forall|i: int| a <= i < b ==> !is_space(#[trigger] t[i])
}

/// A reference can begin at `p`: one or more characters other than white space, then `#`
/// and a digit.
pub open spec fn begins_at(t: Seq<char>, p: int) -> bool {
    exists|q: int| p < q && unbroken(t, p, q) && id_mark_at(t, q)
}

/// `q` is the last `#` and digit after `a` that no white space separates from `a`.
pub open spec fn last_mark_from(t: Seq<char>, a: int, q: int) -> bool {
    &&& a < q
    &&& unbroken(t, a, q)
    &&& id_mark_at(t, q)
    &&& forall|q2: int| q < q2 && unbroken(t, a, q2) ==> !#[trigger] id_mark_at(t, q2)
}

/// `p` is the first position where a reference can begin.
pub open spec fn first_begin(t: Seq<char>, p: int) -> bool {
    &&& 0 <= p
    &&& begins_at(t, p)
    &&& forall|p2: int| 0 <= p2 < p ==> !#[trigger] begins_at(t, p2)
}

/// The `/` at `w` ends an owner prefix: a reference can begin right after it.
pub open spec fn user_prefix(t: Seq<char>, w: int) -> bool {
    0 <= w < t.len() && t[w] == '/' && begins_at(t, w + 1)
}

/// Where the reference proper starts, after the owner prefix if there is one.
pub open spec fn body_start(t: Seq<char>, p: int, w: int) -> int {
    if user_prefix(t, w) {
        w + 1
    } else {
        p
    }
}

/// The positions of a reference in `t`: it starts at `p`, the letters, digits and `_` from
/// `p` end at `w`, the repository token runs up to the last `#` and digit `q`, and the
/// digits after it end at `d`.
pub open spec fn reading(t: Seq<char>, p: int, w: int, q: int, d: int) -> bool {
    &&& first_begin(t, p)
    &&& run_to(t, p, w, CharClass::Word)
    &&& last_mark_from(t, body_start(t, p, w), q)
    &&& run_to(t, q + 1, d, CharClass::Digit)
}

/// What the reference read at the given positions resolves to.
pub open spec fn resolve_at(t: Seq<char>, p: int, w: int, q: int, d: int) -> Option<IssueView> {
    let b = body_start(t, p, w);
    let token = t.subrange(b, q);
    let id = digits_value(t.subrange(q + 1, d));
    let target = match alias_target(token) {
        Some(r) => Some(r),
        None => if user_prefix(t, w) && p < w {
            Some(RepoView::Other(token))
        } else {
            None
        },
    };
    if t[b] == '@' && begins_at(t, b + 1) {
        None
    } else if id > u64::MAX {
        None
    } else {
        match target {
            Some(r) => Some(
                IssueView { id: id as u64, repo: r, author: author_for(r), issue_type: kind_of(r) },
            ),
            None => None,
        }
    }
}

/// The reference that `t` holds, if any: read at the first place where one can begin, then
/// resolved through the aliases.
pub open spec fn reference_of(t: Seq<char>) -> Option<IssueView> {
    if exists|p: int, w: int, q: int, d: int| reading(t, p, w, q, d) {
        let (p, w, q, d) = choose|p: int, w: int, q: int, d: int| reading(t, p, w, q, d);
        resolve_at(t, p, w, q, d)
    } else {
        None
    }
}

proof fn lemma_run_unique(t: Seq<char>, a: int, b1: int, b2: int, k: CharClass)
    requires
        run_to(t, a, b1, k),
        run_to(t, a, b2, k),
    ensures
        b1 == b2,
{
    if b1 < b2 {
        assert(in_class(k, t[b1]));
    }
    if b2 < b1 {
        assert(in_class(k, t[b2]));
    }
}

proof fn lemma_reading_unique(
    t: Seq<char>,
    p1: int,
    w1: int,
    q1: int,
    d1: int,
    p2: int,
    w2: int,
    q2: int,
    d2: int,
)
    requires
        reading(t, p1, w1, q1, d1),
        reading(t, p2, w2, q2, d2),
    ensures
        p1 == p2 && w1 == w2 && q1 == q2 && d1 == d2,
{
    if p1 < p2 {
        assert(!begins_at(t, p1));
    }
    if p2 < p1 {
        assert(!begins_at(t, p2));
    }
    lemma_run_unique(t, p1, w1, w2, CharClass::Word);
    if q1 < q2 {
        assert(!id_mark_at(t, q2));
    }
    if q2 < q1 {
        assert(!id_mark_at(t, q1));
    }
    lemma_run_unique(t, q1 + 1, d1, d2, CharClass::Digit);
}

/// No reference begins inside a stretch without white space unless one begins at its start.
proof fn lemma_no_begin_in_stretch(t: Seq<char>, a: int, e: int)
    requires
        unbroken(t, a, e),
        !begins_at(t, a),
    ensures
        forall|p: int| a <= p < e ==> !#[trigger] begins_at(t, p),
{
    assert forall|p: int| a <= p < e implies !#[trigger] begins_at(t, p) by {
        if begins_at(t, p) {
            let q = choose|q: int| p < q && unbroken(t, p, q) && id_mark_at(t, q);
            assert(unbroken(t, a, q));
        }
    }
}

proof fn lemma_digits_prefix_le(s: Seq<char>, n: int)
    requires
        0 <= n <= s.len(),
    ensures
        digits_value(s.take(n)) <= digits_value(s),
    decreases s.len(),
{
    if n < s.len() {
        lemma_digits_prefix_le(s.drop_last(), n);
        assert(s.drop_last().take(n) =~= s.take(n));
    } else {
        assert(s.take(n) =~= s);
    }
}

/// End of the stretch without white space that starts at `a`.
fn scan_unbroken(t: &Vec<char>, a: usize) -> (e: usize)
    requires
        a <= t@.len(),
    ensures
        a <= e <= t@.len(),
        unbroken(t@, a as int, e as int),
        e == t@.len() || is_space(t@[e as int]),
{
    let mut e = a;
    while e < t.len() && !is_space_char(t[e])
        invariant
            a <= e <= t@.len(),
            unbroken(t@, a as int, e as int),
        decreases t@.len() - e,
    {
        e = e + 1;
    }
    e
}

/// Whether `t[q]` is a `#` directly followed by a digit.
fn is_id_mark(t: &Vec<char>, q: usize) -> (r: bool)
    ensures
        r == id_mark_at(t@, q as int),
{
    q < t.len() && t[q] == '#' && q + 1 < t.len() && class_contains(CharClass::Digit, t[q + 1])
}

/// The last `#` and digit after `a` inside the stretch `t[a..e)` that white space or the end
/// of `t` closes.
fn last_mark(t: &Vec<char>, a: usize, e: usize) -> (r: Option<usize>)
    requires
        a <= e <= t@.len(),
        unbroken(t@, a as int, e as int),
        e == t@.len() || is_space(t@[e as int]),
    ensures
        r matches Some(q) ==> last_mark_from(t@, a as int, q as int) && q < e,
        r is None ==> !begins_at(t@, a as int),
{
    let mut j = e;
    while j - a > 1
        invariant
            a <= j <= e,
            unbroken(t@, a as int, e as int),
            forall|q2: int| j <= q2 && unbroken(t@, a as int, q2) ==> !#[trigger] id_mark_at(t@, q2),
        decreases j,
    {
        j = j - 1;
        if is_id_mark(t, j) {
            return Some(j);
        }
    }
    None
}

/// The start of the first place where a reference can begin, the end of the stretch
/// without white space there, and the last `#` and digit in that stretch.
fn find_start(t: &Vec<char>) -> (r: Option<(usize, usize, usize)>)
    ensures
        r matches Some((p, e, q)) ==> {
            &&& first_begin(t@, p as int)
            &&& p < e <= t@.len()
            &&& unbroken(t@, p as int, e as int)
            &&& (e == t@.len() || is_space(t@[e as int]))
            &&& last_mark_from(t@, p as int, q as int)
            &&& q < e
        },
        r is None ==> forall|p: int| 0 <= p ==> !#[trigger] begins_at(t@, p),
{
    let mut i: usize = 0;
    while i < t.len()
        invariant
            i <= t@.len(),
            forall|p2: int| 0 <= p2 < i ==> !#[trigger] begins_at(t@, p2),
        decreases t@.len() - i,
    {
        if is_space_char(t[i]) {
            i = i + 1;
        } else {
            let e = scan_unbroken(t, i);
            match last_mark(t, i, e) {
                Some(q) => {
                    return Some((i, e, q));
                },
                None => {
                    proof {
                        lemma_no_begin_in_stretch(t@, i as int, e as int);
                    }
                    i = e;
                },
            }
        }
    }
    None
}

/// The number written by the digits `t[a..d)`, or `None` when it does not fit in a `u64`.
fn digits_to_u64(t: &Vec<char>, a: usize, d: usize) -> (r: Option<u64>)
    requires
        run_to(t@, a as int, d as int, CharClass::Digit),
    ensures
        r matches Some(v) ==> v == digits_value(t@.subrange(a as int, d as int)),
        r is None ==> digits_value(t@.subrange(a as int, d as int)) > u64::MAX,
{
    let mut v: u64 = 0;
    let mut j: usize = a;
    assert(t@.subrange(a as int, a as int) =~= Seq::<char>::empty());
    while j < d
        invariant
            a <= j <= d,
            run_to(t@, a as int, d as int, CharClass::Digit),
            v == digits_value(t@.subrange(a as int, j as int)),
        decreases d - j,
    {
        let c = t[j];
        assert(in_class(CharClass::Digit, t@[j as int]));
        let digit = (c as u32 - '0' as u32) as u64;
        assert(t@.subrange(a as int, j + 1).drop_last() =~= t@.subrange(a as int, j as int));
        assert(t@.subrange(a as int, j + 1).last() == c);
        let next = match v.checked_mul(10) {
            Some(m) => m.checked_add(digit),
            None => None,
        };
        match next {
            Some(n) => {
                v = n;
            },
            None => {
                proof {
                    let whole = t@.subrange(a as int, d as int);
                    assert(whole.take(j + 1 - a) =~= t@.subrange(a as int, j + 1));
                    lemma_digits_prefix_le(whole, j + 1 - a);
                }
                return None;
            },
        }
        j = j + 1;
    }
    Some(v)
}

/// Whether `t[a..b)` is exactly `lit`.
fn token_is(t: &Vec<char>, a: usize, b: usize, lit: &str) -> (r: bool)
    requires
        a <= b <= t@.len(),
    ensures
        r == (t@.subrange(a as int, b as int) == lit@),
{
    let r = b - a == lit.unicode_len() && has_lit_at(t, a, lit);
    assert(r == (t@.subrange(a as int, b as int) == lit@)) by {
        if t@.subrange(a as int, b as int) == lit@ {
            assert(t@.subrange(a as int, b as int).len() == lit@.len());
        }
    }
    r
}

/// The repository that the alias `t[a..b)` names, if it is one.
fn alias_of(t: &Vec<char>, a: usize, b: usize) -> (r: Option<Repo>)
    requires
        a <= b <= t@.len(),
    ensures
        match r {
            Some(repo) => alias_target(t@.subrange(a as int, b as int)) == Some(repo@),
            None => alias_target(t@.subrange(a as int, b as int)) is None,
        },
{
    if token_is(t, a, b, "bevy") || token_is(t, a, b, "b") {
        Some(Repo::Bevy)
    } else if token_is(t, a, b, "bevy-website") || token_is(t, a, b, "website") || token_is(
        t,
        a,
        b,
        "web",
    ) {
        Some(Repo::BevyWeb)
    } else if token_is(t, a, b, "bevy-bot") || token_is(t, a, b, "bot") {
        Some(Repo::BevyBot)
    } else {
        None
    }
}

impl Repo {
    /// What the numbered items of this repository are taken to be.
    pub fn issue_type(&self) -> (r: IssueType)
        ensures
            r == kind_of(self@),
    {
        match self {
            Repo::Bevy => IssueType::Issue,
            Repo::BevyBot => IssueType::PR,
            Repo::BevyWeb => IssueType::Discussion,
            Repo::Other(_) => IssueType::Issue,
        }
    }

    /// The placeholder author given to references into this repository.
    pub fn placeholder_author(&self) -> (r: String)
        ensures
            r@ == author_for(self@),
    {
        match self {
            Repo::Other(_) => "BlackPhlox".to_owned(),
            _ => "cart".to_owned(),
        }
    }
}

/// The shorthand reference in `text`, resolved.
///
/// The reference is read at the first stretch without white space that holds a `#` followed
/// by a digit after its first character. A leading run of letters, digits and `_` ended by
/// `/` is an owner prefix when a reference can begin after it. The repository token runs
/// from there up to the last `#` and digit of the stretch, and the id is the digits after
/// that `#`. A token that starts with `@` is a mention and gives `None`. The token is looked
/// up among the aliases; one that no alias covers resolves to `Repo::Other` only under a
/// non-empty owner prefix. An id too large for a `u64` gives `None`.
pub fn parse_issue_link(text: &str) -> (r: Option<Issue>)
    ensures
        issue_view(r) == reference_of(text@),
{
    let t = chars_of(text);
    let ghost s = t@;
    let (p, e, q0) = match find_start(&t) {
        Some(found) => found,
        None => {
            assert(!exists|p: int, w: int, q: int, d: int| reading(s, p, w, q, d)) by {
                assert forall|p: int, w: int, q: int, d: int| !reading(s, p, w, q, d) by {
                    if reading(s, p, w, q, d) {
                        assert(begins_at(s, p));
                    }
                }
            }
            return None;
        },
    };
    let w = scan_run(&t, p, CharClass::Word);
    let mut body = p;
    let mut q = q0;
    let mut prefixed = false;
    if w < t.len() && t[w] == '/' {
        if w >= e {
            let _ = is_word_char(t[e]);
            assert(in_class(CharClass::Word, s[e as int]));
        }
        match last_mark(&t, w + 1, e) {
            Some(q1) => {
                body = w + 1;
                q = q1;
                prefixed = true;
            },
            None => {},
        }
    }
    assert(prefixed == user_prefix(s, w as int));
    assert(body == body_start(s, p as int, w as int));
    let mention = t[body] == '@' && q > body + 1;
    assert(mention == (s[body as int] == '@' && begins_at(s, body + 1))) by {
        if s[body as int] == '@' && begins_at(s, body + 1) && q <= body + 1 {
            let q2 = choose|q2: int| body + 1 < q2 && unbroken(s, body + 1, q2) && id_mark_at(s, q2);
            assert(unbroken(s, body as int, q2));
        }
    }
    let d = scan_run(&t, q + 1, CharClass::Digit);
    proof {
        assert(reading(s, p as int, w as int, q as int, d as int));
        let (p2, w2, q2, d2) = choose|p2: int, w2: int, q2: int, d2: int| reading(s, p2, w2, q2, d2);
        lemma_reading_unique(s, p as int, w as int, q as int, d as int, p2, w2, q2, d2);
    }
    if mention {
        return None;
    }
    let id = match digits_to_u64(&t, q + 1, d) {
        Some(v) => v,
        None => {
            return None;
        },
    };
    let repo = match alias_of(&t, body, q) {
        Some(known) => known,
        None => {
            if prefixed && p < w {
                Repo::Other(text.substring_char(body, q).to_owned())
            } else {
                return None;
            }
        },
    };
    let issue_type = repo.issue_type();
    let author = repo.placeholder_author();
    Some(Issue { id, repo, author, issue_type })
}

} // verus!
