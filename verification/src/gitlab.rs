//! GitLab: where a repository's remote points, which merge request a URL
//! names, the API paths and positions the service sends, and the comments
//! of a merge request in one list.
use vstd::prelude::*;
use crate::text::{
    trim, strip_trailing, strip_leading, strip_trailing_seq, index_of_char, after_last, joined, views,
    parsed_i64, decimal, chars_of, copy_str, str_eq, trim_str, is_blank, strip_trailing_str, strip_leading_str,
    strip_trailing_seq_str, find_char, after_last_char, join_strings, parse_i64, format_u64, string_of_range,
    lemma_views_push,
};
use crate::ordering::{is_stable_order, stable_sort_by_keys};
use url::Url;
use percent_encoding::{utf8_percent_encode, NON_ALPHANUMERIC};

verus! {

/// Why a GitLab operation failed.
#[derive(Debug, Clone)]
pub enum GitLabServiceError {
    InvalidBaseUrl(String),
    InvalidMergeRequestUrl(String),
    TokenMissing,
    RequestFailed(String),
    UnexpectedResponse(String),
    InsufficientPermissions,
    NotFound,
}

/// The message of an error.
pub open spec fn gitlab_error_text(e: GitLabServiceError) -> Seq<char> {
    match e {
        GitLabServiceError::InvalidBaseUrl(s) => "invalid GitLab base URL: "@ + s@,
        GitLabServiceError::InvalidMergeRequestUrl(s) => "invalid GitLab merge request URL: "@ + s@,
        GitLabServiceError::TokenMissing => "GitLab token not configured"@,
        GitLabServiceError::RequestFailed(s) => "GitLab API request failed: "@ + s@,
        GitLabServiceError::UnexpectedResponse(s) => "GitLab returned unexpected response: "@ + s@,
        GitLabServiceError::InsufficientPermissions => "insufficient permissions"@,
        GitLabServiceError::NotFound => "not found"@,
    }
}

impl GitLabServiceError {
    /// The message of this error.
    pub fn message(&self) -> (r: String)
        ensures
            r@ == gitlab_error_text(*self),
    {
        let (prefix, detail): (&str, Option<&String>) = match self {
            GitLabServiceError::InvalidBaseUrl(s) => ("invalid GitLab base URL: ", Some(s)),
            GitLabServiceError::InvalidMergeRequestUrl(s) => ("invalid GitLab merge request URL: ", Some(s)),
            GitLabServiceError::TokenMissing => ("GitLab token not configured", None),
            GitLabServiceError::RequestFailed(s) => ("GitLab API request failed: ", Some(s)),
            GitLabServiceError::UnexpectedResponse(s) => ("GitLab returned unexpected response: ", Some(s)),
            GitLabServiceError::InsufficientPermissions => ("insufficient permissions", None),
            GitLabServiceError::NotFound => ("not found", None),
        };
        let mut r = copy_str(prefix);
        match detail {
            Some(s) => r.append(s.as_str()),
            None => {},
        }
        r
    }
}

/// The parts of a URL the service reads: scheme, host, port and path
/// segments (`None` for a URL that cannot be a base).
#[derive(Debug, Clone)]
pub struct UrlParts {
    pub scheme: String,
    pub host: Option<String>,
    pub port: Option<u16>,
    pub segments: Option<Vec<String>>,
}

/// The parts of a URL, by their characters.
pub open spec fn parts_view(p: UrlParts) -> (Seq<char>, Option<Seq<char>>, Option<u16>, Option<Seq<Seq<char>>>) {
    (
        p.scheme@,
        match p.host {
            Some(h) => Some(h@),
            None => None,
        },
        p.port,
        match p.segments {
            Some(v) => Some(views(v@)),
            None => None,
        },
    )
}

/// What `Url::parse` reads from a text: the parts of the URL, or the text of
/// its error.
pub uninterp spec fn url_parse(s: Seq<char>) -> Result<(Seq<char>, Option<Seq<char>>, Option<u16>, Option<Seq<Seq<char>>>), Seq<char>>;

/// Calls `Url::parse` and reads `scheme`, `host_str`, `port` and
/// `path_segments` of the result, or the `Display` text of the error; the
/// outcome depends on the text alone and is named `url_parse`.
#[verifier::external_body]
fn parse_url(s: &str) -> (r: Result<UrlParts, String>)
    ensures
        match r {
            Ok(p) => url_parse(s@) == Ok::<_, Seq<char>>(parts_view(p)),
            Err(e) => url_parse(s@) == Err::<(Seq<char>, Option<Seq<char>>, Option<u16>, Option<Seq<Seq<char>>>), _>(e@),
        },
{
    match Url::parse(s) {
        Ok(u) => Ok(UrlParts {
            scheme: u.scheme().to_string(),
            host: u.host_str().map(|h| h.to_string()),
            port: u.port(),
            segments: u.path_segments().map(|it| it.map(|x| x.to_string()).collect()),
        }),
        Err(e) => Err(e.to_string()),
    }
}

/// `scheme://host[:port]`.
pub open spec fn origin_text(scheme: Seq<char>, host: Seq<char>, port: Option<u16>) -> Seq<char> {
    scheme + "://"@ + host + match port {
        Some(p) => ":"@ + decimal(p as nat),
        None => Seq::empty(),
    }
}

/// `scheme://host[:port]`.
fn origin_of(scheme: &str, host: &str, port: Option<u16>) -> (r: String)
    ensures
        r@ == origin_text(scheme@, host@, port),
{
    let mut r = copy_str(scheme);
    r.append("://");
    r.append(host);
    match port {
        Some(p) => {
            r.append(":");
            let digits = format_u64(p as u64);
            r.append(digits.as_str());
        },
        None => {},
    }
    r
}

/// The segments, with `.git` cut once from the end of the last one.
pub open spec fn without_git_suffix(segs: Seq<Seq<char>>) -> Seq<Seq<char>> {
    if segs.len() > 0 && ".git"@.is_suffix_of(segs.last()) {
        segs.update(segs.len() - 1, segs.last().subrange(0, segs.last().len() - 4))
    } else {
        segs
    }
}

/// Where a repository remote points on GitLab: its base URL and project
/// path, for an `https://`, `ssh://` or `git@host:` remote; `None` when the
/// remote names no host or path.
pub open spec fn remote_info(remote: Seq<char>) -> Option<(Seq<char>, Seq<char>)> {
    let t = strip_trailing(trim(remote), '/');
    if t.len() == 0 {
        None
    } else {
        match url_parse(t) {
            Ok(parts) => match parts.1 {
                None => None,
                Some(host) => {
                    let segs = match parts.3 {
                        Some(s) => s,
                        None => Seq::empty(),
                    };
                    if segs.len() == 0 {
                        None
                    } else {
                        Some((origin_text(parts.0, host, parts.2), joined(without_git_suffix(segs), "/"@)))
                    }
                },
            },
            Err(_) => match index_of_char(t, ':') {
                None => None,
                Some(i) => Some((
                    "https://"@ + after_last(t.take(i), '@'),
                    strip_trailing_seq(strip_leading(t.skip(i + 1), '/'), ".git"@),
                )),
            },
        }
    }
}

/// The text an unusable remote is reported with.
pub open spec fn remote_error_text(remote: Seq<char>) -> Seq<char> {
    let t = strip_trailing(trim(remote), '/');
    if t.len() == 0 { "remote URL is empty"@ } else { t }
}

/// A GitLab repository: the instance's base URL and the project's path.
#[derive(Debug, Clone)]
pub struct GitLabRepoInfo {
    pub base_url: String,
    pub project_path: String,
}

/// `text` with `.git` cut from its end, once.
fn strip_git_once(text: &String) -> (r: String)
    ensures
        r@ == if ".git"@.is_suffix_of(text@) { text@.subrange(0, text@.len() - 4) } else { text@ },
{
    let v = chars_of(text.as_str());
    let suffix = chars_of(".git");
    proof {
        reveal_strlit(".git");
    }
    let n = v.len();
    if n >= 4 && crate::text::occurs_at_exec(&v, &suffix, n - 4) {
        assert(v@.subrange(n - 4, n as int) == ".git"@);
        string_of_range(&v, 0, n - 4)
    } else {
        proof {
            if ".git"@.is_suffix_of(text@) {
                assert(v@.subrange(n - 4, n as int) == ".git"@);
                assert(crate::text::occurs_at(v@, suffix@, n - 4));
            }
        }
        crate::text::string_of(&v)
    }
}

impl GitLabRepoInfo {
    /// The GitLab repository a remote URL points at.
    pub fn from_remote_url(remote_url: &str) -> (r: Result<GitLabRepoInfo, GitLabServiceError>)
        ensures
            match r {
                Ok(info) => remote_info(remote_url@) == Some((info.base_url@, info.project_path@)),
                Err(e) => remote_info(remote_url@) is None && (e matches GitLabServiceError::InvalidBaseUrl(m)
                    && m@ == remote_error_text(remote_url@)),
            },
    {
        let t0 = trim_str(remote_url);
        let trimmed = strip_trailing_str(t0.as_str(), '/');
        let tv = chars_of(trimmed.as_str());
        if tv.len() == 0 {
            return Err(GitLabServiceError::InvalidBaseUrl(copy_str("remote URL is empty")));
        }
        match parse_url(trimmed.as_str()) {
            Ok(parts) => {
                let UrlParts { scheme, host, port, segments } = parts;
                let host = match host {
                    Some(h) => h,
                    None => {
                        return Err(GitLabServiceError::InvalidBaseUrl(trimmed));
                    },
                };
                let base_url = origin_of(scheme.as_str(), host.as_str(), port);
                let mut segments: Vec<String> = match segments {
                    Some(v) => v,
                    None => Vec::new(),
                };
                if segments.len() == 0 {
                    return Err(GitLabServiceError::InvalidBaseUrl(trimmed));
                }
                let last_index = segments.len() - 1;
                let stripped = strip_git_once(&segments[last_index]);
                let ghost before = segments@;
                segments.set(last_index, stripped);
                assert(views(segments@) =~= without_git_suffix(views(before)));
                let project_path = join_strings(&segments, "/");
                Ok(GitLabRepoInfo { base_url, project_path })
            },
            Err(_) => {
                match find_char(&tv, ':') {
                    None => Err(GitLabServiceError::InvalidBaseUrl(trimmed)),
                    Some(i) => {
                        let host = after_last_char(&tv, i, '@');
                        let mut base_url = copy_str("https://");
                        base_url.append(host.as_str());
                        let path = string_of_range(&tv, i + 1, tv.len());
                        assert(path@ == tv@.skip(i + 1));
                        let lead = strip_leading_str(path.as_str(), '/');
                        proof {
                            reveal_strlit(".git");
                        }
                        let project_path = strip_trailing_seq_str(lead.as_str(), ".git");
                        Ok(GitLabRepoInfo { base_url, project_path })
                    },
                }
            },
        }
    }
}

/// The first position of `x` in `s`, if any.
pub open spec fn position_of(s: Seq<Seq<char>>, x: Seq<char>) -> Option<int>
    decreases s.len(),
{
    if s.len() == 0 {
        None
    } else if s[0] == x {
        Some(0)
    } else {
        match position_of(s.drop_first(), x) {
            Some(i) => Some(i + 1),
            None => None,
        }
    }
}

/// The first position of `x` among the strings.
fn find_text(v: &Vec<String>, x: &str) -> (r: Option<usize>)
    ensures
        r matches Some(i) ==> position_of(views(v@), x@) == Some(i as int) && i < v@.len(),
        r is None ==> position_of(views(v@), x@) is None,
{
    let mut i: usize = 0;
    assert(views(v@).skip(0) == views(v@));
    while i < v.len()
        invariant
            i <= v@.len(),
            position_of(views(v@), x@) == match position_of(views(v@).skip(i as int), x@) {
                Some(j) => Some(j + i),
                None => None,
            },
        decreases v@.len() - i,
    {
        assert(views(v@).skip(i as int)[0] == v@[i as int]@);
        if str_eq(v[i].as_str(), x) {
            return Some(i);
        }
        assert(views(v@).skip(i as int).drop_first() == views(v@).skip(i + 1));
        i = i + 1;
    }
    assert(views(v@).skip(i as int).len() == 0);
    None
}

/// The merge request a URL names: base URL, project path and number, for a
/// URL of the form `<base>/<group>/../<project>/-/merge_requests/<iid>`.
pub open spec fn mr_ref_of(url: Seq<char>) -> Option<(Seq<char>, Seq<char>, i64)> {
    match url_parse(url) {
        Err(_) => None,
        Ok(parts) => {
            let segs = match parts.3 {
                Some(s) => s,
                None => Seq::empty(),
            };
            let host = match parts.1 {
                Some(h) => h,
                None => Seq::empty(),
            };
            match position_of(segs, "-"@) {
                None => None,
                Some(d) => if d == 0 {
                    None
                } else {
                    match position_of(segs, "merge_requests"@) {
                        None => None,
                        Some(m) => if m + 1 >= segs.len() {
                            None
                        } else {
                            match parsed_i64(segs[m + 1]) {
                                None => None,
                                Some(iid) => Some((origin_text(parts.0, host, parts.2), joined(segs.take(d), "/"@), iid)),
                            }
                        },
                    }
                },
            }
        },
    }
}

/// The text a merge request URL that names no merge request is reported
/// with: the parser's error for text that is no URL, else the URL itself.
pub open spec fn mr_error_text(url: Seq<char>) -> Seq<char> {
    match url_parse(url) {
        Err(e) => e,
        Ok(_) => url,
    }
}

/// A merge request of a GitLab project.
#[derive(Debug, Clone)]
pub struct GitLabMergeRequestRef {
    pub base_url: String,
    pub project_path: String,
    pub iid: i64,
    pub web_url: String,
}

impl GitLabMergeRequestRef {
    /// The merge request a URL names.
    pub fn parse(url: &str) -> (r: Result<GitLabMergeRequestRef, GitLabServiceError>)
        ensures
            match r {
                Ok(m) => mr_ref_of(url@) == Some((m.base_url@, m.project_path@, m.iid)) && m.web_url@ == url@,
                Err(e) => mr_ref_of(url@) is None && (e matches GitLabServiceError::InvalidMergeRequestUrl(t)
                    && t@ == mr_error_text(url@)),
            },
    {
        let parts = match parse_url(url) {
            Ok(p) => p,
            Err(e) => {
                return Err(GitLabServiceError::InvalidMergeRequestUrl(e));
            },
        };
        let UrlParts { scheme, host, port, segments } = parts;
        let host = match host {
            Some(h) => h,
            None => String::new(),
        };
        let base_url = origin_of(scheme.as_str(), host.as_str(), port);
        let segments: Vec<String> = match segments {
            Some(v) => v,
            None => Vec::new(),
        };
        proof {
            reveal_strlit("-");
            reveal_strlit("merge_requests");
        }
        let dash = match find_text(&segments, "-") {
            Some(d) => d,
            None => {
                return Err(GitLabServiceError::InvalidMergeRequestUrl(copy_str(url)));
            },
        };
        if dash == 0 {
            return Err(GitLabServiceError::InvalidMergeRequestUrl(copy_str(url)));
        }
        let mut project_segments: Vec<String> = Vec::new();
        let mut k: usize = 0;
        while k < dash
            invariant
                k <= dash < segments@.len(),
                views(project_segments@) == views(segments@).take(k as int),
            decreases dash - k,
        {
            let t = copy_str(segments[k].as_str());
            let ghost before = project_segments@;
            project_segments.push(t);
            proof {
                lemma_views_push(before, t);
                assert(views(segments@).take(k + 1) == views(segments@).take(k as int).push(t@));
            }
            k = k + 1;
        }
        let project_path = join_strings(&project_segments, "/");
        let mr = match find_text(&segments, "merge_requests") {
            Some(m) => m,
            None => {
                return Err(GitLabServiceError::InvalidMergeRequestUrl(copy_str(url)));
            },
        };
        if mr + 1 >= segments.len() {
            return Err(GitLabServiceError::InvalidMergeRequestUrl(copy_str(url)));
        }
        let iid = match parse_i64(segments[mr + 1].as_str()) {
            Some(n) => n,
            None => {
                return Err(GitLabServiceError::InvalidMergeRequestUrl(copy_str(url)));
            },
        };
        Ok(GitLabMergeRequestRef { base_url, project_path, iid, web_url: copy_str(url) })
    }
}

/// A GitLab user, as notes name their author.
#[derive(Debug, Clone)]
pub struct GitLabAuthor {
    pub username: String,
}

/// Where on a diff a note sits.
#[derive(Debug, Clone)]
pub struct GitLabPosition {
    pub old_path: Option<String>,
    pub new_path: Option<String>,
    pub old_line: Option<i64>,
    pub new_line: Option<i64>,
}

/// A note (comment) of a merge request.
#[derive(Debug, Clone)]
pub struct GitLabNote {
    pub id: i64,
    pub body: String,
    pub created_at: i128,
    pub author: GitLabAuthor,
    pub system: bool,
    pub position: Option<GitLabPosition>,
}

/// A discussion thread of a merge request.
#[derive(Debug, Clone)]
pub struct GitLabDiscussion {
    pub id: String,
    pub notes: Vec<GitLabNote>,
}

/// A comment of a pull or merge request, general or on a line of the diff.
#[derive(Debug, Clone)]
pub enum UnifiedPrComment {
    General {
        id: String,
        author: String,
        author_association: String,
        body: String,
        created_at: i128,
        url: String,
    },
    Review {
        id: i64,
        author: String,
        author_association: String,
        body: String,
        created_at: i128,
        url: String,
        path: String,
        line: Option<i64>,
        side: Option<String>,
        diff_hunk: String,
    },
}

/// The link to a note of a merge request.
pub open spec fn note_url(web_url: Seq<char>, id: i64) -> Seq<char> {
    web_url + "#note_"@ + crate::text::signed_decimal(id as int)
}

/// The notes that are general comments: written by people, on no line.
pub open spec fn general_notes(notes: Seq<GitLabNote>) -> Seq<GitLabNote>
    decreases notes.len(),
{
    if notes.len() == 0 {
        Seq::empty()
    } else {
        let prev = general_notes(notes.drop_last());
        if !notes.last().system && notes.last().position is None { prev.push(notes.last()) } else { prev }
    }
}

/// The line a note is anchored to: its new path and line when both are
/// known (right side), else its old ones (left side).
pub open spec fn anchor_of(pos: GitLabPosition) -> Option<(Seq<char>, i64, Seq<char>)> {
    if pos.new_path is Some && pos.new_line is Some {
        Some((pos.new_path.unwrap()@, pos.new_line.unwrap(), "RIGHT"@))
    } else if pos.old_path is Some && pos.old_line is Some {
        Some((pos.old_path.unwrap()@, pos.old_line.unwrap(), "LEFT"@))
    } else {
        None
    }
}

/// Whether a discussion note is a line comment written by a person.
pub open spec fn is_review_note(n: GitLabNote) -> bool {
    !n.system && n.position is Some && anchor_of(n.position.unwrap()) is Some
}

/// The line comments among the notes.
pub open spec fn review_notes_of(notes: Seq<GitLabNote>) -> Seq<GitLabNote>
    decreases notes.len(),
{
    if notes.len() == 0 {
        Seq::empty()
    } else {
        let prev = review_notes_of(notes.drop_last());
        if is_review_note(notes.last()) { prev.push(notes.last()) } else { prev }
    }
}

/// The line comments of the discussions, in order.
pub open spec fn review_notes(discussions: Seq<GitLabDiscussion>) -> Seq<GitLabNote>
    decreases discussions.len(),
{
    if discussions.len() == 0 {
        Seq::empty()
    } else {
        review_notes(discussions.drop_last()) + review_notes_of(discussions.last().notes@)
    }
}

/// Whether `c` is the general comment made of note `n`.
pub open spec fn general_comment_of(c: UnifiedPrComment, n: GitLabNote, web_url: Seq<char>) -> bool {
    &&& c matches UnifiedPrComment::General { id, author, author_association, body, created_at, url }
    &&& id@ == crate::text::signed_decimal(n.id as int)
    &&& author == n.author.username
    &&& author_association@ == "CONTRIBUTOR"@
    &&& body == n.body
    &&& created_at == n.created_at
    &&& url@ == note_url(web_url, n.id)
}

/// Whether `c` is the line comment made of note `n`.
pub open spec fn review_comment_of(c: UnifiedPrComment, n: GitLabNote, web_url: Seq<char>) -> bool {
    &&& c matches UnifiedPrComment::Review { id, author, author_association, body, created_at, url, path, line, side, diff_hunk }
    &&& id == n.id
    &&& author == n.author.username
    &&& author_association@ == "CONTRIBUTOR"@
    &&& body == n.body
    &&& created_at == n.created_at
    &&& url@ == note_url(web_url, n.id)
    &&& anchor_of(n.position.unwrap()) == Some((path@, line.unwrap(), side.unwrap()@))
    &&& line is Some
    &&& side is Some
    &&& diff_hunk@.len() == 0
}

/// A line comment is reported where its note is anchored: a note with a new
/// path and new line is reported at them on side `RIGHT`; one without them
/// but with an old path and old line is reported at those on side `LEFT`.
pub proof fn lemma_review_comment_side(c: UnifiedPrComment, n: GitLabNote, web_url: Seq<char>)
    requires
        review_comment_of(c, n, web_url),
    ensures
        ({
            let pos = n.position.unwrap();
            &&& pos.new_path is Some && pos.new_line is Some ==> (c matches UnifiedPrComment::Review { path, line, side, .. }
                && path@ == pos.new_path.unwrap()@ && line == Some(pos.new_line.unwrap()) && side.unwrap()@ == "RIGHT"@)
            &&& !(pos.new_path is Some && pos.new_line is Some) && pos.old_path is Some && pos.old_line is Some ==> (
                c matches UnifiedPrComment::Review { path, line, side, .. } && path@ == pos.old_path.unwrap()@
                && line == Some(pos.old_line.unwrap()) && side.unwrap()@ == "LEFT"@)
        }),
{
}

/// The sort key of a note: when it was written.
pub open spec fn note_keys(notes: Seq<GitLabNote>) -> Seq<(i128, i128)> {
    notes.map_values(|n: GitLabNote| (n.created_at, 0i128))
}

/// The link to note `id`.
fn note_link(web_url: &str, id: i64) -> (r: String)
    ensures
        r@ == note_url(web_url@, id),
{
    let mut r = copy_str(web_url);
    r.append("#note_");
    let digits = crate::text::format_i64(id);
    r.append(digits.as_str());
    r
}

/// The general comment made of a note.
fn general_comment(n: GitLabNote, web_url: &str) -> (c: UnifiedPrComment)
    ensures
        general_comment_of(c, n, web_url@),
{
    let url = note_link(web_url, n.id);
    UnifiedPrComment::General {
        id: crate::text::format_i64(n.id),
        author: n.author.username,
        author_association: copy_str("CONTRIBUTOR"),
        body: n.body,
        created_at: n.created_at,
        url,
    }
}

/// The line comment made of a note, when it is one.
fn review_comment(n: GitLabNote, web_url: &str) -> (c: Option<UnifiedPrComment>)
    ensures
        c is Some <==> is_review_note(n),
        c matches Some(x) ==> review_comment_of(x, n, web_url@),
{
    if n.system {
        return None;
    }
    let ghost orig = n;
    let GitLabNote { id, body, created_at, author, system, position } = n;
    let Some(pos) = position else {
        return None;
    };
    let (path, line, side) = match (pos.new_path, pos.new_line) {
        (Some(p), Some(l)) => (p, l, copy_str("RIGHT")),
        _ => match (pos.old_path, pos.old_line) {
            (Some(p), Some(l)) => (p, l, copy_str("LEFT")),
            _ => {
                return None;
            },
        },
    };
    let url = note_link(web_url, id);
    Some(UnifiedPrComment::Review {
        id,
        author: author.username,
        author_association: copy_str("CONTRIBUTOR"),
        body,
        created_at,
        url,
        path,
        line: Some(line),
        side: Some(side),
        diff_hunk: String::new(),
    })
}

/// Whether `pre[k]` is the comment made of `src[k]` for every `k`: general
/// comments for the first `g` notes, line comments after.
pub open spec fn comments_made_of(pre: Seq<UnifiedPrComment>, src: Seq<GitLabNote>, g: int, web_url: Seq<char>) -> bool {
    &&& pre.len() == src.len()
    &&& forall|k: int| 0 <= k < pre.len() ==> if k < g {
        general_comment_of(#[trigger] pre[k], src[k], web_url)
    } else {
        review_comment_of(pre[k], src[k], web_url)
    }
}

/// The comments of a merge request in one list: its general notes, then the
/// line comments of its discussions, sorted by when they were written
/// (comments written at the same time keep that order). System notes, notes
/// on a line among the general ones, and discussion notes on no line are
/// left out.
pub fn unify_comments(web_url: &str, notes: Vec<GitLabNote>, discussions: Vec<GitLabDiscussion>) -> (r: Vec<UnifiedPrComment>)
    ensures
        ({
            let g = general_notes(notes@);
            let src = g + review_notes(discussions@);
            &&& r@.len() == src.len()
            &&& exists|perm: Seq<usize>| #![trigger is_stable_order(note_keys(src), perm)]
                is_stable_order(note_keys(src), perm) && forall|i: int| 0 <= i < r@.len() ==> if (perm[i] as int) < g.len() {
                    general_comment_of(#[trigger] r@[i], src[perm[i] as int], web_url@)
                } else {
                    review_comment_of(r@[i], src[perm[i] as int], web_url@)
                }
        }),
{
    let ghost orig_notes = notes@;
    let ghost orig_disc = discussions@;
    let mut pre: Vec<UnifiedPrComment> = Vec::new();
    let mut keys: Vec<(i128, i128)> = Vec::new();
    let n_notes = notes.len();
    let mut rest = notes;
    let mut i: usize = 0;
    while i < n_notes
        invariant
            i <= n_notes == orig_notes.len(),
            rest@ == orig_notes.skip(i as int),
            comments_made_of(pre@, general_notes(orig_notes.take(i as int)), general_notes(orig_notes.take(i as int)).len() as int, web_url@),
            keys@ == note_keys(general_notes(orig_notes.take(i as int))),
        decreases n_notes - i,
    {
        assert(rest@[0] == orig_notes[i as int]);
        let n = rest.remove(0);
        assert(rest@ == orig_notes.skip(i + 1));
        let ghost before = general_notes(orig_notes.take(i as int));
        assert(orig_notes.take(i + 1).drop_last() == orig_notes.take(i as int));
        assert(orig_notes.take(i + 1).last() == n);
        if !n.system && n.position.is_none() {
            let ghost ng = n;
            keys.push((n.created_at, 0));
            let c = general_comment(n, web_url);
            pre.push(c);
            proof {
                let after = before.push(ng);
                assert(general_notes(orig_notes.take(i + 1)) == after);
                assert(keys@ =~= note_keys(after));
                assert forall|k: int| 0 <= k < pre@.len() implies if k < after.len() {
                    general_comment_of(#[trigger] pre@[k], after[k], web_url@)
                } else {
                    review_comment_of(pre@[k], after[k], web_url@)
                } by {
                    if k < before.len() {
                        assert(after[k] == before[k]);
                    }
                }
            }
        }
        i = i + 1;
    }
    assert(orig_notes.take(n_notes as int) == orig_notes);
    let ghost g = general_notes(orig_notes);
    let n_disc = discussions.len();
    let mut drest = discussions;
    let mut j: usize = 0;
    while j < n_disc
        invariant
            j <= n_disc == orig_disc.len(),
            drest@ == orig_disc.skip(j as int),
            g == general_notes(orig_notes),
            comments_made_of(pre@, g + review_notes(orig_disc.take(j as int)), g.len() as int, web_url@),
            keys@ == note_keys(g + review_notes(orig_disc.take(j as int))),
        decreases n_disc - j,
    {
        assert(drest@[0] == orig_disc[j as int]);
        let d = drest.remove(0);
        assert(drest@ == orig_disc.skip(j + 1));
        assert(orig_disc.take(j + 1).drop_last() == orig_disc.take(j as int));
        assert(orig_disc.take(j + 1).last() == d);
        let ghost base = g + review_notes(orig_disc.take(j as int));
        let ghost dnotes = d.notes@;
        let GitLabDiscussion { id: _, notes: dn } = d;
        let m = dn.len();
        let mut nrest = dn;
        let mut k: usize = 0;
        while k < m
            invariant
                k <= m == dnotes.len(),
                nrest@ == dnotes.skip(k as int),
                g.len() <= base.len(),
                comments_made_of(pre@, base + review_notes_of(dnotes.take(k as int)), g.len() as int, web_url@),
                keys@ == note_keys(base + review_notes_of(dnotes.take(k as int))),
            decreases m - k,
        {
            assert(nrest@[0] == dnotes[k as int]);
            let n = nrest.remove(0);
            assert(nrest@ == dnotes.skip(k + 1));
            assert(dnotes.take(k + 1).drop_last() == dnotes.take(k as int));
            assert(dnotes.take(k + 1).last() == n);
            let ghost ng = n;
            let created = n.created_at;
            let ghost before = base + review_notes_of(dnotes.take(k as int));
            match review_comment(n, web_url) {
                Some(c) => {
                    keys.push((created, 0));
                    pre.push(c);
                    proof {
                        let after = before.push(ng);
                        assert(base + review_notes_of(dnotes.take(k + 1)) =~= after);
                        assert(keys@ =~= note_keys(after));
                        assert forall|q: int| 0 <= q < pre@.len() implies if q < g.len() {
                            general_comment_of(#[trigger] pre@[q], after[q], web_url@)
                        } else {
                            review_comment_of(pre@[q], after[q], web_url@)
                        } by {
                            if q < before.len() {
                                assert(after[q] == before[q]);
                            }
                        }
                    }
                },
                None => {
                    assert(base + review_notes_of(dnotes.take(k + 1)) == before);
                },
            }
            k = k + 1;
        }
        assert(dnotes.take(m as int) == dnotes);
        assert(g + review_notes(orig_disc.take(j + 1)) =~= base + review_notes_of(dnotes));
        j = j + 1;
    }
    assert(orig_disc.take(n_disc as int) == orig_disc);
    let ghost src = g + review_notes(orig_disc);
    let ghost pre_v = pre@;
    let r = stable_sort_by_keys(pre, keys);
    proof {
        let perm = choose|perm: Seq<usize>| #![trigger is_stable_order(note_keys(src), perm)]
            is_stable_order(note_keys(src), perm) && r@ == perm.map_values(|i: usize| pre_v[i as int]);
        assert forall|i: int| 0 <= i < r@.len() implies if (perm[i] as int) < g.len() {
            general_comment_of(#[trigger] r@[i], src[perm[i] as int], web_url@)
        } else {
            review_comment_of(r@[i], src[perm[i] as int], web_url@)
        } by {
            assert(r@[i] == pre_v[perm[i] as int]);
            assert(perm[i] < note_keys(src).len());
        }
    }
    r
}

/// A GitLab instance the service talks to, and the token it uses.
#[derive(Debug, Clone)]
pub struct GitLabService {
    pub base_url: String,
    pub token: String,
}

/// The base URL a service keeps: the given one without trailing slashes.
pub open spec fn service_base(base_url: Seq<char>) -> Seq<char> {
    strip_trailing(base_url, '/')
}

impl GitLabService {
    /// A service for the instance at `base_url`: refused without a token
    /// (blank counts as none), or when the base URL does not parse.
    pub fn new(base_url: &str, token: &str) -> (r: Result<GitLabService, GitLabServiceError>)
        ensures
            trim(token@).len() == 0 ==> r matches Err(GitLabServiceError::TokenMissing),
            trim(token@).len() > 0 ==> match url_parse(service_base(base_url@)) {
                Ok(_) => r matches Ok(s) && s.base_url@ == service_base(base_url@) && s.token@ == token@,
                Err(e) => r matches Err(GitLabServiceError::InvalidBaseUrl(m)) && m@ == e,
            },
    {
        if is_blank(token) {
            return Err(GitLabServiceError::TokenMissing);
        }
        let base = strip_trailing_str(base_url, '/');
        match parse_url(base.as_str()) {
            Ok(_) => Ok(GitLabService { base_url: base, token: copy_str(token) }),
            Err(e) => Err(GitLabServiceError::InvalidBaseUrl(e)),
        }
    }

    /// The URL of an API path: the base URL, `/api/v4`, then the path.
    pub fn api_url(&self, path: &str) -> (r: String)
        ensures
            r@ == self.base_url@ + "/api/v4"@ + path@,
    {
        let mut r = copy_str(self.base_url.as_str());
        r.append("/api/v4");
        r.append(path);
        r
    }
}

/// Whether a byte is an ASCII letter or digit.
pub open spec fn is_ascii_alnum(b: u8) -> bool {
    (48 <= b <= 57) || (65 <= b <= 90) || (97 <= b <= 122)
}

/// The uppercase hexadecimal digit of `d < 16`.
pub open spec fn upper_hex(d: int) -> char {
    if d < 10 { ((d + 48) as u32) as char } else { ((d + 55) as u32) as char }
}

/// Bytes percent-encoded with every byte but ASCII letters and digits
/// written as `%XX`.
pub open spec fn percent_encoded(bytes: Seq<u8>) -> Seq<char>
    decreases bytes.len(),
{
    if bytes.len() == 0 {
        Seq::empty()
    } else {
        let b = bytes.last();
        percent_encoded(bytes.drop_last()) + if is_ascii_alnum(b) {
            seq![(b as u32) as char]
        } else {
            seq!['%', upper_hex((b / 16) as int), upper_hex((b % 16) as int)]
        }
    }
}

/// Calls `utf8_percent_encode` with `NON_ALPHANUMERIC`: every UTF-8 byte of
/// the text that is not an ASCII letter or digit is written as `%` and two
/// uppercase hexadecimal digits (that set holds the controls and every ASCII
/// punctuation mark and space; other bytes are never ASCII).
#[verifier::external_body]
fn percent_encode_component(s: &str) -> (r: String)
    ensures
        r@ == percent_encoded(vstd::utf8::encode_utf8(s@)),
{
    utf8_percent_encode(s, NON_ALPHANUMERIC).to_string()
}

/// A project path as the API takes it in a URL.
pub fn encode_project_path(project_path: &str) -> (r: String)
    ensures
        r@ == percent_encoded(vstd::utf8::encode_utf8(project_path@)),
{
    percent_encode_component(project_path)
}

/// `/projects/<project>` followed by `rest`.
fn project_path_prefix(project_path: &str) -> (r: String)
    ensures
        r@ == "/projects/"@ + percent_encoded(vstd::utf8::encode_utf8(project_path@)),
{
    let mut r = copy_str("/projects/");
    let p = encode_project_path(project_path);
    r.append(p.as_str());
    r
}

/// The API path of the merge requests of a project.
pub fn merge_requests_path(project_path: &str) -> (r: String)
    ensures
        r@ == "/projects/"@ + percent_encoded(vstd::utf8::encode_utf8(project_path@)) + "/merge_requests"@,
{
    let mut r = project_path_prefix(project_path);
    r.append("/merge_requests");
    r
}

/// The API path of one merge request, followed by `suffix`.
pub fn merge_request_path(mr: &GitLabMergeRequestRef, suffix: &str) -> (r: String)
    ensures
        r@ == "/projects/"@ + percent_encoded(vstd::utf8::encode_utf8(mr.project_path@)) + "/merge_requests/"@
            + crate::text::signed_decimal(mr.iid as int) + suffix@,
{
    let mut r = project_path_prefix(mr.project_path.as_str());
    r.append("/merge_requests/");
    let n = crate::text::format_i64(mr.iid);
    r.append(n.as_str());
    r.append(suffix);
    r
}

/// How the service reads the HTTP status of a reply.
#[derive(Debug, Clone, Copy, PartialEq, Eq, Structural)]
pub enum ReplyClass {
    Success,
    InsufficientPermissions,
    NotFound,
    Failed,
}

/// The class of a reply's status: success (`200`, and `201` for a post),
/// refused (`401`, `403`), not found (`404`), or failed.
pub open spec fn reply_class(status: u16, is_post: bool) -> ReplyClass {
    if status == 200 || (is_post && status == 201) {
        ReplyClass::Success
    } else if status == 401 || status == 403 {
        ReplyClass::InsufficientPermissions
    } else if status == 404 {
        ReplyClass::NotFound
    } else {
        ReplyClass::Failed
    }
}

/// The class of a reply's status.
pub fn classify_reply(status: u16, is_post: bool) -> (r: ReplyClass)
    ensures
        r == reply_class(status, is_post),
{
    if status == 200 || (is_post && status == 201) {
        ReplyClass::Success
    } else if status == 401 || status == 403 {
        ReplyClass::InsufficientPermissions
    } else if status == 404 {
        ReplyClass::NotFound
    } else {
        ReplyClass::Failed
    }
}

/// The error of a reply with an unexpected status: `status <status>: <body>`.
pub fn failed_reply_error(status_text: &str, body: &str) -> (r: GitLabServiceError)
    ensures
        r matches GitLabServiceError::RequestFailed(m) && m@ == "status "@ + status_text@ + ": "@ + body@,
{
    let mut m = copy_str("status ");
    m.append(status_text);
    m.append(": ");
    m.append(body);
    GitLabServiceError::RequestFailed(m)
}

/// A review comment to place on a line of a merge request's diff.
#[derive(Debug, Clone)]
pub struct CreateGitLabReviewCommentInput {
    pub path: String,
    pub line: i64,
    /// `LEFT` (old side) or `RIGHT` (new side), in any case.
    pub side: String,
    pub body: String,
}

/// The commits a merge request's diff is between.
#[derive(Debug, Clone)]
pub struct GitLabDiffRefs {
    pub base_sha: String,
    pub head_sha: String,
    pub start_sha: String,
}

/// Where a new review comment goes on the diff.
#[derive(Debug, Clone)]
pub struct ReviewPosition {
    pub position_type: String,
    pub base_sha: String,
    pub start_sha: String,
    pub head_sha: String,
    pub new_path: String,
    pub old_path: String,
    pub old_line: Option<i64>,
    pub new_line: Option<i64>,
}

/// What `str::to_uppercase` makes of a text.
pub uninterp spec fn uppercase_of(s: Seq<char>) -> Seq<char>;

/// Calls `str::to_uppercase`; the text depends on its input alone and is
/// named `uppercase_of`.
#[verifier::external_body]
fn to_uppercase_text(s: &str) -> (r: String)
    ensures
        r@ == uppercase_of(s@),
{
    s.to_uppercase()
}

/// The position of a review comment: on the old line when its side, in
/// upper case, is `LEFT`, else on the new line; both paths are its path.
pub fn review_position(refs: &GitLabDiffRefs, comment: &CreateGitLabReviewCommentInput) -> (r: ReviewPosition)
    ensures
        r.position_type@ == "text"@,
        r.base_sha == refs.base_sha,
        r.start_sha == refs.start_sha,
        r.head_sha == refs.head_sha,
        r.new_path == comment.path,
        r.old_path == comment.path,
        uppercase_of(comment.side@) == "LEFT"@ ==> r.old_line == Some(comment.line) && r.new_line is None,
        uppercase_of(comment.side@) != "LEFT"@ ==> r.new_line == Some(comment.line) && r.old_line is None,
{
    let side = to_uppercase_text(comment.side.as_str());
    let left = str_eq(side.as_str(), "LEFT");
    ReviewPosition {
        position_type: copy_str("text"),
        base_sha: refs.base_sha.clone(),
        start_sha: refs.start_sha.clone(),
        head_sha: refs.head_sha.clone(),
        new_path: comment.path.clone(),
        old_path: comment.path.clone(),
        old_line: if left { Some(comment.line) } else { None },
        new_line: if left { None } else { Some(comment.line) },
    }
}

/// A merge request as the list endpoint reports it.
#[derive(Debug, Clone)]
pub struct GitLabMergeRequestListItem {
    pub iid: i64,
    pub web_url: String,
    pub state: String,
    pub merged_at: Option<i128>,
    pub merge_commit_sha: Option<String>,
}

/// What the service tells of a merge request.
#[derive(Debug, Clone)]
pub struct GitLabMergeRequestInfo {
    pub iid: i64,
    pub url: String,
    pub state: String,
    pub merged_at: Option<i128>,
    pub merge_commit_sha: Option<String>,
}

/// Whether `info` tells what `item` reported.
pub open spec fn info_of(info: GitLabMergeRequestInfo, item: GitLabMergeRequestListItem) -> bool {
    &&& info.iid == item.iid
    &&& info.url == item.web_url
    &&& info.state == item.state
    &&& info.merged_at == item.merged_at
    &&& info.merge_commit_sha == item.merge_commit_sha
}

/// The merge requests of a list reply, in order.
pub fn merge_request_infos(items: Vec<GitLabMergeRequestListItem>) -> (r: Vec<GitLabMergeRequestInfo>)
    ensures
        r@.len() == items@.len(),
        forall|i: int| 0 <= i < r@.len() ==> info_of(#[trigger] r@[i], items@[i]),
{
    let ghost orig = items@;
    let n = items.len();
    let mut rest = items;
    let mut out: Vec<GitLabMergeRequestInfo> = Vec::new();
    let mut i: usize = 0;
    while i < n
        invariant
            i <= n == orig.len(),
            rest@ == orig.skip(i as int),
            out@.len() == i,
            forall|k: int| 0 <= k < i ==> info_of(#[trigger] out@[k], orig[k]),
        decreases n - i,
    {
        assert(rest@[0] == orig[i as int]);
        let it = rest.remove(0);
        assert(rest@ == orig.skip(i + 1));
        out.push(GitLabMergeRequestInfo {
            iid: it.iid,
            url: it.web_url,
            state: it.state,
            merged_at: it.merged_at,
            merge_commit_sha: it.merge_commit_sha,
        });
        i = i + 1;
    }
    out
}

/// The query of the merge requests of a source branch: any state, twenty
/// at most.
pub fn branch_merge_requests_query(source_branch: &str) -> (r: Vec<(String, String)>)
    ensures
        r@.len() == 3,
        r@[0].0@ == "state"@ && r@[0].1@ == "all"@,
        r@[1].0@ == "source_branch"@ && r@[1].1@ == source_branch@,
        r@[2].0@ == "per_page"@ && r@[2].1@ == "20"@,
{
    let mut q: Vec<(String, String)> = Vec::new();
    q.push((copy_str("state"), copy_str("all")));
    q.push((copy_str("source_branch"), copy_str(source_branch)));
    q.push((copy_str("per_page"), copy_str("20")));
    q
}

} // verus!
