//! Code-host webhooks: which requests are accepted, what a pull (merge)
//! request event says of its merge, which tasks a merged pull request
//! completes, and what is recorded of each delivery and repository.
use vstd::prelude::*;
use crate::merge::MergeStatus;
use crate::text::{str_eq, is_blank, trim, hex_digit};
use crate::ordering::{first_occurrences, dedup_ids};
use sha2::{Digest, Sha256};

verus! {

/// A GitHub pull request, as a `pull_request` event reports it.
#[derive(Debug, Clone)]
pub struct GitHubPullRequest {
    pub html_url: String,
    pub state: String,
    pub merged: bool,
    pub merge_commit_sha: Option<String>,
}

/// The merge status a GitHub pull request reports.
pub open spec fn github_status_of(merged: bool, state: Seq<char>) -> MergeStatus {
    if merged {
        MergeStatus::Merged
    } else if state == "open"@ {
        MergeStatus::Open
    } else if state == "closed"@ {
        MergeStatus::Closed
    } else {
        MergeStatus::Unknown
    }
}

/// The merge status of a GitHub pull request: merged when it says so, else
/// open or closed by its state, else unknown.
pub fn github_pr_status(pr: &GitHubPullRequest) -> (r: MergeStatus)
    ensures
        r == github_status_of(pr.merged, pr.state@),
{
    if pr.merged {
        return MergeStatus::Merged;
    }
    if str_eq(pr.state.as_str(), "open") {
        MergeStatus::Open
    } else if str_eq(pr.state.as_str(), "closed") {
        MergeStatus::Closed
    } else {
        MergeStatus::Unknown
    }
}

/// A GitLab merge request, as a `merge_request` event reports it.
#[derive(Debug, Clone)]
pub struct GitLabMergeRequestAttributes {
    pub url: String,
    pub web_url: Option<String>,
    pub state: String,
    pub merged_at: Option<String>,
    pub merge_commit_sha: Option<String>,
}

/// The merge status a GitLab merge request reports.
pub open spec fn gitlab_status_of(merged: bool, state: Seq<char>) -> MergeStatus {
    if merged {
        MergeStatus::Merged
    } else if state == "opened"@ {
        MergeStatus::Open
    } else if state == "merged"@ {
        MergeStatus::Merged
    } else if state == "closed"@ {
        MergeStatus::Closed
    } else {
        MergeStatus::Unknown
    }
}

/// The merge status of a GitLab merge request: merged when it has a merge
/// time, else by its state (`opened`, `merged`, `closed`), else unknown.
pub fn gitlab_mr_status(attrs: &GitLabMergeRequestAttributes) -> (r: MergeStatus)
    ensures
        r == gitlab_status_of(attrs.merged_at is Some, attrs.state@),
{
    if attrs.merged_at.is_some() {
        return MergeStatus::Merged;
    }
    if str_eq(attrs.state.as_str(), "opened") {
        MergeStatus::Open
    } else if str_eq(attrs.state.as_str(), "merged") {
        MergeStatus::Merged
    } else if str_eq(attrs.state.as_str(), "closed") {
        MergeStatus::Closed
    } else {
        MergeStatus::Unknown
    }
}

/// The URL a GitLab merge request is known by: its web URL when it has one,
/// else its API URL.
pub fn gitlab_merge_request_url(attrs: &GitLabMergeRequestAttributes) -> (r: &str)
    ensures
        r@ == match attrs.web_url {
            Some(w) => w@,
            None => attrs.url@,
        },
{
    match &attrs.web_url {
        Some(w) => w.as_str(),
        None => attrs.url.as_str(),
    }
}

/// Whether two byte strings are equal, looking at every byte of equal-length
/// inputs whatever they hold.
pub fn constant_time_eq(a: &[u8], b: &[u8]) -> (r: bool)
    ensures
        r == (a@ == b@),
{
    if a.len() != b.len() {
        return false;
    }
    let mut diff: u8 = 0;
    let mut i: usize = 0;
    while i < a.len()
        invariant
            i <= a@.len() == b@.len(),
            (diff == 0) == (forall|k: int| 0 <= k < i ==> a@[k] == b@[k]),
        decreases a@.len() - i,
    {
        let x = a[i];
        let y = b[i];
        let d = diff | (x ^ y);
        assert((d == 0) == (diff == 0 && x == y)) by (bit_vector)
            requires
                d == diff | (x ^ y),
        ;
        diff = d;
        i = i + 1;
    }
    if diff == 0 {
        assert(a@ =~= b@);
    }
    diff == 0
}

/// The secret a webhook is checked against: the primary setting unless it
/// is missing or blank, else the fallback unless it is missing or blank.
pub open spec fn chosen_secret(primary: Option<Seq<char>>, fallback: Option<Seq<char>>) -> Option<Seq<char>> {
    match primary {
        Some(p) if trim(p).len() > 0 => Some(p),
        _ => match fallback {
            Some(f) if trim(f).len() > 0 => Some(f),
            _ => None,
        },
    }
}

/// The option of texts by their characters.
pub open spec fn opt_view(o: Option<String>) -> Option<Seq<char>> {
    match o {
        Some(s) => Some(s@),
        None => None,
    }
}

/// The secret to check a webhook against, from the values of its primary
/// and fallback settings.
pub fn pick_secret(primary: Option<String>, fallback: Option<String>) -> (r: Option<String>)
    ensures
        opt_view(r) == chosen_secret(opt_view(primary), opt_view(fallback)),
{
    match primary {
        Some(p) => {
            if !is_blank(p.as_str()) {
                return Some(p);
            }
        },
        None => {},
    }
    match fallback {
        Some(f) => {
            if !is_blank(f.as_str()) {
                Some(f)
            } else {
                None
            }
        },
        None => None,
    }
}

/// Why a webhook request is refused: the HTTP status and the message.
#[derive(Debug, Clone, Copy)]
pub struct WebhookRejection {
    pub status: u16,
    pub message: &'static str,
}

/// A GitHub delivery whose headers are all there and whose secret is set.
#[derive(Debug, Clone)]
pub struct GitHubDelivery {
    pub event: String,
    pub delivery_id: String,
    pub signature: String,
    pub secret: String,
}

/// The refusal of a GitHub request, if any, by which of its parts is
/// missing, in the order they are checked.
pub open spec fn github_gate_refusal(event: bool, delivery: bool, signature: bool, secret: bool) -> Option<(u16, Seq<char>)> {
    if !event {
        Some((400u16, "missing X-GitHub-Event"@))
    } else if !delivery {
        Some((400u16, "missing X-GitHub-Delivery"@))
    } else if !signature {
        Some((401u16, "missing X-Hub-Signature-256"@))
    } else if !secret {
        Some((501u16, "GitHub webhooks not configured (missing webhook secret)"@))
    } else {
        None
    }
}

/// Checks that a GitHub request names its event, its delivery and its
/// signature, and that a secret is configured.
pub fn github_request_gate(
    event: Option<String>,
    delivery_id: Option<String>,
    signature: Option<String>,
    secret: Option<String>,
) -> (r: Result<GitHubDelivery, WebhookRejection>)
    ensures
        ({
            let refusal = github_gate_refusal(event is Some, delivery_id is Some, signature is Some, secret is Some);
            match r {
                Ok(d) => refusal is None && Some(d.event) == event && Some(d.delivery_id) == delivery_id
                    && Some(d.signature) == signature && Some(d.secret) == secret,
                Err(e) => refusal == Some((e.status, e.message@)),
            }
        }),
{
    let Some(event) = event else {
        return Err(WebhookRejection { status: 400, message: "missing X-GitHub-Event" });
    };
    let Some(delivery_id) = delivery_id else {
        return Err(WebhookRejection { status: 400, message: "missing X-GitHub-Delivery" });
    };
    let Some(signature) = signature else {
        return Err(WebhookRejection { status: 401, message: "missing X-Hub-Signature-256" });
    };
    let Some(secret) = secret else {
        return Err(WebhookRejection { status: 501, message: "GitHub webhooks not configured (missing webhook secret)" });
    };
    Ok(GitHubDelivery { event, delivery_id, signature, secret })
}

/// The step after a GitHub request passed its gate: a body whose
/// `X-Hub-Signature-256` signature does not check out against the secret is
/// refused with 401 "invalid signature".
pub fn signature_gate(signature_valid: bool) -> (r: Result<(), WebhookRejection>)
    ensures
        r is Ok <==> signature_valid,
        r matches Err(e) ==> e.status == 401 && e.message@ == "invalid signature"@,
{
    if signature_valid {
        Ok(())
    } else {
        Err(WebhookRejection { status: 401, message: "invalid signature" })
    }
}

/// A GitLab delivery whose headers are all there and whose token matched.
#[derive(Debug, Clone)]
pub struct GitLabDelivery {
    pub event: String,
    pub delivery_id: String,
}

/// The refusal of a GitLab request, if any, in the order its parts are
/// checked; the token is compared only when all else is there.
pub open spec fn gitlab_gate_refusal(
    event: bool,
    delivery: bool,
    token: Option<Seq<char>>,
    expected: Option<Seq<char>>,
) -> Option<(u16, Seq<char>)> {
    if !event {
        Some((400u16, "missing X-Gitlab-Event"@))
    } else if !delivery {
        Some((400u16, "missing X-Gitlab-Event-UUID (or X-Request-Id)"@))
    } else if token is None {
        Some((401u16, "missing X-Gitlab-Token"@))
    } else if expected is None {
        Some((501u16, "GitLab webhooks not configured (missing webhook token)"@))
    } else if token.unwrap() != expected.unwrap() {
        Some((401u16, "invalid token"@))
    } else {
        None
    }
}

/// Bytes of a text in UTF-8.
fn text_bytes(s: &str) -> (r: &[u8])
    ensures
        r@ == vstd::utf8::encode_utf8(s@),
{
    s.as_bytes()
}

/// Checks that a GitLab request names its event and its delivery (its event
/// UUID, else its request id) and carries the configured token.
pub fn gitlab_request_gate(
    event: Option<String>,
    event_uuid: Option<String>,
    request_id: Option<String>,
    token: Option<String>,
    expected: Option<String>,
) -> (r: Result<GitLabDelivery, WebhookRejection>)
    ensures
        ({
            let refusal = gitlab_gate_refusal(
                event is Some,
                event_uuid is Some || request_id is Some,
                opt_view(token),
                opt_view(expected),
            );
            match r {
                Ok(d) => refusal is None && Some(d.event) == event
                    && Some(d.delivery_id) == if event_uuid is Some { event_uuid } else { request_id },
                Err(e) => refusal == Some((e.status, e.message@)),
            }
        }),
{
    let Some(event) = event else {
        return Err(WebhookRejection { status: 400, message: "missing X-Gitlab-Event" });
    };
    let delivery_id = match event_uuid {
        Some(u) => u,
        None => match request_id {
            Some(r) => r,
            None => {
                return Err(WebhookRejection { status: 400, message: "missing X-Gitlab-Event-UUID (or X-Request-Id)" });
            },
        },
    };
    let Some(token) = token else {
        return Err(WebhookRejection { status: 401, message: "missing X-Gitlab-Token" });
    };
    let Some(expected) = expected else {
        return Err(WebhookRejection { status: 501, message: "GitLab webhooks not configured (missing webhook token)" });
    };
    let same = constant_time_eq(text_bytes(token.as_str()), text_bytes(expected.as_str()));
    proof {
        vstd::utf8::encode_utf8_decode_utf8(token@);
        vstd::utf8::encode_utf8_decode_utf8(expected@);
    }
    if !same {
        return Err(WebhookRejection { status: 401, message: "invalid token" });
    }
    Ok(GitLabDelivery { event, delivery_id })
}

/// What a GitHub event is, by its event header.
#[derive(Debug, Clone, Copy, PartialEq, Eq, Structural)]
pub enum GitHubEventKind {
    PullRequest,
    Push,
    CheckRun,
    Other,
}

/// The kind of a GitHub event named `event`.
pub open spec fn github_kind_of(event: Seq<char>) -> GitHubEventKind {
    if event == "pull_request"@ {
        GitHubEventKind::PullRequest
    } else if event == "push"@ {
        GitHubEventKind::Push
    } else if event == "check_run"@ {
        GitHubEventKind::CheckRun
    } else {
        GitHubEventKind::Other
    }
}

/// The kind of a GitHub event, by its event header.
pub fn github_event_kind(event: &str) -> (r: GitHubEventKind)
    ensures
        r == github_kind_of(event@),
{
    if str_eq(event, "pull_request") {
        GitHubEventKind::PullRequest
    } else if str_eq(event, "push") {
        GitHubEventKind::Push
    } else if str_eq(event, "check_run") {
        GitHubEventKind::CheckRun
    } else {
        GitHubEventKind::Other
    }
}

/// What a GitLab event is, by the `object_kind` of its payload.
#[derive(Debug, Clone, Copy, PartialEq, Eq, Structural)]
pub enum GitLabEventKind {
    MergeRequest,
    Push,
    Other,
}

/// The kind of a GitLab event whose payload has this `object_kind`.
pub open spec fn gitlab_kind_of(kind: Seq<char>) -> GitLabEventKind {
    if kind == "merge_request"@ {
        GitLabEventKind::MergeRequest
    } else if kind == "push"@ {
        GitLabEventKind::Push
    } else {
        GitLabEventKind::Other
    }
}

/// The kind of a GitLab event, by its payload's `object_kind`.
pub fn gitlab_event_kind(object_kind: &str) -> (r: GitLabEventKind)
    ensures
        r == gitlab_kind_of(object_kind@),
{
    if str_eq(object_kind, "merge_request") {
        GitLabEventKind::MergeRequest
    } else if str_eq(object_kind, "push") {
        GitLabEventKind::Push
    } else {
        GitLabEventKind::Other
    }
}

/// What handling an event did.
#[derive(Debug, Clone, Copy)]
pub struct ProcessResult {
    pub status: &'static str,
    pub updated_merges: usize,
    pub updated_tasks: usize,
}

/// An event that changed nothing.
pub fn ignored_result() -> (r: ProcessResult)
    ensures
        r.status@ == "ignored"@,
        r.updated_merges == 0,
        r.updated_tasks == 0,
{
    ProcessResult { status: "ignored", updated_merges: 0, updated_tasks: 0 }
}

/// An event that was recorded without touching merges or tasks.
pub fn recorded_result() -> (r: ProcessResult)
    ensures
        r.status@ == "processed"@,
        r.updated_merges == 0,
        r.updated_tasks == 0,
{
    ProcessResult { status: "processed", updated_merges: 0, updated_tasks: 0 }
}

/// The result of a pull-request event: ignored when no merge had its URL,
/// else processed, with the merges and tasks it updated.
pub fn pull_request_result(updated_merges: usize, updated_tasks: usize) -> (r: ProcessResult)
    ensures
        updated_merges == 0 ==> r.status@ == "ignored"@ && r.updated_merges == 0 && r.updated_tasks == 0,
        updated_merges > 0 ==> r.status@ == "processed"@ && r.updated_merges == updated_merges
            && r.updated_tasks == updated_tasks,
{
    if updated_merges == 0 {
        ignored_result()
    } else {
        ProcessResult { status: "processed", updated_merges, updated_tasks }
    }
}

/// The tasks a pull-request update completes: when the pull request is
/// merged, the task of each merge's workspace (where the workspace is
/// found), each once, in order; otherwise none.
pub open spec fn completed_tasks(status: MergeStatus, workspace_tasks: Seq<Option<u128>>) -> Seq<u128> {
    if status == MergeStatus::Merged {
        first_occurrences(found_tasks(workspace_tasks))
    } else {
        Seq::empty()
    }
}

/// The tasks of the workspaces that were found, in order.
pub open spec fn found_tasks(workspace_tasks: Seq<Option<u128>>) -> Seq<u128>
    decreases workspace_tasks.len(),
{
    if workspace_tasks.len() == 0 {
        Seq::empty()
    } else {
        let prev = found_tasks(workspace_tasks.drop_last());
        match workspace_tasks.last() {
            Some(t) => prev.push(t),
            None => prev,
        }
    }
}

/// A merged pull request completes the task of every workspace found among
/// its merges, each task once; a pull request in any other state completes
/// none.
pub proof fn lemma_completed_tasks_once(status: MergeStatus, workspace_tasks: Seq<Option<u128>>, t: u128)
    ensures
        completed_tasks(status, workspace_tasks).no_duplicates(),
        completed_tasks(status, workspace_tasks).contains(t) <==> (status == MergeStatus::Merged
            && workspace_tasks.contains(Some(t))),
{
    crate::ordering::lemma_first_occurrences(found_tasks(workspace_tasks));
    lemma_found_tasks(workspace_tasks, t);
}

proof fn lemma_found_tasks(workspace_tasks: Seq<Option<u128>>, t: u128)
    ensures
        found_tasks(workspace_tasks).contains(t) <==> workspace_tasks.contains(Some(t)),
    decreases workspace_tasks.len(),
{
    if workspace_tasks.len() > 0 {
        let prev = workspace_tasks.drop_last();
        lemma_found_tasks(prev, t);
        let fp = found_tasks(prev);
        let f = found_tasks(workspace_tasks);
        if fp.contains(t) {
            let w = choose|w: int| 0 <= w < fp.len() && fp[w] == t;
            assert(f[w] == t);
        }
        if prev.contains(Some(t)) {
            let w = choose|w: int| 0 <= w < prev.len() && prev[w] == Some(t);
            assert(workspace_tasks[w] == Some(t));
        }
        if workspace_tasks.last() == Some(t) {
            assert(f[fp.len() as int] == t);
            assert(workspace_tasks[workspace_tasks.len() - 1] == Some(t));
        }
        if f.contains(t) {
            let w = choose|w: int| 0 <= w < f.len() && f[w] == t;
            if w < fp.len() {
                assert(fp[w] == t);
            }
        }
        if workspace_tasks.contains(Some(t)) {
            let w = choose|w: int| 0 <= w < workspace_tasks.len() && workspace_tasks[w] == Some(t);
            if w < prev.len() {
                assert(prev[w] == Some(t));
            }
        }
    }
}

/// The tasks to mark done after a pull request of `status` updated merges
/// whose workspaces hold the tasks `workspace_tasks` (`None` where the
/// workspace is gone).
pub fn merged_task_ids(status: MergeStatus, workspace_tasks: &Vec<Option<u128>>) -> (r: Vec<u128>)
    ensures
        r@ == completed_tasks(status, workspace_tasks@),
{
    if status != MergeStatus::Merged {
        return Vec::new();
    }
    let mut found: Vec<u128> = Vec::new();
    let mut i: usize = 0;
    while i < workspace_tasks.len()
        invariant
            i <= workspace_tasks@.len(),
            found@ == found_tasks(workspace_tasks@.take(i as int)),
        decreases workspace_tasks@.len() - i,
    {
        assert(workspace_tasks@.take(i + 1).drop_last() == workspace_tasks@.take(i as int));
        assert(workspace_tasks@.take(i + 1).last() == workspace_tasks@[i as int]);
        match workspace_tasks[i] {
            Some(t) => found.push(t),
            None => {},
        }
        i = i + 1;
    }
    assert(workspace_tasks@.take(workspace_tasks@.len() as int) == workspace_tasks@);
    dedup_ids(&found)
}

/// The reply to a webhook delivery once its signature or token checked out.
#[derive(Debug, Clone)]
pub struct WebhookAck {
    pub provider: &'static str,
    pub event: String,
    pub delivery_id: String,
    pub status: &'static str,
    pub deduped: bool,
    pub updated_merges: usize,
    pub updated_tasks: usize,
}

/// The reply to a checked delivery: a store failure is a server error; a
/// delivery seen before is acknowledged as a duplicate; otherwise the reply
/// acknowledges what handling it did, or is a server error when handling
/// failed (`None`).
pub fn delivery_reply(
    provider: &'static str,
    event: String,
    delivery_id: String,
    stored: Option<bool>,
    handled: Option<ProcessResult>,
) -> (r: Result<WebhookAck, WebhookRejection>)
    ensures
        stored is None ==> (r matches Err(e) && e.status == 500 && e.message@ == "failed to store delivery"@),
        stored == Some(false) ==> (r matches Ok(a) && a.provider == provider && a.event == event
            && a.delivery_id == delivery_id && a.status@ == "duplicate"@ && a.deduped && a.updated_merges == 0
            && a.updated_tasks == 0),
        stored == Some(true) && handled is None ==> (r matches Err(e) && e.status == 500
            && e.message@ == "webhook processing failed"@),
        stored == Some(true) && handled is Some ==> (r matches Ok(a) && a.provider == provider && a.event == event
            && a.delivery_id == delivery_id && a.status == handled.unwrap().status && !a.deduped
            && a.updated_merges == handled.unwrap().updated_merges && a.updated_tasks == handled.unwrap().updated_tasks),
{
    match stored {
        None => Err(WebhookRejection { status: 500, message: "failed to store delivery" }),
        Some(false) => Ok(WebhookAck {
            provider,
            event,
            delivery_id,
            status: "duplicate",
            deduped: true,
            updated_merges: 0,
            updated_tasks: 0,
        }),
        Some(true) => match handled {
            Some(res) => Ok(WebhookAck {
                provider,
                event,
                delivery_id,
                status: res.status,
                deduped: false,
                updated_merges: res.updated_merges,
                updated_tasks: res.updated_tasks,
            }),
            None => Err(WebhookRejection { status: 500, message: "webhook processing failed" }),
        },
    }
}

/// The status a delivery is marked with once handled: what handling said,
/// or `failed`.
pub fn delivery_mark(handled: Option<ProcessResult>) -> (r: &'static str)
    ensures
        handled matches Some(res) ==> r == res.status,
        handled is None ==> r@ == "failed"@,
{
    match handled {
        Some(res) => res.status,
        None => "failed",
    }
}

/// The most payload bytes a delivery record keeps.
pub const MAX_STORED_PAYLOAD_BYTES: usize = 200_000;

/// The SHA-256 digest of some bytes, as `sha2` computes it.
pub uninterp spec fn sha256_of(data: Seq<u8>) -> Seq<u8>;

/// Calls `Sha256::digest`: the digest depends on the bytes alone and is
/// named `sha256_of`; it is 32 bytes long, as the `Sha256` output type is.
#[verifier::external_body]
fn sha256_digest(data: &[u8]) -> (r: Vec<u8>)
    ensures
        r@ == sha256_of(data@),
        r@.len() == 32,
{
    Sha256::digest(data).to_vec()
}

/// The text `String::from_utf8_lossy` makes of some bytes.
pub uninterp spec fn utf8_lossy(bytes: Seq<u8>) -> Seq<char>;

/// Calls `String::from_utf8_lossy`: the text depends on the bytes alone and
/// is named `utf8_lossy`; of valid UTF-8 it is the text those bytes encode,
/// as its documentation says. What it makes of invalid bytes is not stated.
#[verifier::external_body]
fn lossy_text(bytes: &[u8]) -> (r: String)
    ensures
        r@ == utf8_lossy(bytes@),
        vstd::utf8::valid_utf8(bytes@) ==> r@ == vstd::utf8::decode_utf8(bytes@),
{
    String::from_utf8_lossy(bytes).to_string()
}

/// Bytes as lowercase hexadecimal, two digits per byte.
pub open spec fn hex_text(bytes: Seq<u8>) -> Seq<char>
    decreases bytes.len(),
{
    if bytes.len() == 0 {
        Seq::empty()
    } else {
        hex_text(bytes.drop_last()).push(hex_digit((bytes.last() / 16) as int)).push(hex_digit((bytes.last() % 16) as int))
    }
}

/// The hexadecimal digit of `d < 16`.
fn hex_digit_of(d: u8) -> (c: char)
    requires
        d < 16,
    ensures
        c == hex_digit(d as int),
{
    if d < 10 {
        let b: u8 = d + 48;
        b as char
    } else {
        let b: u8 = d + 87;
        b as char
    }
}

/// Bytes as lowercase hexadecimal.
pub fn bytes_to_hex(bytes: &[u8]) -> (r: String)
    ensures
        r@ == hex_text(bytes@),
{
    let mut s = String::new();
    let mut i: usize = 0;
    while i < bytes.len()
        invariant
            i <= bytes@.len(),
            s@ == hex_text(bytes@.take(i as int)),
        decreases bytes@.len() - i,
    {
        assert(bytes@.take(i + 1).drop_last() == bytes@.take(i as int));
        assert(bytes@.take(i + 1).last() == bytes@[i as int]);
        let b = bytes[i];
        crate::text::string_push(&mut s, hex_digit_of(b / 16));
        crate::text::string_push(&mut s, hex_digit_of(b % 16));
        i = i + 1;
    }
    assert(bytes@.take(bytes@.len() as int) == bytes@);
    s
}

/// What a delivery record keeps of a payload.
#[derive(Debug, Clone)]
pub struct DeliveryPayload {
    pub payload_bytes: i64,
    pub payload_sha256: String,
    pub payload_truncated: bool,
    pub payload_json: String,
}

/// The bytes of a payload a delivery record keeps.
pub open spec fn stored_bytes(payload: Seq<u8>) -> Seq<u8> {
    if payload.len() > MAX_STORED_PAYLOAD_BYTES {
        payload.take(MAX_STORED_PAYLOAD_BYTES as int)
    } else {
        payload
    }
}

/// The first `n` bytes of a payload.
fn prefix_bytes(payload: &[u8], n: usize) -> (r: Vec<u8>)
    requires
        n <= payload@.len(),
    ensures
        r@ == payload@.take(n as int),
{
    let mut out: Vec<u8> = Vec::new();
    let mut i: usize = 0;
    while i < n
        invariant
            i <= n <= payload@.len(),
            out@ == payload@.take(i as int),
        decreases n - i,
    {
        out.push(payload[i]);
        assert(payload@.take(i + 1) == payload@.take(i as int).push(payload@[i as int]));
        i = i + 1;
    }
    out
}

/// What a delivery record keeps of a payload: its length, its SHA-256 in
/// hexadecimal, whether it was cut, and (as text) its first 200 000 bytes.
pub fn delivery_payload(payload: &[u8]) -> (r: DeliveryPayload)
    requires
        payload@.len() <= i64::MAX,
    ensures
        r.payload_bytes == payload@.len(),
        r.payload_sha256@ == hex_text(sha256_of(payload@)),
        r.payload_truncated == (payload@.len() > MAX_STORED_PAYLOAD_BYTES),
        r.payload_json@ == utf8_lossy(stored_bytes(payload@)),
{
    let digest = sha256_digest(payload);
    let payload_sha256 = bytes_to_hex(digest.as_slice());
    let truncated = payload.len() > MAX_STORED_PAYLOAD_BYTES;
    let payload_json = if truncated {
        let kept = prefix_bytes(payload, MAX_STORED_PAYLOAD_BYTES);
        lossy_text(kept.as_slice())
    } else {
        lossy_text(payload)
    };
    DeliveryPayload {
        payload_bytes: payload.len() as i64,
        payload_sha256,
        payload_truncated: truncated,
        payload_json,
    }
}

/// A GitHub `pull_request` event.
#[derive(Debug, Clone)]
pub struct GitHubPullRequestEvent {
    pub pull_request: GitHubPullRequest,
}

/// A GitHub repository, as events name it.
#[derive(Debug, Clone)]
pub struct GitHubRepo {
    pub full_name: String,
}

/// A GitHub `push` event.
#[derive(Debug, Clone)]
pub struct GitHubPushEvent {
    pub git_ref: String,
    pub after: String,
    pub repository: GitHubRepo,
}

/// A GitHub check run.
#[derive(Debug, Clone)]
pub struct GitHubCheckRun {
    pub head_sha: String,
    pub status: Option<String>,
    pub conclusion: Option<String>,
}

/// A GitHub `check_run` event.
#[derive(Debug, Clone)]
pub struct GitHubCheckRunEvent {
    pub check_run: GitHubCheckRun,
    pub repository: GitHubRepo,
}

/// What every GitLab event payload says of its kind.
#[derive(Debug, Clone)]
pub struct GitLabBaseEvent {
    pub object_kind: String,
}

/// A GitLab `merge_request` event.
#[derive(Debug, Clone)]
pub struct GitLabMergeRequestEvent {
    pub object_attributes: Option<GitLabMergeRequestAttributes>,
}

/// A GitLab project, as events name it.
#[derive(Debug, Clone)]
pub struct GitLabProject {
    pub path_with_namespace: String,
}

/// A GitLab `push` event.
#[derive(Debug, Clone)]
pub struct GitLabPushEvent {
    pub git_ref: String,
    pub checkout_sha: Option<String>,
    pub after: Option<String>,
    pub project: GitLabProject,
}

/// What an event says of a repository's latest push and check run; a field
/// left `None` is not reported.
#[derive(Debug, Clone)]
pub struct RepoStateUpdate {
    pub provider: &'static str,
    pub repo_key: String,
    pub last_push_ref: Option<String>,
    pub last_push_sha: Option<String>,
    pub last_check_run_sha: Option<String>,
    pub last_check_run_status: Option<String>,
    pub last_check_run_conclusion: Option<String>,
}

/// What is known of a repository's latest push and check run.
#[derive(Debug, Clone)]
pub struct RepoState {
    pub last_push_ref: Option<String>,
    pub last_push_sha: Option<String>,
    pub last_check_run_sha: Option<String>,
    pub last_check_run_status: Option<String>,
    pub last_check_run_conclusion: Option<String>,
}

/// The state update of a GitHub push: the repository's full name, the ref
/// and the commit pushed.
pub fn github_push_update(payload: GitHubPushEvent) -> (r: RepoStateUpdate)
    ensures
        r.provider@ == "github"@,
        r.repo_key == payload.repository.full_name,
        r.last_push_ref == Some(payload.git_ref),
        r.last_push_sha == Some(payload.after),
        r.last_check_run_sha is None,
        r.last_check_run_status is None,
        r.last_check_run_conclusion is None,
{
    RepoStateUpdate {
        provider: "github",
        repo_key: payload.repository.full_name,
        last_push_ref: Some(payload.git_ref),
        last_push_sha: Some(payload.after),
        last_check_run_sha: None,
        last_check_run_status: None,
        last_check_run_conclusion: None,
    }
}

/// The state update of a GitHub check run: its commit, status and
/// conclusion.
pub fn github_check_run_update(payload: GitHubCheckRunEvent) -> (r: RepoStateUpdate)
    ensures
        r.provider@ == "github"@,
        r.repo_key == payload.repository.full_name,
        r.last_push_ref is None,
        r.last_push_sha is None,
        r.last_check_run_sha == Some(payload.check_run.head_sha),
        r.last_check_run_status == payload.check_run.status,
        r.last_check_run_conclusion == payload.check_run.conclusion,
{
    RepoStateUpdate {
        provider: "github",
        repo_key: payload.repository.full_name,
        last_push_ref: None,
        last_push_sha: None,
        last_check_run_sha: Some(payload.check_run.head_sha),
        last_check_run_status: payload.check_run.status,
        last_check_run_conclusion: payload.check_run.conclusion,
    }
}

/// The state update of a GitLab push: the project's path, the ref, and the
/// checked-out commit (else the `after` commit).
pub fn gitlab_push_update(payload: GitLabPushEvent) -> (r: RepoStateUpdate)
    ensures
        r.provider@ == "gitlab"@,
        r.repo_key == payload.project.path_with_namespace,
        r.last_push_ref == Some(payload.git_ref),
        r.last_push_sha == if payload.checkout_sha is Some { payload.checkout_sha } else { payload.after },
        r.last_check_run_sha is None,
        r.last_check_run_status is None,
        r.last_check_run_conclusion is None,
{
    let sha = match payload.checkout_sha {
        Some(s) => Some(s),
        None => payload.after,
    };
    RepoStateUpdate {
        provider: "gitlab",
        repo_key: payload.project.path_with_namespace,
        last_push_ref: Some(payload.git_ref),
        last_push_sha: sha,
        last_check_run_sha: None,
        last_check_run_status: None,
        last_check_run_conclusion: None,
    }
}

/// A reported value replaces the stored one; an unreported one keeps it.
pub open spec fn coalesce(new: Option<String>, old: Option<String>) -> Option<String> {
    if new is Some { new } else { old }
}

fn coalesce_field(new: &Option<String>, old: Option<String>) -> (r: Option<String>)
    ensures
        r == coalesce(*new, old),
{
    match new {
        Some(s) => Some(s.clone()),
        None => old,
    }
}

/// A reported value always wins: whatever was stored, a field the update
/// reports (`Some(v)`) becomes `v`, and only a field it leaves out keeps
/// what was stored.
pub proof fn lemma_reported_value_wins(new: Option<String>, old: Option<String>)
    ensures
        new matches Some(v) ==> coalesce(new, old) == Some(v),
        new is None ==> coalesce(new, old) == old,
{
}

/// A repository's state after an update: each reported field replaces the
/// stored one and every other field keeps its value (a repository not seen
/// before starts with nothing known).
pub fn apply_repo_state(current: Option<RepoState>, update: &RepoStateUpdate) -> (r: RepoState)
    ensures
        ({
            let old = match current {
                Some(c) => c,
                None => RepoState {
                    last_push_ref: None,
                    last_push_sha: None,
                    last_check_run_sha: None,
                    last_check_run_status: None,
                    last_check_run_conclusion: None,
                },
            };
            &&& r.last_push_ref == coalesce(update.last_push_ref, old.last_push_ref)
            &&& r.last_push_sha == coalesce(update.last_push_sha, old.last_push_sha)
            &&& r.last_check_run_sha == coalesce(update.last_check_run_sha, old.last_check_run_sha)
            &&& r.last_check_run_status == coalesce(update.last_check_run_status, old.last_check_run_status)
            &&& r.last_check_run_conclusion == coalesce(update.last_check_run_conclusion, old.last_check_run_conclusion)
            &&& update.last_push_ref matches Some(v) ==> r.last_push_ref == Some(v)
            &&& update.last_push_sha matches Some(v) ==> r.last_push_sha == Some(v)
            &&& update.last_check_run_sha matches Some(v) ==> r.last_check_run_sha == Some(v)
            &&& update.last_check_run_status matches Some(v) ==> r.last_check_run_status == Some(v)
            &&& update.last_check_run_conclusion matches Some(v) ==> r.last_check_run_conclusion == Some(v)
            &&& update.last_push_ref is None ==> r.last_push_ref == old.last_push_ref
            &&& update.last_push_sha is None ==> r.last_push_sha == old.last_push_sha
            &&& update.last_check_run_sha is None ==> r.last_check_run_sha == old.last_check_run_sha
            &&& update.last_check_run_status is None ==> r.last_check_run_status == old.last_check_run_status
            &&& update.last_check_run_conclusion is None ==> r.last_check_run_conclusion == old.last_check_run_conclusion
        }),
{
    let old = match current {
        Some(c) => c,
        None => RepoState {
            last_push_ref: None,
            last_push_sha: None,
            last_check_run_sha: None,
            last_check_run_status: None,
            last_check_run_conclusion: None,
        },
    };
    RepoState {
        last_push_ref: coalesce_field(&update.last_push_ref, old.last_push_ref),
        last_push_sha: coalesce_field(&update.last_push_sha, old.last_push_sha),
        last_check_run_sha: coalesce_field(&update.last_check_run_sha, old.last_check_run_sha),
        last_check_run_status: coalesce_field(&update.last_check_run_status, old.last_check_run_status),
        last_check_run_conclusion: coalesce_field(&update.last_check_run_conclusion, old.last_check_run_conclusion),
    }
}

} // verus!
