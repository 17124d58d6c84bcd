//! Backlog grooming: the prompt sent to the model, and the cleanup and strict
//! validation of the draft (acceptance criteria, subtasks, story points) that
//! comes back.
use vstd::prelude::*;
use std::time::Duration;
use crate::text::{find_first, find_first_exec, occurs_at, views, lemma_views_push, chars_of, string_of_range, string_push, strip_leading, strip_leading_str, trim, trim_str};

verus! {

/// The character appended to a truncated item.
pub open spec fn ellipsis() -> char {
    '\u{2026}'
}

/// The longest an item may be, in characters, before it is truncated.
pub const MAX_ITEM_CHARS: usize = 280;

/// `s` cut to `max` characters followed by an ellipsis when it is longer.
pub open spec fn truncated(s: Seq<char>, max: nat) -> Seq<char> {
    if s.len() <= max {
        s
    } else {
        s.take(max as int).push(ellipsis())
    }
}

/// One raw item cleaned: trimmed, leading dashes removed, trimmed again.
pub open spec fn cleaned_item(s: Seq<char>) -> Seq<char> {
    trim(strip_leading(trim(s), '-'))
}

/// Whether a cleaned item is kept.
pub open spec fn is_nonempty(s: Seq<char>) -> bool {
    s.len() > 0
}

/// The items that survive cleanup, each truncated to the item limit, in order.
pub open spec fn kept_items(items: Seq<Seq<char>>) -> Seq<Seq<char>> {
    items.map_values(|s: Seq<char>| cleaned_item(s)).filter(|s: Seq<char>| is_nonempty(s)).map_values(
        |s: Seq<char>| truncated(s, MAX_ITEM_CHARS as nat),
    )
}

/// At most `max` of the kept items.
pub open spec fn sanitized_items(items: Seq<Seq<char>>, max: nat) -> Seq<Seq<char>> {
    let kept = kept_items(items);
    if kept.len() > max {
        kept.take(max as int)
    } else {
        kept
    }
}

/// The placeholder subtask.
pub open spec fn placeholder() -> Seq<char> {
    seq!['T', 'B', 'D']
}

/// `subtasks` padded with placeholders up to three items.
pub open spec fn padded(subtasks: Seq<Seq<char>>) -> Seq<Seq<char>> {
    if subtasks.len() < 3 {
        subtasks + Seq::new((3 - subtasks.len()) as nat, |i: int| placeholder())
    } else {
        subtasks
    }
}

/// The story-point values a draft may carry.
pub open spec fn allowed_points(v: u8) -> bool {
    v == 1 || v == 2 || v == 3 || v == 5 || v == 8 || v == 13
}

/// How far apart two estimates are.
pub open spec fn points_distance(a: u8, b: u8) -> int {
    if a >= b { a - b } else { b - a }
}

/// Whether `r` is the allowed value nearest to `v`, the larger of two that
/// are equally near.
pub open spec fn nearest_allowed(v: u8, r: u8) -> bool {
    &&& allowed_points(r)
    &&& forall|a: u8| #[trigger] allowed_points(a) ==> points_distance(v, r) < points_distance(v, a) || (
        points_distance(v, r) == points_distance(v, a) && a <= r)
}

/// The allowed story-point value that `v` is mapped to: the nearest one,
/// leaning upward on a tie (4 goes to 5, 7 to 8, 11 to 13).
pub open spec fn normalized_points(v: u8) -> u8 {
    if allowed_points(v) {
        v
    } else if v == 0 {
        1
    } else if v <= 6 {
        5
    } else if v <= 10 {
        8
    } else {
        13
    }
}

/// The mapped value is the allowed value nearest to the estimate, the larger
/// of two equally near ones.
pub proof fn lemma_normalized_points_nearest(v: u8)
    ensures
        nearest_allowed(v, normalized_points(v)),
{
    let r = normalized_points(v);
    assert forall|a: u8| #[trigger] allowed_points(a) implies points_distance(v, r) < points_distance(v, a) || (
        points_distance(v, r) == points_distance(v, a) && a <= r) by {}
}

/// The subtasks of a draft after cleanup: at most ten kept, then at most
/// five, then padded to three.
pub open spec fn sanitized_subtasks(items: Seq<Seq<char>>) -> Seq<Seq<char>> {
    let s = sanitized_items(items, 10);
    let s = if s.len() > 5 {
        s.take(5)
    } else {
        s
    };
    padded(s)
}

/// A cleaned draft always has three to five subtasks, at most ten
/// acceptance criteria and an allowed estimate; so it passes strict
/// validation exactly when an acceptance criterion survives cleanup.
pub proof fn lemma_sanitized_shape(criteria: Seq<Seq<char>>, subtasks: Seq<Seq<char>>, points: u8)
    ensures
        3 <= sanitized_subtasks(subtasks).len() <= 5,
        sanitized_items(criteria, 10).len() <= 10,
        allowed_points(normalized_points(points)),
{
}

/// What a model proposes for a user story.
#[derive(Debug, Clone, PartialEq, Eq)]
pub struct BacklogGroomingDraft {
    /// A short list of testable outcomes.
    pub acceptance_criteria: Vec<String>,
    /// 3-5 atomic pieces of work.
    pub subtasks: Vec<String>,
    /// A story-point estimate (Fibonacci-ish: 1,2,3,5,8,13).
    pub story_points: u8,
}

/// Whether a draft passes strict validation.
pub open spec fn draft_is_valid(d: BacklogGroomingDraft) -> bool {
    &&& d.acceptance_criteria.len() > 0
    &&& 3 <= d.subtasks.len() <= 5
    &&& allowed_points(d.story_points)
}

impl BacklogGroomingDraft {
    /// Cleans every item, keeps at most ten acceptance criteria, three to
    /// five subtasks (padding with "TBD"), and maps the estimate to an
    /// allowed value.
    pub fn sanitize(self) -> (r: Self)
        ensures
            views(r.acceptance_criteria@) == sanitized_items(views(self.acceptance_criteria@), 10),
            views(r.subtasks@) == sanitized_subtasks(views(self.subtasks@)),
            r.story_points == normalized_points(self.story_points),
    {
        let acceptance_criteria = sanitize_items(&self.acceptance_criteria, 1, 10);
        let mut subtasks = sanitize_items(&self.subtasks, 0, 10);
        if subtasks.len() > 5 {
            subtasks.truncate(5);
            assert(views(subtasks@) =~= sanitized_items(views(self.subtasks@), 10).take(5));
        }
        let subtasks = if subtasks.len() < 3 {
            pad_subtasks(subtasks)
        } else {
            subtasks
        };
        BacklogGroomingDraft {
            acceptance_criteria,
            subtasks,
            story_points: normalize_story_points(self.story_points),
        }
    }

    /// Checks that there is at least one acceptance criterion, three to five
    /// subtasks, and an allowed estimate, in that order.
    pub fn validate_strict(&self) -> (r: Result<(), &'static str>)
        ensures
            r is Ok <==> draft_is_valid(*self),
            self.acceptance_criteria.len() == 0 ==> (r matches Err(m) && m@ == "acceptance_criteria must be non-empty"@),
            self.acceptance_criteria.len() > 0 && !(3 <= self.subtasks.len() <= 5) ==> (r matches Err(m) && m@ == "subtasks must be 3-5 items"@),
            self.acceptance_criteria.len() > 0 && 3 <= self.subtasks.len() <= 5 && !allowed_points(self.story_points)
                ==> (r matches Err(m) && m@ == "story_points must be one of 1,2,3,5,8,13"@),
    {
        if self.acceptance_criteria.len() == 0 {
            return Err("acceptance_criteria must be non-empty");
        }
        if self.subtasks.len() < 3 || self.subtasks.len() > 5 {
            return Err("subtasks must be 3-5 items");
        }
        if !is_allowed_story_points(self.story_points) {
            return Err("story_points must be one of 1,2,3,5,8,13");
        }
        Ok(())
    }
}

/// Whether `value` is one of 1, 2, 3, 5, 8, 13.
pub fn is_allowed_story_points(value: u8) -> (b: bool)
    ensures
        b == allowed_points(value),
{
    value == 1 || value == 2 || value == 3 || value == 5 || value == 8 || value == 13
}

/// Maps an estimate to the nearest allowed value, the larger of two equally
/// near ones.
pub fn normalize_story_points(value: u8) -> (r: u8)
    ensures
        r == normalized_points(value),
        nearest_allowed(value, r),
{
    proof {
        lemma_normalized_points_nearest(value);
    }
    if is_allowed_story_points(value) {
        return value;
    }
    if value == 0 {
        1
    } else if value <= 6 {
        5
    } else if value <= 10 {
        8
    } else {
        13
    }
}

/// `s` cut to `max` characters, followed by an ellipsis, when it is longer.
pub fn truncate_chars(s: String, max: usize) -> (r: String)
    ensures
        r@ == truncated(s@, max as nat),
{
    let v = chars_of(s.as_str());
    if v.len() <= max {
        return s;
    }
    let mut r = string_of_range(&v, 0, max);
    string_push(&mut r, '\u{2026}');
    assert(v@.subrange(0, max as int) == s@.take(max as int));
    r
}

/// One raw item cleaned: trimmed, leading dashes removed, trimmed again.
pub fn clean_item(s: &String) -> (r: String)
    ensures
        r@ == cleaned_item(s@),
{
    let a = trim_str(s.as_str());
    let b = strip_leading_str(a.as_str(), '-');
    trim_str(b.as_str())
}

/// Cleans the items, drops the empty ones, truncates each to the item limit
/// and keeps at most `max` of them. (`min` does not add items.)
pub fn sanitize_items(items: &Vec<String>, min: usize, max: usize) -> (r: Vec<String>)
    ensures
        views(r@) == sanitized_items(views(items@), max as nat),
{
    let ghost f = |s: Seq<char>| cleaned_item(s);
    let ghost p = |s: Seq<char>| is_nonempty(s);
    let ghost g = |s: Seq<char>| truncated(s, MAX_ITEM_CHARS as nat);
    let mut out: Vec<String> = Vec::new();
    let mut i: usize = 0;
    while i < items.len()
        invariant
            i <= items.len(),
            f == (|s: Seq<char>| cleaned_item(s)),
            p == (|s: Seq<char>| is_nonempty(s)),
            g == (|s: Seq<char>| truncated(s, MAX_ITEM_CHARS as nat)),
            views(out@) == views(items@).take(i as int).map_values(f).filter(p).map_values(g),
        decreases items.len() - i,
    {
        let c = clean_item(&items[i]);
        let ghost prefix = views(items@).take(i as int);
        let ghost x = views(items@)[i as int];
        proof {
            assert(x == items@[i as int]@);
            assert(c@ == f(x));
            assert(views(items@).take(i + 1) == prefix.push(x));
            prefix.lemma_push_map_commute(f, x);
            prefix.map_values(f).lemma_filter_push(f(x), p);
        }
        if !c.as_str().is_empty() {
            let t = truncate_chars(c, MAX_ITEM_CHARS);
            proof {
                assert(p(f(x)));
                assert(t@ == g(f(x)));
                prefix.map_values(f).filter(p).lemma_push_map_commute(g, f(x));
            }
            let ghost before = out@;
            out.push(t);
            proof {
                lemma_views_push(before, t);
                assert(views(out@) =~= views(items@).take(i as int).map_values(f).filter(p).map_values(g).push(g(f(x))));
            }
        }
        i = i + 1;
    }
    assert(views(items@).take(items.len() as int) == views(items@));
    if out.len() > max {
        out.truncate(max);
        assert(views(out@) =~= kept_items(views(items@)).take(max as int));
    }
    out
}

/// Appends "TBD" until there are three subtasks.
pub fn pad_subtasks(subtasks: Vec<String>) -> (r: Vec<String>)
    ensures
        views(r@) == padded(views(subtasks@)),
{
    let mut subtasks = subtasks;
    let ghost orig = views(subtasks@);
    if subtasks.len() >= 3 {
        return subtasks;
    }
    while subtasks.len() < 3
        invariant
            orig.len() < 3,
            orig.len() <= subtasks.len() <= 3,
            views(subtasks@) == orig + Seq::new((subtasks.len() - orig.len()) as nat, |i: int| placeholder()),
        decreases 3 - subtasks.len(),
    {
        let mut t = String::new();
        string_push(&mut t, 'T');
        string_push(&mut t, 'B');
        string_push(&mut t, 'D');
        assert(t@ =~= placeholder());
        let ghost before = subtasks@;
        subtasks.push(t);
        proof {
            lemma_views_push(before, t);
        }
        assert(views(subtasks@) =~= orig + Seq::new((subtasks.len() - orig.len()) as nat, |i: int| placeholder()));
    }
    subtasks
}


/// `Duration` is `Copy`, so std's `clone` of it hands back the same value.
pub assume_specification[ <Duration as Clone>::clone ](d: &Duration) -> (r: Duration)
    ensures
        r == *d,
;

/// Time and size limits of one grooming run.
#[derive(Debug, Clone)]
pub struct BacklogGroomerLimits {
    pub timeout: Duration,
    pub max_story_chars: usize,
}

/// The `Duration` that `Duration::from_secs` makes of a number of seconds.
pub uninterp spec fn duration_of_secs(secs: nat) -> Duration;

/// Calls `Duration::from_secs`; its result depends on the seconds alone.
#[verifier::external_body]
fn duration_from_secs(secs: u64) -> (d: Duration)
    ensures
        d == duration_of_secs(secs as nat),
{
    Duration::from_secs(secs)
}

impl Default for BacklogGroomerLimits {
    /// A 45-second timeout and stories of at most 4000 characters.
    fn default() -> (r: Self)
        ensures
            r.timeout == duration_of_secs(45),
            r.max_story_chars == 4000,
    {
        BacklogGroomerLimits { timeout: duration_from_secs(45), max_story_chars: 4000 }
    }
}

/// The sandbox a coding-agent session runs in.
#[derive(Debug, Clone, Copy, PartialEq, Eq, Structural)]
pub enum SandboxMode {
    ReadOnly,
    WorkspaceWrite,
    DangerFullAccess,
}

/// When a coding-agent session asks before acting.
#[derive(Debug, Clone, Copy, PartialEq, Eq, Structural)]
pub enum AskForApproval {
    UnlessTrusted,
    OnFailure,
    OnRequest,
    Never,
}

/// The settings of a coding-agent session that grooming fixes; `None`
/// leaves the agent's default.
#[derive(Debug, Clone, Copy, PartialEq, Eq, Structural)]
pub struct CodexSessionSettings {
    pub include_apply_patch_tool: Option<bool>,
    pub sandbox: Option<SandboxMode>,
    pub ask_for_approval: Option<AskForApproval>,
}

impl CodexSessionSettings {
    /// Forces a safe, tool-free session: no apply-patch tool, a read-only
    /// sandbox, and never asking for approval.
    pub fn restrict_for_grooming(&mut self)
        ensures
            final(self).include_apply_patch_tool == Some(false),
            final(self).sandbox == Some(SandboxMode::ReadOnly),
            final(self).ask_for_approval == Some(AskForApproval::Never),
    {
        self.include_apply_patch_tool = Some(false);
        self.sandbox = Some(SandboxMode::ReadOnly);
        self.ask_for_approval = Some(AskForApproval::Never);
    }
}

/// Turns a user story into a groomed draft.
pub struct BacklogGroomer {
    pub limits: BacklogGroomerLimits,
}

impl Default for BacklogGroomer {
    /// A groomer with the default limits.
    fn default() -> (r: Self)
        ensures
            r.limits.timeout == duration_of_secs(45),
            r.limits.max_story_chars == 4000,
    {
        BacklogGroomer { limits: BacklogGroomerLimits::default() }
    }
}

/// The prompt sent to the model for a story: fixed instructions, then the
/// trimmed story, one line each.
pub open spec fn prompt_text(story: Seq<char>) -> Seq<char> {
    "You are a backlog grooming assistant."@ + "\n"@
        + "Given a single user story, produce STRICT JSON with keys:"@ + "\n"@
        + "- \"acceptance_criteria\": string[] (3-7 items, testable, concise)"@ + "\n"@
        + "- \"subtasks\": string[] (3-5 items, atomic, actionable)"@ + "\n"@
        + "- \"story_points\": number (one of 1,2,3,5,8,13)"@ + "\n"@
        + "Rules:"@ + "\n"@
        + "- Output ONLY valid JSON (no markdown, no code fences, no commentary)."@ + "\n"@
        + "- Do not use tools, commands, or file operations."@ + "\n"@
        + "- Keep each string <= 280 chars."@ + "\n"@
        + ""@ + "\n"@
        + "STORY:"@ + "\n"@
        + trim(story)
}

impl BacklogGroomer {
    /// The tool-free prompt for `story`.
    pub fn build_prompt(story: &str) -> (r: String)
        ensures
            r@ == prompt_text(story@),
    {
        let mut r = String::new();
        r.append("You are a backlog grooming assistant.");
        r.append("\n");
        r.append("Given a single user story, produce STRICT JSON with keys:");
        r.append("\n");
        r.append("- \"acceptance_criteria\": string[] (3-7 items, testable, concise)");
        r.append("\n");
        r.append("- \"subtasks\": string[] (3-5 items, atomic, actionable)");
        r.append("\n");
        r.append("- \"story_points\": number (one of 1,2,3,5,8,13)");
        r.append("\n");
        r.append("Rules:");
        r.append("\n");
        r.append("- Output ONLY valid JSON (no markdown, no code fences, no commentary).");
        r.append("\n");
        r.append("- Do not use tools, commands, or file operations.");
        r.append("\n");
        r.append("- Keep each string <= 280 chars.");
        r.append("\n");
        r.append("");
        r.append("\n");
        r.append("STORY:");
        r.append("\n");
        let t = trim_str(story);
        r.append(t.as_str());
        r
    }

    /// The story as it is put in the prompt: trimmed, then cut to the
    /// groomer's character limit.
    pub fn prepare_story(&self, story: &str) -> (r: String)
        ensures
            r@ == truncated(trim(story@), self.limits.max_story_chars as nat),
    {
        truncate_chars(trim_str(story), self.limits.max_story_chars)
    }
}

/// The last position of `c` in `t`.
#[verifier::opaque]
pub open spec fn last_index(t: Seq<char>, c: char) -> Option<int> {
    if exists|i: int| 0 <= i < t.len() && t[i] == c {
        Some(choose|i: int| 0 <= i < t.len() && t[i] == c && forall|j: int| i < j < t.len() ==> t[j] != c)
    } else {
        None
    }
}

/// The body of the first "```json" fence of `t`, trimmed, when that fence is
/// closed by a later "```".
pub open spec fn fenced_json(t: Seq<char>) -> Option<Seq<char>> {
    let fence = "```json"@;
    match find_first(t, fence) {
        Some(st) => match find_first(t.skip(st + fence.len()), "```"@) {
            Some(e) => Some(trim(t.skip(st + fence.len()).take(e))),
            None => None,
        },
        None => None,
    }
}

/// The span of `t` from its first `{` through its last `}`, trimmed, when the
/// last `}` comes after the first `{`.
pub open spec fn brace_span(t: Seq<char>) -> Option<Seq<char>> {
    match (find_first(t, seq!['{']), last_index(t, '}')) {
        (Some(a), Some(b)) => if b <= a {
            None
        } else {
            Some(trim(t.subrange(a, b + 1)))
        },
        _ => None,
    }
}

/// The JSON text that a model answer holds: the fenced body when there is
/// one, else the brace span.
pub open spec fn json_candidate(t: Seq<char>) -> Option<Seq<char>> {
    if fenced_json(t) is Some {
        fenced_json(t)
    } else {
        brace_span(t)
    }
}

/// The last position of `c` in `v`, as `str::rfind` gives it.
pub fn rfind_char(v: &Vec<char>, c: char) -> (r: Option<usize>)
    ensures
        r matches Some(i) ==> (last_index(v@, c) == Some(i as int) && i < v@.len() && v@[i as int] == c),
        r is None ==> last_index(v@, c) is None,
{
    reveal(last_index);
    let mut j: usize = v.len();
    while j > 0
        invariant
            j <= v.len(),
            forall|k: int| j <= k < v.len() ==> v@[k] != c,
        decreases j,
    {
        if v[j - 1] == c {
            let i = j - 1;
            proof {
                assert(0 <= i < v@.len() && v@[i as int] == c);
                let w = choose|k: int| 0 <= k < v@.len() && v@[k] == c && forall|m: int| k < m < v@.len() ==> v@[m] != c;
                assert(forall|m: int| i < m < v@.len() ==> v@[m] != c);
                assert(w == i) by {
                    if w < i {
                        assert(v@[i as int] == c);
                    } else if w > i {
                        assert(v@[w] != c);
                    }
                }
                assert(exists|k: int| 0 <= k < v@.len() && v@[k] == c);
                reveal(last_index);
                assert(last_index(v@, c) == Some(i as int));
            }
            return Some(i);
        }
        j = j - 1;
    }
    None
}

fn extract_fenced(t: &Vec<char>) -> (r: Option<String>)
    ensures
        r is Some <==> fenced_json(t@) is Some,
        r matches Some(s) ==> fenced_json(t@) == Some(s@),
{
    let fence = chars_of("```json");
    let close = chars_of("```");
    let n = t.len();
    match find_first_exec(t, &fence) {
        Some(start) => {
            assert(occurs_at(t@, fence@, start as int));
            assert(start + fence@.len() <= t@.len());
            let after_start = start + fence.len();
            let after = slice_vec(t, after_start, t.len());
            assert(after@ == t@.skip(after_start as int));
            match find_first_exec(&after, &close) {
                Some(end) => {
                    let body = string_of_range(&after, 0, end);
                    assert(after@.subrange(0, end as int) == after@.take(end as int));
                    Some(trim_str(body.as_str()))
                },
                None => None,
            }
        },
        None => None,
    }
}

fn extract_brace_span(t: &Vec<char>) -> (r: Option<String>)
    ensures
        r is Some <==> brace_span(t@) is Some,
        r matches Some(s) ==> brace_span(t@) == Some(s@),
{
    let open_brace = vec!['{'];
    assert(open_brace@ == seq!['{']);
    let a = match find_first_exec(t, &open_brace) {
        Some(a) => a,
        None => {
            return None;
        },
    };
    let b = match rfind_char(t, '}') {
        Some(b) => b,
        None => {
            return None;
        },
    };
    if b <= a {
        return None;
    }
    let n = t.len();
    let span = string_of_range(t, a, b + 1);
    Some(trim_str(span.as_str()))
}

/// Pulls the JSON object out of a model answer: the first closed
/// "```json" fence wins, else the first `{` through the last `}`.
pub fn extract_first_json_object(text: &str) -> (r: Option<String>)
    ensures
        r is Some <==> json_candidate(text@) is Some,
        r matches Some(s) ==> json_candidate(text@) == Some(s@),
{
    let t = chars_of(text);
    match extract_fenced(&t) {
        Some(s) => Some(s),
        None => extract_brace_span(&t),
    }
}

/// `v[lo..hi]` as a new vector.
pub fn slice_vec(v: &Vec<char>, lo: usize, hi: usize) -> (r: Vec<char>)
    requires
        lo <= hi <= v.len(),
    ensures
        r@ == v@.subrange(lo as int, hi as int),
{
    let mut r: Vec<char> = Vec::new();
    let mut i = lo;
    while i < hi
        invariant
            lo <= i <= hi <= v.len(),
            r@ == v@.subrange(lo as int, i as int),
        decreases hi - i,
    {
        r.push(v[i]);
        assert(v@.subrange(lo as int, i + 1) == v@.subrange(lo as int, i as int).push(v@[i as int]));
        i = i + 1;
    }
    r
}


/// The error that `serde_json` reports for JSON that does not parse.
#[verifier::external_type_specification]
#[verifier::external_body]
pub struct ExSerdeJsonError(serde_json::Error);

/// Why a grooming run produced no draft.
#[derive(Debug)]
pub enum BacklogGroomerError {
    /// The model service asked for a login.
    AuthRequired,
    /// The executor failed; the text is its message.
    Executor(String),
    /// The model did not finish in time.
    Timeout,
    /// The log held no assistant message.
    MissingAssistantMessage,
    /// The assistant message held no JSON.
    MissingJson,
    /// The JSON did not parse as a draft.
    Json(serde_json::Error),
    /// The draft failed strict validation.
    InvalidDraft(&'static str),
    /// The coding agent cannot groom a backlog.
    UnsupportedAgent,
}

/// The kind of a normalized log entry, as far as grooming reads it.
#[derive(Debug, Clone, Copy, PartialEq, Eq, Structural)]
pub enum LogEntryKind {
    AssistantMessage,
    SetupRequiredError,
    Other,
}

/// One normalized log entry: its index in the conversation, its kind and
/// its text.
#[derive(Debug, Clone)]
pub struct LogEntry {
    pub index: usize,
    pub kind: LogEntryKind,
    pub content: String,
}

/// Whether position `k` of `entries` holds the assistant message that
/// grooming reads: the first one (in log order) among those with the highest
/// index.
pub open spec fn is_last_assistant(entries: Seq<LogEntry>, k: int) -> bool {
    &&& 0 <= k < entries.len()
    &&& entries[k].kind == LogEntryKind::AssistantMessage
    &&& forall|j: int| 0 <= j < entries.len() && entries[j].kind == LogEntryKind::AssistantMessage
        ==> entries[j].index <= entries[k].index
    &&& forall|j: int| 0 <= j < k && entries[j].kind == LogEntryKind::AssistantMessage
        ==> entries[j].index < entries[k].index
}

/// Whether the log holds any assistant message.
pub open spec fn has_assistant(entries: Seq<LogEntry>) -> bool {
    exists|j: int| 0 <= j < entries.len() && entries[j].kind == LogEntryKind::AssistantMessage
}

/// The text of the assistant message with the highest index (the earliest of
/// equals), if any.
pub fn extract_last_assistant_message(entries: &Vec<LogEntry>) -> (r: Option<String>)
    ensures
        r is Some <==> has_assistant(entries@),
        r matches Some(s) ==> exists|k: int| is_last_assistant(entries@, k) && s@ == entries@[k].content@,
{
    let mut last: Option<usize> = None;
    let mut i: usize = 0;
    while i < entries.len()
        invariant
            i <= entries.len(),
            last is None <==> !exists|j: int| 0 <= j < i && entries@[j].kind == LogEntryKind::AssistantMessage,
            last matches Some(k) ==> k < i && is_last_assistant(entries@.take(i as int), k as int),
        decreases entries.len() - i,
    {
        let ghost prefix = entries@.take(i as int);
        let ghost next = entries@.take(i + 1);
        assert(next == prefix.push(entries@[i as int]));
        if entries[i].kind == LogEntryKind::AssistantMessage {
            match last {
                Some(k) => {
                    if entries[k].index < entries[i].index {
                        last = Some(i);
                        assert(is_last_assistant(next, i as int));
                    } else {
                        assert(is_last_assistant(next, k as int));
                    }
                },
                None => {
                    last = Some(i);
                    assert(is_last_assistant(next, i as int));
                },
            }
        } else {
            match last {
                Some(k) => {
                    assert(is_last_assistant(next, k as int));
                },
                None => {},
            }
        }
        i = i + 1;
    }
    assert(entries@.take(entries.len() as int) == entries@);
    match last {
        Some(k) => Some(entries[k].content.clone()),
        None => None,
    }
}

/// Whether the log reports that the model service needs a login.
pub fn has_setup_required_error(entries: &Vec<LogEntry>) -> (b: bool)
    ensures
        b == exists|j: int| 0 <= j < entries@.len() && entries@[j].kind == LogEntryKind::SetupRequiredError,
{
    let mut i: usize = 0;
    while i < entries.len()
        invariant
            i <= entries.len(),
            forall|j: int| 0 <= j < i ==> entries@[j].kind != LogEntryKind::SetupRequiredError,
        decreases entries.len() - i,
    {
        if entries[i].kind == LogEntryKind::SetupRequiredError {
            return true;
        }
        i = i + 1;
    }
    false
}

/// Reads the JSON text out of a finished run's log: a login requirement
/// wins, then a missing assistant message, then missing JSON.
pub fn json_from_log(entries: &Vec<LogEntry>) -> (r: Result<String, BacklogGroomerError>)
    ensures
        (exists|j: int| 0 <= j < entries@.len() && entries@[j].kind == LogEntryKind::SetupRequiredError)
            ==> r matches Err(BacklogGroomerError::AuthRequired),
        !(exists|j: int| 0 <= j < entries@.len() && entries@[j].kind == LogEntryKind::SetupRequiredError)
            && !has_assistant(entries@) ==> r matches Err(BacklogGroomerError::MissingAssistantMessage),
        !(exists|j: int| 0 <= j < entries@.len() && entries@[j].kind == LogEntryKind::SetupRequiredError)
            && has_assistant(entries@) ==> exists|k: int| #![auto] is_last_assistant(entries@, k) && match r {
                Ok(s) => json_candidate(entries@[k].content@) == Some(s@),
                Err(e) => e is MissingJson && json_candidate(entries@[k].content@) is None,
            },
{
    if has_setup_required_error(entries) {
        return Err(BacklogGroomerError::AuthRequired);
    }
    let assistant = match extract_last_assistant_message(entries) {
        Some(a) => a,
        None => {
            return Err(BacklogGroomerError::MissingAssistantMessage);
        },
    };
    match extract_first_json_object(assistant.as_str()) {
        Some(j) => Ok(j),
        None => Err(BacklogGroomerError::MissingJson),
    }
}

/// Cleans a parsed draft and validates it strictly.
pub fn finalize_draft(draft: BacklogGroomingDraft) -> (r: Result<BacklogGroomingDraft, BacklogGroomerError>)
    ensures
        ({
            let cleaned_ac = sanitized_items(views(draft.acceptance_criteria@), 10);
            let cleaned_sub = sanitized_subtasks(views(draft.subtasks@));
            let valid = cleaned_ac.len() > 0 && 3 <= cleaned_sub.len() <= 5;
            &&& (r is Ok <==> valid)
            &&& r matches Ok(d) ==> views(d.acceptance_criteria@) == cleaned_ac && views(d.subtasks@) == cleaned_sub
                && d.story_points == normalized_points(draft.story_points)
            &&& r matches Err(e) ==> e is InvalidDraft
        }),
{
    let d = draft.sanitize();
    match d.validate_strict() {
        Ok(()) => Ok(d),
        Err(m) => Err(BacklogGroomerError::InvalidDraft(m)),
    }
}

} // verus!
