//! Decisions of the agent socket: when to record that an agent was seen, how task failures
//! and artifact deletion failures are classified, and when a failed deletion is retried.
use vstd::prelude::*;
use vstd::utf8::{encode_utf8, is_ascii_chars};
use crate::command_center::{saturating_sub_spec, saturating_sub_i64};
use crate::byte_cut::{is_marked_cut, cut_marked, cuttable, cut_possible};
use crate::list_paging::{opt_str_view, opt_view};
use crate::json::{JsonValue, lookup, object_entries, last_index_of, lemma_lookup_last_index, lemma_lookup_absent};
use crate::text::{trim, trim_start, trim_end, trim_str, str_eq, owned, is_ascii_alphanumeric, to_lowercase, unicode_lowercase, trim_bounds,
    ascii_lower, to_ascii_lowercase, is_ws, is_ascii_digit, is_ascii_lowercase,
    chars_of, string_of};

verus! {

/// An agent's last-seen time is written at most this often, in seconds.
pub const AGENT_LAST_SEEN_MIN_UPDATE_SECS: i64 = 10;

/// Written again once at least the minimum interval has passed since the last write.
pub fn should_persist_agent_last_seen(last_persisted_at: i64, now: i64) -> (r: bool)
    ensures
        r == (saturating_sub_spec(now, last_persisted_at) >= AGENT_LAST_SEEN_MIN_UPDATE_SECS),
{
    saturating_sub_i64(now, last_persisted_at) >= AGENT_LAST_SEEN_MIN_UPDATE_SECS
}

/// ASCII letters and digits are kept; each run of other characters becomes one `_`.
pub open spec fn squash(s: Seq<char>, last_sep: bool) -> Seq<char>
    decreases s.len(),
{
    if s.len() == 0 {
        seq![]
    } else if is_ascii_alphanumeric(s[0]) {
        seq![s[0]] + squash(s.drop_first(), false)
    } else if !last_sep {
        seq!['_'] + squash(s.drop_first(), true)
    } else {
        squash(s.drop_first(), true)
    }
}

pub open spec fn strip_start_us(s: Seq<char>) -> Seq<char>
    decreases s.len(),
{
    if s.len() > 0 && s[0] == '_' {
        strip_start_us(s.drop_first())
    } else {
        s
    }
}

pub open spec fn strip_end_us(s: Seq<char>) -> Seq<char>
    decreases s.len(),
{
    if s.len() > 0 && s.last() == '_' {
        strip_end_us(s.drop_last())
    } else {
        s
    }
}

/// Lowercase form of a text: the ASCII mapping for ASCII text, Unicode's full case mapping
/// (`str::to_lowercase`) for any other.
pub open spec fn code_lowercase(s: Seq<char>) -> Seq<char> {
    if is_ascii_chars(s) {
        ascii_lower(s)
    } else {
        unicode_lowercase(s)
    }
}

/// The error code as a lowercase identifier: letters and digits with single underscores
/// between them, "unknown" when nothing is left.
pub open spec fn error_code_spec(value: Option<Seq<char>>) -> Seq<char> {
    let raw = match value {
        Some(v) => v,
        None => "unknown"@,
    };
    let code = strip_end_us(strip_start_us(squash(code_lowercase(trim(raw)), false)));
    if code.len() == 0 {
        "unknown"@
    } else {
        code
    }
}

fn squash_chars(v: &Vec<char>) -> (out: Vec<char>)
    ensures
        out@ == squash(v@, false),
{
    let mut out: Vec<char> = Vec::new();
    let mut last_sep = false;
    let mut i: usize = 0;
    assert(v@.skip(0) =~= v@);
    while i < v.len()
        invariant
            i <= v.len(),
            out@ + squash(v@.skip(i as int), last_sep) == squash(v@, false),
        decreases v.len() - i,
    {
        let ghost rest = v@.skip(i as int);
        assert(rest[0] == v@[i as int]);
        assert(rest.drop_first() =~= v@.skip(i + 1));
        let ch = v[i];
        let alnum = ('0' <= ch && ch <= '9') || ('a' <= ch && ch <= 'z') || ('A' <= ch && ch <= 'Z');
        if alnum {
            proof {
                assert(out@.push(ch) + squash(v@.skip(i + 1), false) =~= out@ + squash(rest, last_sep));
            }
            out.push(ch);
            last_sep = false;
        } else if !last_sep {
            proof {
                assert(out@.push('_') + squash(v@.skip(i + 1), true) =~= out@ + squash(rest, last_sep));
            }
            out.push('_');
            last_sep = true;
        } else {
            last_sep = true;
        }
        i = i + 1;
    }
    assert(v@.skip(v.len() as int) =~= Seq::<char>::empty());
    assert(out@ + Seq::<char>::empty() =~= out@);
    out
}

/// `v` without leading and trailing underscores, as bounds into `v`.
fn strip_bounds(v: &Vec<char>) -> (r: (usize, usize))
    ensures
        r.0 <= r.1 <= v.len(),
        v@.subrange(r.0 as int, r.1 as int) == strip_end_us(strip_start_us(v@)),
{
    let n = v.len();
    let mut a: usize = 0;
    assert(v@.subrange(0, n as int) =~= v@);
    while a < n && v[a] == '_'
        invariant
            a <= n == v.len(),
            strip_start_us(v@) == strip_start_us(v@.subrange(a as int, n as int)),
        decreases n - a,
    {
        let ghost rest = v@.subrange(a as int, n as int);
        assert(rest.drop_first() =~= v@.subrange(a + 1, n as int));
        a = a + 1;
    }
    let ghost start = v@.subrange(a as int, n as int);
    assert(strip_start_us(v@) == start) by {
        if start.len() > 0 {
            assert(start[0] == v@[a as int]);
        }
    }
    let mut b: usize = n;
    assert(start.subrange(0, (b - a) as int) =~= start);
    while b > a && v[b - 1] == '_'
        invariant
            a <= b <= n == v.len(),
            start == v@.subrange(a as int, n as int),
            strip_end_us(start) == strip_end_us(v@.subrange(a as int, b as int)),
        decreases b - a,
    {
        let ghost rest = v@.subrange(a as int, b as int);
        assert(rest.last() == v@[b - 1]);
        assert(rest.drop_last() =~= v@.subrange(a as int, b - 1));
        b = b - 1;
    }
    proof {
        let fin = v@.subrange(a as int, b as int);
        if fin.len() > 0 {
            assert(fin.last() == v@[b - 1]);
        }
    }
    (a, b)
}

/// A task's error code as a lowercase identifier (see `error_code_spec`); "unknown" when
/// none is given or nothing is left of it.
pub fn normalize_error_code(value: Option<&str>) -> (r: String)
    ensures
        r@ == error_code_spec(match value {
            Some(v) => Some(v@),
            None => None,
        }),
        is_lower_code(r@),
{
    let raw: &str = match value {
        Some(v) => v,
        None => "unknown",
    };
    let trimmed = trim_str(raw);
    let lower = if trimmed.is_ascii() {
        to_ascii_lowercase(trimmed)
    } else {
        to_lowercase(trimmed)
    };
    proof {
        let v = match value {
            Some(v) => Some(v@),
            None => None,
        };
        if is_ascii_chars(trimmed@) {
            lemma_ascii_lower_has_no_upper(trimmed@);
        }
        assert(lower@ == code_lowercase(trim(raw@)));
        assert(!has_ascii_upper(lower@));
        law_error_code_shape(v);
    }
    let chars = chars_of(lower.as_str());
    let squashed = squash_chars(&chars);
    let (a, b) = strip_bounds(&squashed);
    if a == b {
        owned("unknown")
    } else {
        string_of(&squashed, a, b)
    }
}

pub open spec fn task_hint_spec(code: Seq<char>) -> Seq<char> {
    if code == "source_consistency"@ {
        "source changed during backup; review the consistency policy and inspect the run summary"@
    } else if code == "snapshot_unavailable"@ {
        "snapshot provider was unavailable; review snapshot mode/provider support and source path configuration"@
    } else if code == "integrity_check"@ {
        "integrity checks failed; inspect the reported lines and repair the database before retrying"@
    } else if code == "network"@ || code == "timeout"@ || code == "rate_limited"@ {
        "transient execution failure detected; review agent connectivity and retry once the environment stabilizes"@
    } else {
        "inspect the related agent logs and run summary for the root cause"@
    }
}

/// What an operator should look at for a failed task with this code.
pub fn task_result_hint_text(code: &str) -> (r: &'static str)
    ensures
        r@ == task_hint_spec(code@),
{
    if str_eq(code, "source_consistency") {
        "source changed during backup; review the consistency policy and inspect the run summary"
    } else if str_eq(code, "snapshot_unavailable") {
        "snapshot provider was unavailable; review snapshot mode/provider support and source path configuration"
    } else if str_eq(code, "integrity_check") {
        "integrity checks failed; inspect the reported lines and repair the database before retrying"
    } else if str_eq(code, "network") || str_eq(code, "timeout") || str_eq(code, "rate_limited") {
        "transient execution failure detected; review agent connectivity and retry once the environment stabilizes"
    } else {
        "inspect the related agent logs and run summary for the root cause"
    }
}

/// Transient failures: network, timeouts, rate limits and unavailable upstreams.
pub fn task_result_is_retriable(code: &str) -> (r: bool)
    ensures
        r == (code@ == "network"@ || code@ == "timeout"@ || code@ == "rate_limited"@ || code@
            == "upstream_unavailable"@),
{
    str_eq(code, "network") || str_eq(code, "timeout") || str_eq(code, "rate_limited") || str_eq(code, "upstream_unavailable")
}

pub open spec fn delete_kind_spec(kind: Option<Seq<char>>) -> Seq<char> {
    let k = match kind {
        Some(k) => trim(k),
        None => ""@,
    };
    if k == "config"@ {
        "config"@
    } else if k == "auth"@ {
        "auth"@
    } else if k == "network"@ {
        "network"@
    } else if k == "http"@ {
        "http"@
    } else {
        "unknown"@
    }
}

/// The kind of a deletion failure: one of the known kinds, else "unknown".
pub fn normalize_delete_error_kind(kind: Option<&str>) -> (r: &'static str)
    ensures
        r@ == delete_kind_spec(match kind {
            Some(k) => Some(k@),
            None => None,
        }),
{
    let k: &str = match kind {
        Some(k) => trim_str(k),
        None => "",
    };
    if str_eq(k, "config") {
        "config"
    } else if str_eq(k, "auth") {
        "auth"
    } else if str_eq(k, "network") {
        "network"
    } else if str_eq(k, "http") {
        "http"
    } else {
        "unknown"
    }
}

/// A deletion task is given up after this many attempts.
pub const DELETE_MAX_ATTEMPTS: i64 = 20;
/// A deletion task is given up once it is this old, in seconds (thirty days).
pub const DELETE_MAX_AGE_SECS: i64 = 2592000;

pub fn should_abandon_delete_task(attempts: i64, created_at: i64, now: i64) -> (r: bool)
    ensures
        r == (attempts >= DELETE_MAX_ATTEMPTS || saturating_sub_spec(now, created_at) >= DELETE_MAX_AGE_SECS),
{
    if attempts >= DELETE_MAX_ATTEMPTS {
        return true;
    }
    saturating_sub_i64(now, created_at) >= DELETE_MAX_AGE_SECS
}

pub open spec fn delete_hint_spec(kind: Seq<char>) -> Seq<char> {
    if kind == "config"@ {
        "review snapshot target settings and delete task metadata"@
    } else if kind == "auth"@ {
        "verify credentials and permissions for the delete operation"@
    } else if kind == "network"@ {
        "check network connectivity and retry artifact deletion"@
    } else if kind == "http"@ {
        "inspect the HTTP response/body and upstream availability"@
    } else {
        "inspect artifact delete task logs for the root cause"@
    }
}

pub fn snapshot_delete_hint_text(kind: &str) -> (r: &'static str)
    ensures
        r@ == delete_hint_spec(kind@),
{
    if str_eq(kind, "config") {
        "review snapshot target settings and delete task metadata"
    } else if str_eq(kind, "auth") {
        "verify credentials and permissions for the delete operation"
    } else if str_eq(kind, "network") {
        "check network connectivity and retry artifact deletion"
    } else if str_eq(kind, "http") {
        "inspect the HTTP response/body and upstream availability"
    } else {
        "inspect artifact delete task logs for the root cause"
    }
}


/// The rolling hash of the bytes: each step multiplies by 131 and adds the byte, modulo 2^64.
pub open spec fn jitter_hash(bytes: Seq<u8>) -> nat
    decreases bytes.len(),
{
    if bytes.len() == 0 {
        0
    } else {
        ((jitter_hash(bytes.drop_last()) * 131 + bytes.last()) % 0x1_0000_0000_0000_0000) as nat
    }
}

/// A jitter below `max_jitter` that depends only on the run and the attempt.
pub open spec fn jitter_spec(run_id: Seq<char>, attempts: i64, max_jitter: i64) -> i64 {
    if max_jitter <= 0 {
        0
    } else {
        (((jitter_hash(encode_utf8(run_id)) + (attempts as u64) * 97) % 0x1_0000_0000_0000_0000) % (max_jitter as int)) as i64
    }
}

pub fn delete_jitter_seconds(run_id: &str, attempts: i64, max_jitter: i64) -> (r: i64)
    requires
        max_jitter > 0 ==> (attempts as u64) * 97 <= u64::MAX,
    ensures
        r == jitter_spec(run_id@, attempts, max_jitter),
        max_jitter > 0 ==> 0 <= r < max_jitter,
{
    if max_jitter <= 0 {
        return 0;
    }
    let bytes = run_id.as_bytes();
    let mut hash: u64 = 0;
    let mut i: usize = 0;
    while i < bytes.len()
        invariant
            bytes@ == encode_utf8(run_id@),
            i <= bytes.len(),
            hash == jitter_hash(bytes@.take(i as int)),
        decreases bytes.len() - i,
    {
        assert(bytes@.take(i + 1).drop_last() =~= bytes@.take(i as int));
        let next: u128 = ((hash as u128) * 131 + (bytes[i] as u128)) % 0x1_0000_0000_0000_0000u128;
        hash = next as u64;
        i = i + 1;
    }
    assert(bytes@.take(bytes.len() as int) =~= bytes@);
    let extra: u64 = (attempts as u64) * 97;
    let total: u128 = ((hash as u128) + (extra as u128)) % 0x1_0000_0000_0000_0000u128;
    let h = total as u64;
    (h % (max_jitter as u64)) as i64
}

/// 2 to the power `n`.
pub open spec fn two_pow(n: nat) -> nat
    decreases n,
{
    if n == 0 {
        1
    } else {
        2 * two_pow((n - 1) as nat)
    }
}

proof fn lemma_two_pow_monotone(n: nat, m: nat)
    requires
        n <= m,
    ensures
        1 <= two_pow(n) <= two_pow(m),
    decreases m,
{
    if m > 0 && n < m {
        lemma_two_pow_monotone(n, (m - 1) as nat);
    } else if m > 0 {
        lemma_two_pow_monotone((m - 1) as nat, (m - 1) as nat);
    }
}

proof fn lemma_two_pow_bound(n: nat)
    requires
        n <= 30,
    ensures
        1 <= two_pow(n) <= 1073741824,
{
    reveal_with_fuel(two_pow, 31);
    assert(two_pow(30) == 1073741824);
    lemma_two_pow_monotone(n, 30);
}

/// Base delay, longest delay and jitter bound, in seconds, by deletion failure kind.
pub open spec fn backoff_params(kind: Seq<char>) -> (i64, i64, i64) {
    if kind == "network"@ || kind == "http"@ {
        (60, 21600, 30)
    } else if kind == "auth"@ || kind == "config"@ {
        (21600, 86400, 600)
    } else {
        (300, 21600, 60)
    }
}

/// The delay doubles with each attempt from the kind's base, up to its cap, plus jitter.
pub open spec fn backoff_spec(run_id: Seq<char>, attempts: i64, kind: Seq<char>) -> i64 {
    let a: i64 = if attempts < 1 { 1 } else { attempts };
    let (base, cap, max_jitter) = backoff_params(kind);
    let k: nat = if a - 1 < 30 { (a - 1) as nat } else { 30 };
    let delay = if base * two_pow(k) < cap { base * two_pow(k) } else { cap as int };
    (delay + jitter_spec(run_id, a, max_jitter)) as i64
}

pub fn delete_backoff_seconds(run_id: &str, attempts: i64, kind: &str) -> (r: i64)
    requires
        ((if attempts < 1 { 1 } else { attempts }) as u64) * 97 <= u64::MAX,
    ensures
        r == backoff_spec(run_id@, attempts, kind@),
{
    let a: i64 = if attempts < 1 { 1 } else { attempts };
    let (base, cap, max_jitter): (i64, i64, i64) = if str_eq(kind, "network") || str_eq(kind, "http") {
        (60, 21600, 30)
    } else if str_eq(kind, "auth") || str_eq(kind, "config") {
        (21600, 86400, 600)
    } else {
        (300, 21600, 60)
    };
    let k: i64 = if a - 1 < 30 { a - 1 } else { 30 };
    let mut exp: i64 = 1;
    let mut j: i64 = 0;
    while j < k
        invariant
            0 <= j <= k <= 30,
            exp == two_pow(j as nat),
        decreases k - j,
    {
        proof {
            lemma_two_pow_bound(j as nat);
        }
        exp = exp * 2;
        j = j + 1;
    }
    proof {
        lemma_two_pow_bound(k as nat);
        assert(base * exp <= 21600 * 1073741824) by (nonlinear_arith)
            requires
                0 < base <= 21600,
                1 <= exp <= 1073741824;
    }
    let product = base * exp;
    let delay = if product < cap { product } else { cap };
    let jitter = delete_jitter_seconds(run_id, a, max_jitter);
    delay + jitter
}


/// The longest deletion error kept whole, in bytes.
pub const DELETE_ERROR_MAX_LEN: usize = 500;

/// Line breaks turned into spaces.
pub open spec fn one_line(s: Seq<char>) -> Seq<char> {
    s.map_values(|c: char| if c == '\n' || c == '\r' { ' ' } else { c })
}

/// On one line and trimmed; past the limit, cut at the limit's byte and marked with `…`.
pub open spec fn sanitized_spec(s: Seq<char>, r: Seq<char>) -> bool {
    is_marked_cut(trim(one_line(s)), DELETE_ERROR_MAX_LEN as int, r)
}

/// Whether the cleaned error can be cut at the limit: it fits, or the limit's byte falls
/// between characters.
pub open spec fn delete_error_cuttable(s: Seq<char>) -> bool {
    cuttable(trim(one_line(s)), DELETE_ERROR_MAX_LEN as int)
}

fn one_line_trimmed(s: &str) -> (r: String)
    ensures
        r@ == trim(one_line(s@)),
{
    let chars = chars_of(s);
    let mut flat: Vec<char> = Vec::new();
    let mut i: usize = 0;
    while i < chars.len()
        invariant
            chars@ == s@,
            i <= chars.len(),
            flat@ == one_line(s@).take(i as int),
        decreases chars.len() - i,
    {
        let c = chars[i];
        flat.push(if c == '\n' || c == '\r' { ' ' } else { c });
        assert(flat@ =~= one_line(s@).take(i + 1));
        i = i + 1;
    }
    assert(flat@ =~= one_line(s@));
    let (a, b) = trim_bounds(&flat);
    string_of(&flat, a, b)
}

/// Whether `sanitize_delete_error_string` can take the text.
pub fn delete_error_cut_possible(s: &str) -> (r: bool)
    ensures
        r == delete_error_cuttable(s@),
{
    let t = one_line_trimmed(s);
    cut_possible(t.as_str(), DELETE_ERROR_MAX_LEN)
}

/// Requires, past the limit, that the cut falls between characters (slicing elsewhere panics).
pub fn sanitize_delete_error_string(s: &str) -> (r: String)
    requires
        delete_error_cuttable(s@),
    ensures
        sanitized_spec(s@, r@),
{
    let t = one_line_trimmed(s);
    cut_marked(t.as_str(), DELETE_ERROR_MAX_LEN)
}

pub open spec fn saturating_add_spec(a: i64, b: i64) -> i64 {
    if a + b > i64::MAX {
        i64::MAX
    } else if a + b < i64::MIN {
        i64::MIN
    } else {
        (a + b) as i64
    }
}

/// What the Hub does with an agent's report on a snapshot deletion.
#[derive(Debug)]
pub enum DeleteResultAction {
    /// No task for the run, another agent's task, or a status it does not know.
    Ignore,
    /// The snapshot was deleted.
    MarkDeleted,
    /// The snapshot was already gone.
    MarkMissing,
    /// The task is given up.
    Abandon { kind: String, last_error: String },
    /// The task waits for a fix (configuration or credentials) and is tried again later.
    Block { kind: String, last_error: String, next_attempt_at: i64, retry_after_secs: u64 },
    /// The task is tried again later.
    Retry { kind: String, last_error: String, next_attempt_at: i64, retry_after_secs: u64 },
}

/// The report is for this agent's own task and says the deletion failed.
pub open spec fn reports_own_failure(task_node_id: Option<Seq<char>>, agent_id: Seq<char>, status: Seq<char>) -> bool {
    task_node_id == Some(agent_id) && status == "failed"@
}

/// The error text of a failure report: the agent's, else "failed".
pub open spec fn failure_message(error: Option<Seq<char>>) -> Seq<char> {
    match error {
        Some(e) => e,
        None => "failed"@,
    }
}

/// Handles a deletion report. `task_node_id` is the node of the run's deletion task, if there
/// is one; `attempts` and `created_at` are that task's.
pub fn snapshot_delete_result_action(
    task_node_id: Option<&str>,
    agent_id: &str,
    run_id: &str,
    status: &str,
    error_kind: Option<&str>,
    error: Option<&str>,
    attempts: i64,
    created_at: i64,
    now: i64,
) -> (r: DeleteResultAction)
    requires
        reports_own_failure(opt_str_view(task_node_id), agent_id@, status@)
            ==> delete_error_cuttable(failure_message(opt_str_view(error))),
    ensures
        opt_str_view(task_node_id) != Some(agent_id@) ==> r is Ignore,
        opt_str_view(task_node_id) == Some(agent_id@) ==> {
            if status@ == "success"@ {
                r is MarkDeleted
            } else if status@ == "not_found"@ {
                r is MarkMissing
            } else if status@ == "failed"@ {
                let kind = delete_kind_spec(opt_str_view(error_kind));
                let msg = failure_message(opt_str_view(error));
                if attempts >= DELETE_MAX_ATTEMPTS || saturating_sub_spec(now, created_at) >= DELETE_MAX_AGE_SECS {
                    r matches DeleteResultAction::Abandon { kind: k, last_error: e }
                        && k@ == kind && sanitized_spec(msg, e@)
                } else {
                    let next = saturating_add_spec(now, backoff_spec(run_id@, attempts, kind));
                    let wait = saturating_sub_spec(next, now);
                    let after: u64 = if wait < 0 { 0 } else { wait as u64 };
                    if kind == "config"@ || kind == "auth"@ {
                        r matches DeleteResultAction::Block { kind: k, last_error: e, next_attempt_at: n, retry_after_secs: a }
                            && k@ == kind && sanitized_spec(msg, e@) && n == next && a == after
                    } else {
                        r matches DeleteResultAction::Retry { kind: k, last_error: e, next_attempt_at: n, retry_after_secs: a }
                            && k@ == kind && sanitized_spec(msg, e@) && n == next && a == after
                    }
                }
            } else {
                r is Ignore
            }
        },
{
    let node = match task_node_id {
        Some(n) => n,
        None => { return DeleteResultAction::Ignore; },
    };
    if !str_eq(node, agent_id) {
        return DeleteResultAction::Ignore;
    }
    if str_eq(status, "success") {
        return DeleteResultAction::MarkDeleted;
    }
    if str_eq(status, "not_found") {
        return DeleteResultAction::MarkMissing;
    }
    if !str_eq(status, "failed") {
        return DeleteResultAction::Ignore;
    }
    let kind = normalize_delete_error_kind(error_kind);
    let msg: &str = match error {
        Some(e) => e,
        None => "failed",
    };
    let last_error = sanitize_delete_error_string(msg);
    if should_abandon_delete_task(attempts, created_at, now) {
        return DeleteResultAction::Abandon { kind: owned(kind), last_error };
    }
    let backoff = delete_backoff_seconds(run_id, attempts, kind);
    proof {
        lemma_backoff_bounds(run_id@, attempts, kind@);
    }
    let next: i64 = if now > i64::MAX - backoff { i64::MAX } else { now + backoff };
    let wait: i64 = saturating_sub_i64(next, now);
    let after: u64 = if wait < 0 { 0 } else { wait as u64 };
    if str_eq(kind, "config") || str_eq(kind, "auth") {
        DeleteResultAction::Block { kind: owned(kind), last_error, next_attempt_at: next, retry_after_secs: after }
    } else {
        DeleteResultAction::Retry { kind: owned(kind), last_error, next_attempt_at: next, retry_after_secs: after }
    }
}

/// Retry delays stay between the kind's base delay and its cap plus its jitter bound.
pub proof fn lemma_backoff_bounds(run_id: Seq<char>, attempts: i64, kind: Seq<char>)
    ensures
        ({
            let (base, cap, max_jitter) = backoff_params(kind);
            base <= backoff_spec(run_id, attempts, kind) < cap + max_jitter
        }),
{
    let a: i64 = if attempts < 1 { 1 } else { attempts };
    let k: nat = if a - 1 < 30 { (a - 1) as nat } else { 30 };
    lemma_two_pow_bound(k);
    let (base, cap, max_jitter) = backoff_params(kind);
    assert(base * two_pow(k) >= base) by (nonlinear_arith)
        requires
            base > 0,
            two_pow(k) >= 1;
}

/// A sanitized deletion error takes at most the limit plus the three bytes of its mark.
pub proof fn lemma_sanitized_fits(s: Seq<char>, r: Seq<char>)
    requires
        sanitized_spec(s, r),
    ensures
        encode_utf8(r).len() <= DELETE_ERROR_MAX_LEN + 3,
{
    crate::byte_cut::lemma_marked_cut_fits(trim(one_line(s)), DELETE_ERROR_MAX_LEN as int, r);
}

/// How a task result ends its run, as the agent reports it.
#[derive(Debug, Clone, Copy, PartialEq, Eq, Structural)]
pub enum RunEnd {
    Success,
    Canceled,
    Failed,
}

/// The error code of a failed task: the summary's `error_code` string when it is not blank,
/// else "agent_failed".
pub open spec fn summary_error_code(summary: Option<JsonValue>) -> Seq<char> {
    match lookup(object_entries(summary), "error_code"@) {
        Some(JsonValue::Str(c)) => if trim(c@).len() > 0 { c@ } else { "agent_failed"@ },
        _ => "agent_failed"@,
    }
}

pub open spec fn json_opt(v: Option<&JsonValue>) -> Option<JsonValue> {
    match v {
        Some(j) => Some(*j),
        None => None,
    }
}

/// The end of a run and its error code from a task result's status (trimmed) and summary:
/// "success" succeeds, "canceled" is canceled, anything else fails.
pub fn task_result_outcome(status: &str, summary: Option<&JsonValue>) -> (r: (RunEnd, Option<String>))
    ensures
        trim(status@) == "success"@ ==> r.0 == RunEnd::Success && r.1 is None,
        trim(status@) == "canceled"@ ==> r.0 == RunEnd::Canceled && opt_view(r.1) == Some("canceled"@),
        trim(status@) != "success"@ && trim(status@) != "canceled"@ ==> r.0 == RunEnd::Failed
            && opt_view(r.1) == Some(summary_error_code(json_opt(summary))),
{
    let st = trim_str(status);
    proof {
        reveal_strlit("success");
        reveal_strlit("canceled");
        assert("success"@.len() != "canceled"@.len());
    }
    if str_eq(st, "success") {
        return (RunEnd::Success, None);
    }
    if str_eq(st, "canceled") {
        return (RunEnd::Canceled, Some(owned("canceled")));
    }
    let code: String = match summary {
        Some(JsonValue::Object(entries)) => {
            match last_index_of(entries, "error_code") {
                Some(i) => {
                    proof {
                        lemma_lookup_last_index(entries@, i as int, "error_code"@);
                    }
                    match &entries[i].1 {
                        JsonValue::Str(c) => {
                            if trim_str(c.as_str()).unicode_len() > 0 {
                                c.clone()
                            } else {
                                owned("agent_failed")
                            }
                        },
                        _ => owned("agent_failed"),
                    }
                },
                None => {
                    proof {
                        lemma_lookup_absent(entries@, "error_code"@);
                    }
                    owned("agent_failed")
                },
            }
        },
        _ => owned("agent_failed"),
    };
    (RunEnd::Failed, Some(code))
}

/// The run's status once the result is recorded: one of the three ends, or another status.
#[derive(Debug, Clone, Copy, PartialEq, Eq, Structural)]
pub enum FinalRunStatus {
    Success,
    Canceled,
    Failed,
    Other,
}

/// The run event that announces the end: its level and kind, and whether it carries the
/// failure's fields (else only the agent).
pub fn run_end_event(status: FinalRunStatus) -> (r: (&'static str, &'static str, bool))
    ensures
        r.0@ == (if status == FinalRunStatus::Success || status == FinalRunStatus::Canceled { "info"@ } else { "error"@ }),
        r.1@ == (match status {
            FinalRunStatus::Success => "complete"@,
            FinalRunStatus::Canceled => "canceled"@,
            _ => "failed"@,
        }),
        r.2 == (status == FinalRunStatus::Failed),
{
    match status {
        FinalRunStatus::Success => ("info", "complete", false),
        FinalRunStatus::Canceled => ("info", "canceled", false),
        FinalRunStatus::Failed => ("error", "failed", true),
        FinalRunStatus::Other => ("error", "failed", false),
    }
}

/// How an operation result ends its operation: "success" and "canceled" (trimmed) as they
/// say, anything else fails.
pub fn operation_result_end(status: &str) -> (r: RunEnd)
    ensures
        r == (if trim(status@) == "success"@ {
            RunEnd::Success
        } else if trim(status@) == "canceled"@ {
            RunEnd::Canceled
        } else {
            RunEnd::Failed
        }),
{
    let st = trim_str(status);
    if str_eq(st, "success") {
        RunEnd::Success
    } else if str_eq(st, "canceled") {
        RunEnd::Canceled
    } else {
        RunEnd::Failed
    }
}

/// The error of a failed remote listing: its code trimmed ("error" when none is given) and its
/// message trimmed.
pub fn remote_list_error(error_code: Option<&str>, message: &str) -> (r: (String, String))
    ensures
        r.0@ == trim(match error_code {
            Some(c) => c@,
            None => "error"@,
        }),
        r.1@ == trim(message@),
{
    let code: &str = match error_code {
        Some(c) => c,
        None => "error",
    };
    (owned(trim_str(code)), owned(trim_str(message)))
}

/// The most bytes one pull of an artifact stream reads.
pub const ARTIFACT_STREAM_MAX_BYTES: u64 = 1048576;

/// What one pull reads at most: the asked-for size, at least one byte and at most the limit.
pub fn artifact_pull_len(max_bytes: u64) -> (r: u64)
    ensures
        r == (if max_bytes < 1 { 1 } else if max_bytes > ARTIFACT_STREAM_MAX_BYTES { ARTIFACT_STREAM_MAX_BYTES } else { max_bytes }),
{
    if max_bytes < 1 {
        1
    } else if max_bytes > ARTIFACT_STREAM_MAX_BYTES {
        ARTIFACT_STREAM_MAX_BYTES
    } else {
        max_bytes
    }
}

} // verus!

verus! {

/// A character an error code may hold: an ASCII letter or digit, or `_`.
pub open spec fn is_code_char(c: char) -> bool {
    is_ascii_alphanumeric(c) || c == '_'
}

/// A character of a lowercase error code: a lowercase ASCII letter, a digit, or `_`.
pub open spec fn is_lower_code_char(c: char) -> bool {
    is_ascii_digit(c) || is_ascii_lowercase(c) || c == '_'
}

/// Never two `_` in a row.
pub open spec fn no_double_us(s: Seq<char>) -> bool {
    forall|i: int, j: int| 0 <= i && j == i + 1 && j < s.len() ==> !(#[trigger] s[i] == '_' && #[trigger] s[j] == '_')
}

/// What a normalized error code looks like: not empty, only ASCII letters, digits and `_`,
/// no `_` at either end and never two in a row.
pub open spec fn is_code_shape(r: Seq<char>) -> bool {
    &&& r.len() > 0
    &&& forall|i: int| 0 <= i < r.len() ==> is_code_char(#[trigger] r[i])
    &&& r[0] != '_'
    &&& r.last() != '_'
    &&& no_double_us(r)
}

/// A code of that shape in lowercase: only `[a-z0-9_]`.
pub open spec fn is_lower_code(r: Seq<char>) -> bool {
    &&& is_code_shape(r)
    &&& forall|i: int| 0 <= i < r.len() ==> is_lower_code_char(#[trigger] r[i])
}

pub open spec fn has_ascii_upper(s: Seq<char>) -> bool {
    exists|i: int| 0 <= i < s.len() && 'A' <= #[trigger] s[i] && s[i] <= 'Z'
}

pub open spec fn has_ascii_alphanumeric(s: Seq<char>) -> bool {
    exists|i: int| 0 <= i < s.len() && is_ascii_alphanumeric(#[trigger] s[i])
}

proof fn lemma_squash_shape(s: Seq<char>, last_sep: bool)
    ensures
        forall|i: int| 0 <= i < squash(s, last_sep).len() ==> is_code_char(#[trigger] squash(s, last_sep)[i]),
        no_double_us(squash(s, last_sep)),
        last_sep && squash(s, last_sep).len() > 0 ==> squash(s, last_sep)[0] != '_',
        !has_ascii_upper(s) ==> forall|i: int|
            0 <= i < squash(s, last_sep).len() ==> is_lower_code_char(#[trigger] squash(s, last_sep)[i]),
        !has_ascii_alphanumeric(s) ==> forall|i: int|
            0 <= i < squash(s, last_sep).len() ==> #[trigger] squash(s, last_sep)[i] == '_',
    decreases s.len(),
{
    if s.len() > 0 {
        let rest = s.drop_first();
        let next = is_ascii_alphanumeric(s[0]) || last_sep;
        lemma_squash_shape(rest, !is_ascii_alphanumeric(s[0]));
        let t = squash(rest, !is_ascii_alphanumeric(s[0]));
        let r = squash(s, last_sep);
        assert(!has_ascii_upper(s) ==> !has_ascii_upper(rest)) by {
            if has_ascii_upper(rest) {
                let i = choose|i: int| 0 <= i < rest.len() && 'A' <= #[trigger] rest[i] && rest[i] <= 'Z';
                assert(s[i + 1] == rest[i]);
            }
        }
        assert(!has_ascii_alphanumeric(s) ==> !has_ascii_alphanumeric(rest)) by {
            if has_ascii_alphanumeric(rest) {
                let i = choose|i: int| 0 <= i < rest.len() && is_ascii_alphanumeric(#[trigger] rest[i]);
                assert(s[i + 1] == rest[i]);
            }
        }
        if is_ascii_alphanumeric(s[0]) {
            assert(r == seq![s[0]] + t);
            assert(!has_ascii_upper(s) ==> !('A' <= s[0] && s[0] <= 'Z'));
            assert(!has_ascii_alphanumeric(s) ==> false);
        } else if !last_sep {
            assert(r == seq!['_'] + t);
        } else {
            assert(r == t);
        }
        assert forall|i: int, j: int| 0 <= i && j == i + 1 && j < r.len() implies !(#[trigger] r[i] == '_' && #[trigger] r[j] == '_') by {
            if r.len() > t.len() {
                if i > 0 {
                    assert(r[i] == t[i - 1] && r[j] == t[j - 1]);
                }
            }
        }
    }
}

proof fn lemma_strip_start_us(s: Seq<char>)
    ensures
        exists|k: int| 0 <= k <= s.len() && strip_start_us(s) == #[trigger] s.subrange(k, s.len() as int),
        strip_start_us(s).len() > 0 ==> strip_start_us(s)[0] != '_',
    decreases s.len(),
{
    if s.len() > 0 && s[0] == '_' {
        lemma_strip_start_us(s.drop_first());
        let d = s.drop_first();
        let k = choose|k: int| 0 <= k <= d.len() && strip_start_us(d) == #[trigger] d.subrange(k, d.len() as int);
        assert(d.subrange(k, d.len() as int) =~= s.subrange(k + 1, s.len() as int));
    } else {
        assert(s.subrange(0, s.len() as int) =~= s);
    }
}

proof fn lemma_strip_end_us(s: Seq<char>)
    ensures
        exists|k: int| 0 <= k <= s.len() && strip_end_us(s) == #[trigger] s.subrange(0, k),
        strip_end_us(s).len() > 0 ==> strip_end_us(s).last() != '_',
    decreases s.len(),
{
    if s.len() > 0 && s.last() == '_' {
        lemma_strip_end_us(s.drop_last());
        let d = s.drop_last();
        let k = choose|k: int| 0 <= k <= d.len() && strip_end_us(d) == #[trigger] d.subrange(0, k);
        assert(d.subrange(0, k) =~= s.subrange(0, k));
    } else {
        assert(s.subrange(0, s.len() as int) =~= s);
    }
}

proof fn lemma_squash_fixed(s: Seq<char>, last_sep: bool)
    requires
        forall|i: int| 0 <= i < s.len() ==> is_code_char(#[trigger] s[i]),
        no_double_us(s),
        last_sep && s.len() > 0 ==> s[0] != '_',
    ensures
        squash(s, last_sep) == s,
    decreases s.len(),
{
    if s.len() > 0 {
        let rest = s.drop_first();
        assert forall|i: int, j: int| 0 <= i && j == i + 1 && j < rest.len() implies !(#[trigger] rest[i] == '_' && #[trigger] rest[j] == '_') by {
            assert(rest[i] == s[i + 1] && rest[j] == s[j + 1]);
        }
        if rest.len() > 0 && s[0] == '_' {
            assert(s[1] == rest[0]);
        }
        assert(is_code_char(s[0]));
        lemma_squash_fixed(rest, !is_ascii_alphanumeric(s[0]));
        assert(s =~= seq![s[0]] + rest);
    }
}

proof fn lemma_ascii_trim(s: Seq<char>)
    requires
        is_ascii_chars(s),
    ensures
        is_ascii_chars(trim(s)),
{
    lemma_ascii_trim_start(s);
    lemma_ascii_trim_end(trim_start(s));
}

proof fn lemma_ascii_trim_start(s: Seq<char>)
    requires
        is_ascii_chars(s),
    ensures
        is_ascii_chars(trim_start(s)),
    decreases s.len(),
{
    if s.len() > 0 && is_ws(s[0]) {
        assert(forall|i: int| 0 <= i < s.len() - 1 ==> #[trigger] s.drop_first()[i] == s[i + 1]);
        lemma_ascii_trim_start(s.drop_first());
    }
}

proof fn lemma_ascii_trim_end(s: Seq<char>)
    requires
        is_ascii_chars(s),
    ensures
        is_ascii_chars(trim_end(s)),
    decreases s.len(),
{
    if s.len() > 0 && is_ws(s.last()) {
        assert(forall|i: int| 0 <= i < s.len() - 1 ==> #[trigger] s.drop_last()[i] == s[i]);
        lemma_ascii_trim_end(s.drop_last());
    }
}

proof fn lemma_ascii_lower_has_no_upper(s: Seq<char>)
    ensures
        !has_ascii_upper(ascii_lower(s)),
{
    let l = ascii_lower(s);
    if has_ascii_upper(l) {
        let i = choose|i: int| 0 <= i < l.len() && 'A' <= #[trigger] l[i] && l[i] <= 'Z';
        assert(l[i] == crate::text::ascii_lower_char(s[i]));
    }
}

/// What normalizing gives is always an error code of the right shape: not empty, only ASCII
/// letters, digits and `_`, no `_` at either end and never two in a row. It is "unknown" when
/// no code is given or the lowercased text holds no ASCII letter or digit, and it is in
/// lowercase (`[a-z0-9_]`) whenever the lowercased text holds no uppercase ASCII letter,
/// which ASCII input never does.
pub proof fn law_error_code_shape(value: Option<Seq<char>>)
    ensures
        is_code_shape(error_code_spec(value)),
        value is None ==> error_code_spec(value) == "unknown"@,
        ({
            let lowered = code_lowercase(trim(match value { Some(v) => v, None => "unknown"@ }));
            &&& !has_ascii_alphanumeric(lowered) ==> error_code_spec(value) == "unknown"@
            &&& !has_ascii_upper(lowered) ==> is_lower_code(error_code_spec(value))
        }),
        (value matches Some(v) && is_ascii_chars(v)) ==> is_lower_code(error_code_spec(value)),
{
    reveal_strlit("unknown");
    let raw = match value {
        Some(v) => v,
        None => "unknown"@,
    };
    let lowered = code_lowercase(trim(raw));
    let sq = squash(lowered, false);
    lemma_squash_shape(lowered, false);
    lemma_strip_start_us(sq);
    let st = strip_start_us(sq);
    let k1 = choose|k: int| 0 <= k <= sq.len() && st == #[trigger] sq.subrange(k, sq.len() as int);
    lemma_strip_end_us(st);
    let code = strip_end_us(st);
    let k2 = choose|k: int| 0 <= k <= st.len() && code == #[trigger] st.subrange(0, k);
    assert forall|i: int| 0 <= i < code.len() implies code[i] == #[trigger] sq[i + k1] by {
        assert(code[i] == st[i]);
    }
    assert(forall|i: int| 0 <= i < code.len() ==> is_code_char(#[trigger] code[i])) by {
        assert forall|i: int| 0 <= i < code.len() implies is_code_char(#[trigger] code[i]) by {
            assert(code[i] == sq[i + k1]);
        }
    }
    assert(no_double_us(code)) by {
        assert forall|i: int, j: int| 0 <= i && j == i + 1 && j < code.len() implies !(#[trigger] code[i] == '_' && #[trigger] code[j] == '_') by {
            assert(code[i] == sq[i + k1] && code[j] == sq[j + k1]);
        }
    }
    if code.len() > 0 {
        assert(code[0] == st[0]);
    }
    if !has_ascii_upper(lowered) {
        assert forall|i: int| 0 <= i < code.len() implies is_lower_code_char(#[trigger] code[i]) by {
            assert(code[i] == sq[i + k1]);
        }
    }
    if !has_ascii_alphanumeric(lowered) && code.len() > 0 {
        assert(code[0] == sq[k1]);
        assert(false);
    }
    let unknown = "unknown"@;
    assert(is_lower_code(unknown)) by {
        assert forall|i: int, j: int| 0 <= i && j == i + 1 && j < unknown.len() implies !(#[trigger] unknown[i] == '_' && #[trigger] unknown[j] == '_') by {}
    }
    if value is None {
        assert(is_ascii_chars(raw));
    }
    if value is Some && is_ascii_chars(raw) {
        lemma_ascii_trim(raw);
        lemma_ascii_lower_has_no_upper(trim(raw));
    }
    if value is None {
        lemma_ascii_trim(raw);
        lemma_ascii_lower_has_no_upper(trim(raw));
        assert(trim(raw) == raw) by {
            assert(!is_ws(raw[0]) && !is_ws(raw.last()));
        }
        assert(ascii_lower(raw) =~= raw);
        lemma_squash_fixed(raw, false);
        assert(strip_start_us(raw) == raw);
        assert(strip_end_us(raw) == raw);
    }
}

/// Normalizing a code that is already a lowercase code gives it back unchanged. Since
/// `normalize_error_code` always returns a lowercase code, normalizing twice is normalizing
/// once, for every input.
pub proof fn law_error_code_idempotent(code: Seq<char>)
    requires
        is_lower_code(code),
    ensures
        error_code_spec(Some(code)) == code,
{
    assert(is_ascii_chars(code));
    assert(trim(code) == code) by {
        assert(!is_ws(code[0]) && !is_ws(code.last()));
    }
    assert(ascii_lower(code) =~= code);
    lemma_squash_fixed(code, false);
    assert(strip_start_us(code) == code);
    assert(strip_end_us(code) == code);
}

} // verus!
