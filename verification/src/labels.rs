//! Agent labels: the rules a label follows, and the normal form of a set of labels.
use vstd::prelude::*;
use vstd::utf8::{encode_utf8, encode_scalar, is_ascii_chars};
use crate::error::{AppError, STATUS_BAD_REQUEST, plain_error};
use crate::json::{JsonValue, is_str, json_str, object_entries};
use crate::list_paging::{opt_str_view, blank_to_none, trimmed_non_blank};
use crate::sorted_text::{views, strictly_ascending, insert_sorted};
use crate::text::{trim, trim_start, trim_end, trim_str, owned, str_eq, ascii_lower, to_ascii_lowercase, is_ascii_lowercase,
    is_ascii_digit, chars_of};

verus! {

/// The longest a label may be, in bytes.
pub const LABEL_MAX_LEN: usize = 32;

#[derive(Debug, Clone, Copy, PartialEq, Eq, Structural)]
pub enum LabelsMode {
    And,
    Or,
}

/// The labels mode as given: absent or blank means "and".
pub open spec fn labels_mode_spec(raw: Option<Seq<char>>) -> Option<LabelsMode> {
    let v = match blank_to_none(raw) {
        Some(v) => v,
        None => "and"@,
    };
    if v == "and"@ {
        Some(LabelsMode::And)
    } else if v == "or"@ {
        Some(LabelsMode::Or)
    } else {
        None
    }
}

pub fn parse_labels_mode(value: Option<&str>) -> (r: Result<LabelsMode, AppError>)
    ensures
        match labels_mode_spec(opt_str_view(value)) {
            Some(m) => r == Ok::<LabelsMode, AppError>(m),
            None => r is Err && plain_error(r->Err_0, STATUS_BAD_REQUEST, "invalid_labels_mode"@, "Invalid labels_mode"@),
        },
{
    let t = trimmed_non_blank(value);
    let v: &str = match &t {
        Some(s) => s.as_str(),
        None => "and",
    };
    if str_eq(v, "and") {
        Ok(LabelsMode::And)
    } else if str_eq(v, "or") {
        Ok(LabelsMode::Or)
    } else {
        Err(AppError::bad_request("invalid_labels_mode", "Invalid labels_mode"))
    }
}

pub open spec fn label_char_ok(c: char) -> bool {
    is_ascii_lowercase(c) || is_ascii_digit(c) || c == '-' || c == '_'
}

/// The first rule the trimmed label breaks, as the error message; `None` when it is valid.
pub open spec fn label_problem(raw: Seq<char>) -> Option<Seq<char>> {
    let l = trim(raw);
    if l.len() == 0 {
        Some("Label is required"@)
    } else if encode_utf8(l).len() > LABEL_MAX_LEN {
        Some("Label is too long"@)
    } else if !is_ascii_chars(l) {
        Some("Label must be ASCII lowercase"@)
    } else if l != ascii_lower(l) {
        Some("Label must be lowercase"@)
    } else if !(forall|i: int| 0 <= i < l.len() ==> label_char_ok(#[trigger] l[i])) {
        Some("Label contains invalid characters"@)
    } else if l[0] == '-' || l[0] == '_' {
        Some("Label must start with a letter or digit"@)
    } else {
        None
    }
}

/// The error for a label that breaks the rule `message`: a missing label names the field,
/// a long one the limit.
pub open spec fn is_label_error(e: AppError, message: Seq<char>) -> bool {
    &&& e.status == STATUS_BAD_REQUEST
    &&& e.code@ == "invalid_label"@
    &&& e.message@ == message
    &&& e.debug_details is None
    &&& if message == "Label is required"@ {
        &&& e.details matches Some(JsonValue::Object(_))
        &&& object_entries(e.details).len() == 1
        &&& object_entries(e.details)[0].0@ == "field"@
        &&& is_str(object_entries(e.details)[0].1, "labels"@)
    } else if message == "Label is too long"@ {
        &&& e.details matches Some(JsonValue::Object(_))
        &&& object_entries(e.details).len() == 1
        &&& object_entries(e.details)[0].0@ == "max_len"@
        &&& object_entries(e.details)[0].1 == JsonValue::UInt(LABEL_MAX_LEN as u64)
    } else {
        e.details is None
    }
}

fn one_entry(key: &str, value: JsonValue) -> (r: JsonValue)
    ensures
        r matches JsonValue::Object(e) && e@.len() == 1 && e@[0].0@ == key@ && e@[0].1 == value,
{
    let mut v: Vec<(String, JsonValue)> = Vec::new();
    v.push((owned(key), value));
    JsonValue::Object(v)
}

fn label_error(message: &str) -> (e: AppError)
    ensures
        plain_error(e, STATUS_BAD_REQUEST, "invalid_label"@, message@),
{
    AppError::bad_request("invalid_label", message)
}

pub fn utf8_width(c: char) -> (w: u64)
    ensures
        w == encode_scalar(c as u32).len(),
        w <= 4,
{
    let v = c as u32;
    if v <= 0x7f {
        1
    } else if v <= 0x7ff {
        2
    } else if v <= 0xffff {
        3
    } else {
        4
    }
}

/// Whether the UTF-8 encoding of the text is longer than `limit` bytes.
pub fn utf8_len_exceeds(chars: &Vec<char>, limit: u64) -> (r: bool)
    requires
        limit <= 1_000_000,
    ensures
        r == (encode_utf8(chars@).len() > limit),
{
    let mut acc: u64 = 0;
    let mut i: usize = 0;
    assert(chars@.skip(0) =~= chars@);
    while i < chars.len()
        invariant
            i <= chars.len(),
            limit <= 1_000_000,
            acc <= limit,
            acc + encode_utf8(chars@.skip(i as int)).len() == encode_utf8(chars@).len(),
        decreases chars.len() - i,
    {
        let rest = Ghost(chars@.skip(i as int));
        assert(rest@[0] == chars@[i as int]);
        assert(rest@.drop_first() =~= chars@.skip(i + 1));
        acc = acc + utf8_width(chars[i]);
        if acc > limit {
            return true;
        }
        i = i + 1;
    }
    assert(chars@.skip(chars.len() as int) =~= Seq::<char>::empty());
    false
}

fn all_label_chars(chars: &Vec<char>) -> (r: bool)
    ensures
        r == (forall|i: int| 0 <= i < chars@.len() ==> label_char_ok(#[trigger] chars@[i])),
{
    let mut i: usize = 0;
    while i < chars.len()
        invariant
            i <= chars.len(),
            forall|k: int| 0 <= k < i ==> label_char_ok(#[trigger] chars@[k]),
        decreases chars.len() - i,
    {
        let c = chars[i];
        let ok = ('a' <= c && c <= 'z') || ('0' <= c && c <= '9') || c == '-' || c == '_';
        if !ok {
            assert(!label_char_ok(chars@[i as int]));
            return false;
        }
        i = i + 1;
    }
    true
}

/// The trimmed label, or the error for the first rule it breaks.
pub fn validate_label(value: &str) -> (r: Result<String, AppError>)
    ensures
        match label_problem(value@) {
            None => r matches Ok(l) && l@ == trim(value@),
            Some(m) => r matches Err(e) && is_label_error(e, m),
        },
{
    let label = trim_str(value);
    let chars = chars_of(label);
    proof {
        reveal_strlit("Label is required");
        reveal_strlit("Label is too long");
        reveal_strlit("Label must be ASCII lowercase");
        reveal_strlit("Label must be lowercase");
        reveal_strlit("Label contains invalid characters");
        reveal_strlit("Label must start with a letter or digit");
        assert("Label is too long"@[9] != "Label is required"@[9]);
        assert("Label must be ASCII lowercase"@[6] != "Label is required"@[6]);
        assert("Label must be lowercase"@[6] != "Label is required"@[6]);
        assert("Label contains invalid characters"@[6] != "Label is required"@[6]);
        assert("Label must start with a letter or digit"@[6] != "Label is required"@[6]);
        assert("Label must be ASCII lowercase"@[6] != "Label is too long"@[6]);
        assert("Label must be lowercase"@[6] != "Label is too long"@[6]);
        assert("Label contains invalid characters"@[6] != "Label is too long"@[6]);
        assert("Label must start with a letter or digit"@[6] != "Label is too long"@[6]);
    }
    if chars.len() == 0 {
        let e = label_error("Label is required").with_details(one_entry("field", json_str("labels")));
        assert(object_entries(e.details) =~= object_entries(None) + seq![object_entries(e.details)[0]]);
        return Err(e);
    }
    if utf8_len_exceeds(&chars, 32) {
        let e = label_error("Label is too long").with_details(one_entry("max_len", JsonValue::UInt(32)));
        return Err(e);
    }
    if !label.is_ascii() {
        return Err(label_error("Label must be ASCII lowercase"));
    }
    let lower = to_ascii_lowercase(label);
    if !str_eq(label, lower.as_str()) {
        return Err(label_error("Label must be lowercase"));
    }
    if !all_label_chars(&chars) {
        return Err(label_error("Label contains invalid characters"));
    }
    if chars[0] == '-' || chars[0] == '_' {
        return Err(label_error("Label must start with a letter or digit"));
    }
    Ok(owned(label))
}

/// The trimmed form of each given label.
pub open spec fn trimmed_all(values: Seq<String>) -> Seq<Seq<char>> {
    values.map_values(|v: String| trim(v@))
}

/// Label `i` is the first that breaks a rule, and `e` is its error.
pub open spec fn first_bad_label(values: Seq<String>, i: int, e: AppError) -> bool {
    &&& 0 <= i < values.len()
    &&& forall|k: int| 0 <= k < i ==> label_problem(#[trigger] values[k]@) is None
    &&& label_problem(values[i]@) matches Some(m) && is_label_error(e, m)
}

/// Valid labels, trimmed, sorted and without repeats; or the error for the first invalid one.
pub fn normalize_labels(values: Vec<String>) -> (r: Result<Vec<String>, AppError>)
    ensures
        match r {
            Ok(out) => {
                &&& forall|i: int| 0 <= i < values.len() ==> label_problem(#[trigger] values@[i]@) is None
                &&& strictly_ascending(views(out@))
                &&& views(out@).to_set() == trimmed_all(values@).to_set()
            },
            Err(e) => exists|i: int| #[trigger] first_bad_label(values@, i, e),
        },
{
    let mut out: Vec<String> = Vec::new();
    let mut i: usize = 0;
    while i < values.len()
        invariant
            i <= values.len(),
            forall|k: int| 0 <= k < i ==> label_problem(#[trigger] values@[k]@) is None,
            strictly_ascending(views(out@)),
            views(out@).to_set() == trimmed_all(values@).take(i as int).to_set(),
        decreases values.len() - i,
    {
        match validate_label(values[i].as_str()) {
            Ok(label) => {
                let ghost before = views(out@).to_set();
                insert_sorted(&mut out, label);
                proof {
                    assert(trimmed_all(values@).take(i + 1) =~= trimmed_all(values@).take(i as int).push(trim(values@[i as int]@)));
                    trimmed_all(values@).take(i as int).lemma_push_to_set_commute(trim(values@[i as int]@));
                    assert(views(out@).to_set() =~= trimmed_all(values@).take(i + 1).to_set());
                }
            },
            Err(e) => {
                assert(first_bad_label(values@, i as int, e));
                return Err(e);
            },
        }
        i = i + 1;
    }
    assert(trimmed_all(values@).take(values.len() as int) =~= trimmed_all(values@));
    Ok(out)
}


/// A valid label is its own trimmed form.
proof fn lemma_valid_label_trimmed(raw: Seq<char>)
    requires
        label_problem(raw) is None,
    ensures
        trim(trim(raw)) == trim(raw),
{
    let l = trim(raw);
    assert(label_char_ok(l[0]));
    assert(label_char_ok(l[l.len() - 1]));
    assert(trim_start(l) == l);
    assert(trim_end(l) == l);
}

/// Normalizing is idempotent: the normal form consists of valid labels, so normalizing it
/// again succeeds, and gives it back unchanged.
pub proof fn lemma_normalize_labels_idempotent(values: Seq<String>, out: Seq<String>, again: Seq<String>)
    requires
        forall|i: int| 0 <= i < values.len() ==> label_problem(#[trigger] values[i]@) is None,
        strictly_ascending(views(out)),
        views(out).to_set() == trimmed_all(values).to_set(),
        strictly_ascending(views(again)),
        views(again).to_set() == trimmed_all(out).to_set(),
    ensures
        forall|i: int| 0 <= i < out.len() ==> label_problem(#[trigger] out[i]@) is None,
        views(again) == views(out),
{
    assert forall|i: int| 0 <= i < out.len() implies label_problem(#[trigger] out[i]@) is None && trim(out[i]@) == out[i]@ by {
        assert(views(out)[i] == out[i]@);
        assert(views(out).to_set().contains(out[i]@));
        assert(trimmed_all(values).contains(out[i]@));
        let k = choose|k: int| 0 <= k < trimmed_all(values).len() && trimmed_all(values)[k] == out[i]@;
        assert(label_problem(values[k]@) is None);
        lemma_valid_label_trimmed(values[k]@);
        assert(trim(out[i]@) == out[i]@);
        assert(label_problem(out[i]@) == label_problem(values[k]@));
    }
    assert(trimmed_all(out) =~= views(out));
    crate::sorted_text::lemma_ascending_unique(views(again), views(out));
}

/// The normal form depends only on which labels are given: any order, and any repeats, of
/// the same trimmed labels give the same list.
pub proof fn lemma_normalize_labels_order_free(v1: Seq<String>, out1: Seq<String>, v2: Seq<String>, out2: Seq<String>)
    requires
        strictly_ascending(views(out1)),
        views(out1).to_set() == trimmed_all(v1).to_set(),
        strictly_ascending(views(out2)),
        views(out2).to_set() == trimmed_all(v2).to_set(),
        trimmed_all(v1).to_set() == trimmed_all(v2).to_set(),
    ensures
        views(out1) == views(out2),
{
    crate::sorted_text::lemma_ascending_unique(views(out1), views(out2));
}

} // verus!
