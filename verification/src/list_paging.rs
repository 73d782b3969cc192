//! Sort keys of directory listings, their total order, and the parsing of sort options.
use vstd::prelude::*;
use crate::error::{AppError, plain_error, STATUS_BAD_REQUEST};
use crate::text::{trim, trim_str, str_eq, owned};

verus! {

#[derive(Clone, Copy, Debug, PartialEq, Eq, Structural)]
pub enum SortBy {
    Name,
    Mtime,
    Size,
}

#[derive(Clone, Copy, Debug, PartialEq, Eq, Structural)]
pub enum SortDir {
    Asc,
    Desc,
}

/// The position of a listed entry: sort options, kind rank, and the sorted-on values.
#[derive(Debug)]
pub struct SortKey {
    pub by: SortBy,
    pub dir: SortDir,
    pub rank: u8,
    pub name: String,
    pub mtime: i64,
    pub size: u64,
}

/// A decoded pagination cursor: where the previous page ended.
#[derive(Debug)]
pub struct CursorKey {
    pub rank: u8,
    pub name: String,
    pub sort_by: Option<SortBy>,
    pub sort_dir: Option<SortDir>,
    pub mtime: Option<i64>,
    pub size: Option<u64>,
}

pub open spec fn by_num(b: SortBy) -> int {
    match b {
        SortBy::Name => 0,
        SortBy::Mtime => 1,
        SortBy::Size => 2,
    }
}

pub open spec fn dir_num(d: SortDir) -> int {
    match d {
        SortDir::Asc => 0,
        SortDir::Desc => 1,
    }
}

/// Three-way comparison of integers: -1, 0 or 1.
pub open spec fn int_order(a: int, b: int) -> int {
    if a < b {
        -1
    } else if a == b {
        0
    } else {
        1
    }
}

/// Lexicographic comparison of texts by code point (the order of `str`'s `Ord`).
pub open spec fn text_order(a: Seq<char>, b: Seq<char>) -> int
    decreases a.len(),
{
    if a.len() == 0 {
        if b.len() == 0 {
            0
        } else {
            -1
        }
    } else if b.len() == 0 {
        1
    } else if (a[0] as int) < (b[0] as int) {
        -1
    } else if (a[0] as int) > (b[0] as int) {
        1
    } else {
        text_order(a.drop_first(), b.drop_first())
    }
}

/// A comparison as seen under a sort direction.
pub open spec fn directed(d: SortDir, o: int) -> int {
    match d {
        SortDir::Asc => o,
        SortDir::Desc => -o,
    }
}

/// The order of sort keys: sort options and rank first, then the sorted-on value in the
/// chosen direction, then (for mtime and size) the name ascending.
pub open spec fn key_order(a: SortKey, b: SortKey) -> int {
    let head = if by_num(a.by) != by_num(b.by) {
        int_order(by_num(a.by), by_num(b.by))
    } else if dir_num(a.dir) != dir_num(b.dir) {
        int_order(dir_num(a.dir), dir_num(b.dir))
    } else {
        int_order(a.rank as int, b.rank as int)
    };
    if head != 0 {
        head
    } else {
        match a.by {
            SortBy::Name => directed(a.dir, text_order(a.name@, b.name@)),
            SortBy::Mtime => {
                let o = directed(a.dir, int_order(a.mtime as int, b.mtime as int));
                if o != 0 {
                    o
                } else {
                    text_order(a.name@, b.name@)
                }
            },
            SortBy::Size => {
                let o = directed(a.dir, int_order(a.size as int, b.size as int));
                if o != 0 {
                    o
                } else {
                    text_order(a.name@, b.name@)
                }
            },
        }
    }
}

pub proof fn lemma_text_order_antisym(a: Seq<char>, b: Seq<char>)
    ensures
        text_order(a, b) == -text_order(b, a),
        -1 <= text_order(a, b) <= 1,
        text_order(a, b) == 0 <==> a == b,
    decreases a.len(),
{
    if a.len() > 0 && b.len() > 0 && a[0] == b[0] {
        lemma_text_order_antisym(a.drop_first(), b.drop_first());
        if a.drop_first() == b.drop_first() {
            assert(a =~= seq![a[0]] + a.drop_first());
            assert(b =~= seq![b[0]] + b.drop_first());
        }
    } else if a.len() > 0 && b.len() > 0 {
        assert(a != b);
    } else if a.len() == 0 && b.len() == 0 {
        assert(a =~= b);
    }
}

pub proof fn lemma_text_order_trans(a: Seq<char>, b: Seq<char>, c: Seq<char>)
    requires
        text_order(a, b) < 0,
        text_order(b, c) < 0,
    ensures
        text_order(a, c) < 0,
    decreases a.len(),
{
    if a.len() > 0 && b.len() > 0 && c.len() > 0 && a[0] == b[0] && b[0] == c[0] {
        lemma_text_order_trans(a.drop_first(), b.drop_first(), c.drop_first());
    }
}

/// `key_order` is a total preorder that is antisymmetric up to the compared values.
pub proof fn lemma_key_order_antisym(a: SortKey, b: SortKey)
    ensures
        key_order(a, b) == -key_order(b, a),
        -1 <= key_order(a, b) <= 1,
{
    lemma_text_order_antisym(a.name@, b.name@);
}

/// Keys that compare equal compare the same way with every third key.
pub proof fn lemma_key_order_eq_subst(a: SortKey, b: SortKey, c: SortKey)
    requires
        key_order(a, b) == 0,
    ensures
        key_order(a, c) == key_order(b, c),
{
    lemma_text_order_antisym(a.name@, b.name@);
    lemma_text_order_antisym(a.name@, c.name@);
    lemma_text_order_antisym(b.name@, c.name@);
}

pub proof fn lemma_key_order_trans(a: SortKey, b: SortKey, c: SortKey)
    requires
        key_order(a, b) < 0,
        key_order(b, c) < 0,
    ensures
        key_order(a, c) < 0,
{
    lemma_text_order_antisym(a.name@, b.name@);
    lemma_text_order_antisym(b.name@, c.name@);
    lemma_text_order_antisym(a.name@, c.name@);
    if text_order(a.name@, b.name@) < 0 && text_order(b.name@, c.name@) < 0 {
        lemma_text_order_trans(a.name@, b.name@, c.name@);
    }
    if text_order(b.name@, a.name@) < 0 && text_order(c.name@, b.name@) < 0 {
        lemma_text_order_trans(c.name@, b.name@, a.name@);
    }
}

/// Compares two texts by code point.
pub fn compare_text(a: &str, b: &str) -> (r: i8)
    ensures
        r as int == text_order(a@, b@),
{
    let va = crate::text::chars_of(a);
    let vb = crate::text::chars_of(b);
    let mut i: usize = 0;
    assert(va@.skip(0) =~= va@);
    assert(vb@.skip(0) =~= vb@);
    while i < va.len() && i < vb.len()
        invariant
            i <= va.len() && i <= vb.len(),
            va@ == a@ && vb@ == b@,
            text_order(a@, b@) == text_order(va@.skip(i as int), vb@.skip(i as int)),
        decreases va.len() - i,
    {
        let ca = va[i];
        let cb = vb[i];
        assert(va@.skip(i as int)[0] == va@[i as int]);
        assert(vb@.skip(i as int)[0] == vb@[i as int]);
        if ca < cb {
            return -1;
        }
        if ca > cb {
            return 1;
        }
        assert(va@.skip(i as int).drop_first() =~= va@.skip(i + 1));
        assert(vb@.skip(i as int).drop_first() =~= vb@.skip(i + 1));
        i = i + 1;
    }
    assert(i == va.len() ==> va@.skip(i as int) =~= Seq::<char>::empty());
    assert(i == vb.len() ==> vb@.skip(i as int) =~= Seq::<char>::empty());
    if i < va.len() {
        1
    } else if i < vb.len() {
        -1
    } else {
        0
    }
}

fn int_compare(a: i64, b: i64) -> (r: i8)
    ensures
        r as int == int_order(a as int, b as int),
{
    if a < b {
        -1
    } else if a == b {
        0
    } else {
        1
    }
}

fn uint_compare(a: u64, b: u64) -> (r: i8)
    ensures
        r as int == int_order(a as int, b as int),
{
    if a < b {
        -1
    } else if a == b {
        0
    } else {
        1
    }
}

fn by_code(b: SortBy) -> (r: u8)
    ensures
        r as int == by_num(b),
{
    match b {
        SortBy::Name => 0,
        SortBy::Mtime => 1,
        SortBy::Size => 2,
    }
}

fn dir_code(d: SortDir) -> (r: u8)
    ensures
        r as int == dir_num(d),
{
    match d {
        SortDir::Asc => 0,
        SortDir::Desc => 1,
    }
}

fn apply_dir(d: SortDir, o: i8) -> (r: i8)
    requires
        -1 <= o <= 1,
    ensures
        r as int == directed(d, o as int),
{
    match d {
        SortDir::Asc => o,
        SortDir::Desc => -o,
    }
}

impl SortKey {
    /// Three-way comparison in the listing order: -1, 0 or 1.
    pub fn compare(&self, other: &SortKey) -> (r: i8)
        ensures
            r as int == key_order(*self, *other),
    {
        proof {
            lemma_text_order_antisym(self.name@, other.name@);
        }
        let ba = by_code(self.by);
        let bb = by_code(other.by);
        if ba != bb {
            return if ba < bb { -1 } else { 1 };
        }
        let da = dir_code(self.dir);
        let db = dir_code(other.dir);
        if da != db {
            return if da < db { -1 } else { 1 };
        }
        if self.rank != other.rank {
            return if self.rank < other.rank { -1 } else { 1 };
        }
        match self.by {
            SortBy::Name => apply_dir(self.dir, compare_text(self.name.as_str(), other.name.as_str())),
            SortBy::Mtime => {
                let o = apply_dir(self.dir, int_compare(self.mtime, other.mtime));
                if o != 0 {
                    o
                } else {
                    compare_text(self.name.as_str(), other.name.as_str())
                }
            },
            SortBy::Size => {
                let o = apply_dir(self.dir, uint_compare(self.size, other.size));
                if o != 0 {
                    o
                } else {
                    compare_text(self.name.as_str(), other.name.as_str())
                }
            },
        }
    }
}

/// The rank of an entry kind: directories first by default, files (and symlinks) first
/// under `file_first`, anything else last.
pub open spec fn rank_kind_spec(kind: Seq<char>, type_sort: Option<Seq<char>>) -> u8 {
    let file_like = kind == "file"@ || kind == "symlink"@;
    if type_sort == Some("file_first"@) {
        if file_like {
            0
        } else if kind == "dir"@ {
            1
        } else {
            2
        }
    } else {
        if kind == "dir"@ {
            0
        } else if file_like {
            1
        } else {
            2
        }
    }
}

pub fn rank_kind(kind: &str, type_sort: Option<&str>) -> (r: u8)
    ensures
        r == rank_kind_spec(kind@, match type_sort {
            Some(t) => Some(t@),
            None => None,
        }),
{
    let file_like = str_eq(kind, "file") || str_eq(kind, "symlink");
    let file_first = match type_sort {
        Some(t) => str_eq(t, "file_first"),
        None => false,
    };
    if file_first {
        if file_like {
            0
        } else if str_eq(kind, "dir") {
            1
        } else {
            2
        }
    } else {
        if str_eq(kind, "dir") {
            0
        } else if file_like {
            1
        } else {
            2
        }
    }
}

/// The trimmed option, or `None` when it is absent or blank.
pub open spec fn blank_to_none(raw: Option<Seq<char>>) -> Option<Seq<char>> {
    match raw {
        Some(s) => if trim(s).len() == 0 {
            None
        } else {
            Some(trim(s))
        },
        None => None,
    }
}

pub open spec fn opt_view(raw: Option<String>) -> Option<Seq<char>> {
    match raw {
        Some(s) => Some(s@),
        None => None,
    }
}

pub open spec fn opt_str_view(raw: Option<&str>) -> Option<Seq<char>> {
    match raw {
        Some(s) => Some(s@),
        None => None,
    }
}

/// `sort_by` as given: absent or blank means name; `name`, `mtime` and `size` are known.
pub open spec fn sort_by_spec(raw: Option<Seq<char>>) -> Option<SortBy> {
    match blank_to_none(raw) {
        None => Some(SortBy::Name),
        Some(v) => if v == "name"@ {
            Some(SortBy::Name)
        } else if v == "mtime"@ {
            Some(SortBy::Mtime)
        } else if v == "size"@ {
            Some(SortBy::Size)
        } else {
            None
        },
    }
}

/// `sort_dir` as given: absent or blank means ascending; `asc` and `desc` are known.
pub open spec fn sort_dir_spec(raw: Option<Seq<char>>) -> Option<SortDir> {
    match blank_to_none(raw) {
        None => Some(SortDir::Asc),
        Some(v) => if v == "asc"@ {
            Some(SortDir::Asc)
        } else if v == "desc"@ {
            Some(SortDir::Desc)
        } else {
            None
        },
    }
}

/// The trimmed text of an optional string, `None` when absent or blank.
pub fn trimmed_non_blank(raw: Option<&str>) -> (r: Option<String>)
    ensures
        opt_view(r) == blank_to_none(opt_str_view(raw)),
{
    match raw {
        Some(s) => {
            let t = trim_str(s);
            if t.unicode_len() == 0 {
                None
            } else {
                Some(owned(t))
            }
        },
        None => None,
    }
}

pub fn parse_sort_by(raw: Option<String>) -> (r: Result<SortBy, AppError>)
    ensures
        match sort_by_spec(opt_view(raw)) {
            Some(b) => r == Ok::<SortBy, AppError>(b),
            None => r is Err && plain_error(r->Err_0, STATUS_BAD_REQUEST, "invalid_sort_by"@, "invalid sort_by"@),
        },
{
    let t = match &raw {
        Some(s) => trimmed_non_blank(Some(s.as_str())),
        None => None,
    };
    match t {
        None => Ok(SortBy::Name),
        Some(v) => {
            if str_eq(v.as_str(), "name") {
                Ok(SortBy::Name)
            } else if str_eq(v.as_str(), "mtime") {
                Ok(SortBy::Mtime)
            } else if str_eq(v.as_str(), "size") {
                Ok(SortBy::Size)
            } else {
                Err(AppError::bad_request("invalid_sort_by", "invalid sort_by"))
            }
        },
    }
}

pub fn parse_sort_dir(raw: Option<String>) -> (r: Result<SortDir, AppError>)
    ensures
        match sort_dir_spec(opt_view(raw)) {
            Some(d) => r == Ok::<SortDir, AppError>(d),
            None => r is Err && plain_error(r->Err_0, STATUS_BAD_REQUEST, "invalid_sort_dir"@, "invalid sort_dir"@),
        },
{
    let t = match &raw {
        Some(s) => trimmed_non_blank(Some(s.as_str())),
        None => None,
    };
    match t {
        None => Ok(SortDir::Asc),
        Some(v) => {
            if str_eq(v.as_str(), "asc") {
                Ok(SortDir::Asc)
            } else if str_eq(v.as_str(), "desc") {
                Ok(SortDir::Desc)
            } else {
                Err(AppError::bad_request("invalid_sort_dir", "invalid sort_dir"))
            }
        },
    }
}

/// Unpadded URL-safe base64 of the bytes, as the `base64` crate's `URL_SAFE_NO_PAD` engine
/// writes it.
pub uninterp spec fn url_safe_b64(bytes: Seq<u8>) -> Seq<char>;

/// The bytes that the `URL_SAFE_NO_PAD` engine reads back from a text; `None` where it
/// refuses the text.
pub uninterp spec fn url_safe_b64_decoded(text: Seq<char>) -> Option<Seq<u8>>;

/// `base64::Engine::encode` with `URL_SAFE_NO_PAD`: the text it writes is named
/// `url_safe_b64` of the bytes, and the same engine reads it back to the same bytes.
#[verifier::external_body]
fn b64_encode(bytes: &[u8]) -> (r: String)
    ensures
        r@ == url_safe_b64(bytes@),
        url_safe_b64_decoded(r@) == Some(bytes@),
{
    base64::Engine::encode(&base64::engine::general_purpose::URL_SAFE_NO_PAD, bytes)
}

/// `base64::Engine::decode` with `URL_SAFE_NO_PAD`, its error dropped: what it reads is
/// named `url_safe_b64_decoded` of the text.
#[verifier::external_body]
fn b64_decode(text: &str) -> (r: Option<Vec<u8>>)
    ensures
        match r {
            Some(b) => url_safe_b64_decoded(text@) == Some(b@),
            None => url_safe_b64_decoded(text@) is None,
        },
{
    base64::Engine::decode(&base64::engine::general_purpose::URL_SAFE_NO_PAD, text).ok()
}

/// The cursor text of a serialized cursor: its bytes in unpadded URL-safe base64, which
/// `decode_cursor_bytes` reads back to the same bytes.
pub fn encode_cursor_bytes(json: &[u8]) -> (r: String)
    ensures
        r@ == url_safe_b64(json@),
        url_safe_b64_decoded(r@) == Some(json@),
{
    b64_encode(json)
}

/// The serialized cursor inside a cursor text; a text that is not unpadded URL-safe base64
/// is refused.
pub fn decode_cursor_bytes(cursor: &str) -> (r: Result<Vec<u8>, AppError>)
    ensures
        match url_safe_b64_decoded(cursor@) {
            Some(b) => r matches Ok(v) && v@ == b,
            None => r is Err && plain_error(r->Err_0, STATUS_BAD_REQUEST, "invalid_cursor"@, "invalid cursor encoding"@),
        },
{
    match b64_decode(cursor) {
        Some(b) => Ok(b),
        None => Err(AppError::bad_request("invalid_cursor", "invalid cursor encoding")),
    }
}

/// A page of a list: page numbers below 1 are read as 1; a page holds 20 items unless asked
/// otherwise, between 1 and 100; the offset of its first item saturates.
#[derive(Debug, Clone, Copy, PartialEq, Eq, Structural)]
pub struct PageWindow {
    pub page: i64,
    pub page_size: i64,
    pub offset: i64,
}

pub open spec fn page_window_spec(page: Option<i64>, page_size: Option<i64>) -> PageWindow {
    let p: i64 = match page { Some(p) => if p < 1 { 1 } else { p }, None => 1 };
    let s0: i64 = match page_size { Some(s) => s, None => 20 };
    let s: i64 = if s0 < 1 { 1 } else if s0 > 100 { 100 } else { s0 };
    let o: int = (p - 1) * s;
    PageWindow { page: p, page_size: s, offset: if o > i64::MAX { i64::MAX } else { o as i64 } }
}

pub fn page_window(page: Option<i64>, page_size: Option<i64>) -> (r: PageWindow)
    ensures
        r == page_window_spec(page, page_size),
{
    let p: i64 = match page { Some(p) => if p < 1 { 1 } else { p }, None => 1 };
    let s0: i64 = match page_size { Some(s) => s, None => 20 };
    let s: i64 = if s0 < 1 { 1 } else if s0 > 100 { 100 } else { s0 };
    let before: i64 = p - 1;
    let offset: i64 = if before > i64::MAX / s {
        proof {
            assert(before * s > i64::MAX) by (nonlinear_arith)
                requires
                    before > i64::MAX / s,
                    1 <= s <= 100;
        }
        i64::MAX
    } else {
        proof {
            assert(0 <= before * s <= i64::MAX) by (nonlinear_arith)
                requires
                    0 <= before <= i64::MAX / s,
                    1 <= s <= 100;
        }
        before * s
    };
    PageWindow { page: p, page_size: s, offset }
}

} // verus!
