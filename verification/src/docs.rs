//! The bundled documentation site: which locale a request gets, which file a path names,
//! and how responses are cached.
use vstd::prelude::*;
use crate::list_paging::opt_str_view;
use crate::text::{trim, trim_str, owned, str_eq, ascii_lower, eq_ignore_ascii_case, has_prefix, has_suffix,
    starts_with, ends_with, chars_of, string_of};

verus! {

#[derive(Debug, Clone, Copy, PartialEq, Eq, Structural)]
pub enum DocsLocale {
    En,
    Zh,
}

impl DocsLocale {
    /// Where the locale's documentation starts.
    pub fn docs_root(self) -> (r: &'static str)
        ensures
            r@ == (match self {
                DocsLocale::En => "/docs/"@,
                DocsLocale::Zh => "/docs/zh/"@,
            }),
    {
        match self {
            DocsLocale::En => "/docs/",
            DocsLocale::Zh => "/docs/zh/",
        }
    }

    /// The locale as the locale cookie stores it.
    pub fn cookie_value(self) -> (r: &'static str)
        ensures
            r@ == (match self {
                DocsLocale::En => "en-US"@,
                DocsLocale::Zh => "zh-CN"@,
            }),
    {
        match self {
            DocsLocale::En => "en-US",
            DocsLocale::Zh => "zh-CN",
        }
    }
}

/// "zh" or "zh-CN" is Chinese, "en" or "en-US" English, in any ASCII case, around blanks.
pub open spec fn lang_spec(value: Seq<char>) -> Option<DocsLocale> {
    let v = ascii_lower(trim(value));
    if v == ascii_lower("zh"@) || v == ascii_lower("zh-CN"@) {
        Some(DocsLocale::Zh)
    } else if v == ascii_lower("en"@) || v == ascii_lower("en-US"@) {
        Some(DocsLocale::En)
    } else {
        None
    }
}

pub fn parse_lang_param(value: &str) -> (r: Option<DocsLocale>)
    ensures
        r == lang_spec(value@),
{
    let v = trim_str(value);
    if eq_ignore_ascii_case(v, "zh") || eq_ignore_ascii_case(v, "zh-CN") {
        return Some(DocsLocale::Zh);
    }
    if eq_ignore_ascii_case(v, "en") || eq_ignore_ascii_case(v, "en-US") {
        return Some(DocsLocale::En);
    }
    None
}

/// The locale a documentation path is under.
pub open spec fn path_locale_spec(path: Seq<char>) -> DocsLocale {
    if path == "/docs/zh"@ || has_prefix(path, "/docs/zh/"@) {
        DocsLocale::Zh
    } else {
        DocsLocale::En
    }
}

pub fn docs_locale_from_path(path: &str) -> (r: DocsLocale)
    ensures
        r == path_locale_spec(path@),
{
    if str_eq(path, "/docs/zh") || starts_with(path, "/docs/zh/") {
        DocsLocale::Zh
    } else {
        DocsLocale::En
    }
}

/// The file a path names: the index for an empty path or a directory, else the path itself.
pub open spec fn docs_candidate_spec(path: Seq<char>) -> Seq<char> {
    let p = trim(path);
    if p.len() == 0 {
        "index.html"@
    } else if p.last() == '/' {
        p + "index.html"@
    } else {
        p
    }
}

pub fn normalize_docs_candidate(path: &str) -> (r: String)
    ensures
        r@ == docs_candidate_spec(path@),
{
    let p = trim_str(path);
    let v = chars_of(p);
    if v.len() == 0 {
        return owned("index.html");
    }
    if v[v.len() - 1] == '/' {
        return owned(p).concat("index.html");
    }
    owned(p)
}

/// HTML is revalidated; hashed assets are cached for a year; anything else for an hour.
pub open spec fn cache_control_spec(path: Seq<char>) -> Seq<char> {
    if has_suffix(path, ".html"@) {
        "no-cache"@
    } else if has_prefix(path, "assets/"@) {
        "public, max-age=31536000, immutable"@
    } else {
        "public, max-age=3600"@
    }
}

pub fn cache_control_for_docs_path(path: &str) -> (r: &'static str)
    ensures
        r@ == cache_control_spec(path@),
{
    if ends_with(path, ".html") {
        "no-cache"
    } else if starts_with(path, "assets/") {
        "public, max-age=31536000, immutable"
    } else {
        "public, max-age=3600"
    }
}

/// Segment `k` of `s` split at `/` holds the characters between separators `k` and `k + 1`.
pub open spec fn segments(s: Seq<char>, sep: char) -> Seq<Seq<char>>
    decreases s.len(),
{
    if s.len() == 0 {
        seq![Seq::<char>::empty()]
    } else {
        let rest = segments(s.drop_last(), sep);
        if s.last() == sep {
            rest.push(Seq::<char>::empty())
        } else {
            rest.update(rest.len() - 1, rest.last().push(s.last()))
        }
    }
}

proof fn lemma_segments_nonempty(s: Seq<char>, sep: char)
    ensures
        segments(s, sep).len() >= 1,
    decreases s.len(),
{
    if s.len() > 0 {
        lemma_segments_nonempty(s.drop_last(), sep);
    }
}

/// A relative path with only plain components: it does not start at the root or with `.`
/// and has no `..` component (what `Path::components` reads as all normal).
pub open spec fn safe_path_spec(path: Seq<char>) -> bool {
    let segs = segments(path, '/');
    &&& !(path.len() > 0 && path[0] == '/')
    &&& segs[0] != "."@
    &&& forall|k: int| 0 <= k < segs.len() ==> #[trigger] segs[k] != ".."@
}

pub fn is_safe_docs_path(path: &str) -> (r: bool)
    ensures
        r == safe_path_spec(path@),
{
    let v = chars_of(path);
    proof {
        reveal_strlit(".");
        reveal_strlit("..");
    }
    if v.len() > 0 && v[0] == '/' {
        return false;
    }
    let mut seg: Vec<char> = Vec::new();
    let mut first = true;
    let mut i: usize = 0;
    assert(v@.take(0) =~= Seq::<char>::empty());
    while i < v.len()
        invariant
            v@ == path@,
            "."@ == seq!['.'],
            ".."@ == seq!['.', '.'],
            i <= v.len(),
            first == (segments(v@.take(i as int), '/').len() == 1),
            segments(v@.take(i as int), '/').len() >= 1,
            seg@ == segments(v@.take(i as int), '/').last(),
            segments(v@.take(i as int), '/').len() > 1 ==> segments(v@.take(i as int), '/')[0] != "."@,
            forall|k: int| 0 <= k < segments(v@.take(i as int), '/').len() - 1
                ==> #[trigger] segments(v@.take(i as int), '/')[k] != ".."@,
        decreases v.len() - i,
    {
        let ghost before = segments(v@.take(i as int), '/');
        assert(v@.take(i + 1).drop_last() =~= v@.take(i as int));
        assert(v@.take(i + 1).last() == v@[i as int]);
        if v[i] == '/' {
            let is_dot = seg.len() == 1 && seg[0] == '.';
            let is_dotdot = seg.len() == 2 && seg[0] == '.' && seg[1] == '.';
            proof {
                assert(is_dot == (seg@ == "."@)) by {
                    if is_dot {
                        assert(seg@ =~= "."@);
                    }
                }
                assert(is_dotdot == (seg@ == ".."@)) by {
                    if is_dotdot {
                        assert(seg@ =~= ".."@);
                    }
                }
            }
            if is_dotdot || (first && is_dot) {
                proof {
                    let all = segments(v@, '/');
                    let next = segments(v@.take(i + 1), '/');
                    lemma_segments_prefix(v@, i as int + 1, '/');
                    assert(next == before.push(Seq::<char>::empty()));
                    assert(next[before.len() - 1] == before.last());
                    assert(all[before.len() - 1] == before.last());
                    if first {
                        assert(next[0] == before[0]);
                    }
                    if first {
                        assert(all[0] == before[0]);
                    }
                }
                return false;
            }
            seg = Vec::new();
            first = false;
        } else {
            seg.push(v[i]);
            proof {
                let after = segments(v@.take(i + 1), '/');
                assert(after == before.update(before.len() - 1, before.last().push(v@[i as int])));
                assert forall|k: int| 0 <= k < after.len() - 1 implies #[trigger] after[k] != ".."@ by {
                    assert(after[k] == before[k]);
                }
            }
        }
        i = i + 1;
    }
    assert(v@.take(v.len() as int) =~= v@);
    let is_dot = seg.len() == 1 && seg[0] == '.';
    let is_dotdot = seg.len() == 2 && seg[0] == '.' && seg[1] == '.';
    proof {
        assert(is_dot == (seg@ == "."@)) by {
            if is_dot {
                assert(seg@ =~= "."@);
            }
        }
        assert(is_dotdot == (seg@ == ".."@)) by {
            if is_dotdot {
                assert(seg@ =~= ".."@);
            }
        }
    }
    !(is_dotdot || (first && is_dot))
}

/// Each segment of a prefix but the last (which may still grow) is a segment of the whole.
proof fn lemma_segments_prefix(s: Seq<char>, i: int, sep: char)
    requires
        0 <= i <= s.len(),
    ensures
        segments(s.take(i), sep).len() <= segments(s, sep).len(),
        forall|k: int| 0 <= k < segments(s.take(i), sep).len() - 1 ==>
            #[trigger] segments(s.take(i), sep)[k] == segments(s, sep)[k],
    decreases s.len() - i,
{
    lemma_segments_nonempty(s.take(i), sep);
    if i < s.len() {
        lemma_segments_prefix(s, i + 1, sep);
        let a = segments(s.take(i), sep);
        let b = segments(s.take(i + 1), sep);
        assert(s.take(i + 1).drop_last() =~= s.take(i));
        assert(s.take(i + 1).last() == s[i]);
        if s[i] == sep {
            assert(b == a.push(Seq::<char>::empty()));
            assert forall|k: int| 0 <= k < a.len() - 1 implies #[trigger] a[k] == segments(s, sep)[k] by {
                assert(b[k] == a[k]);
            }
        } else {
            assert(b == a.update(a.len() - 1, a.last().push(s[i])));
            assert forall|k: int| 0 <= k < a.len() - 1 implies #[trigger] a[k] == segments(s, sep)[k] by {
                assert(b[k] == a[k]);
            }
        }
    } else {
        assert(s.take(i) =~= s);
    }
}


/// What comes before the first `c` in `p` (all of `p` when there is none).
pub open spec fn first_piece(p: Seq<char>, c: char) -> Seq<char>
    decreases p.len(),
{
    if p.len() == 0 {
        p
    } else if p[0] == c {
        Seq::<char>::empty()
    } else {
        seq![p[0]] + first_piece(p.drop_first(), c)
    }
}

/// A language tag that starts with "zh" in any ASCII case.
pub open spec fn is_zh_tag(t: Seq<char>) -> bool {
    t.len() >= 2 && (t[0] == 'z' || t[0] == 'Z') && (t[1] == 'h' || t[1] == 'H')
}

/// Whether a comma-separated entry of an Accept-Language value, without its parameters and
/// trimmed, is a Chinese tag.
pub open spec fn entry_is_zh(entry: Seq<char>) -> bool {
    is_zh_tag(trim(first_piece(entry, ';')))
}

/// Some comma-separated entry of the value is a Chinese tag.
pub open spec fn has_zh_entry(v: Seq<char>) -> bool {
    exists|k: int| 0 <= k < segments(v, ',').len() && entry_is_zh(#[trigger] segments(v, ',')[k])
}

/// Any Chinese entry in an Accept-Language value chooses Chinese.
pub open spec fn accept_language_spec(value: Option<Seq<char>>) -> Option<DocsLocale> {
    match value {
        Some(v) => if has_zh_entry(v) {
            Some(DocsLocale::Zh)
        } else {
            None
        },
        None => None,
    }
}

fn entry_zh(entry: &Vec<char>) -> (r: bool)
    ensures
        r == entry_is_zh(entry@),
{
    let mut piece: Vec<char> = Vec::new();
    let mut i: usize = 0;
    assert(entry@.skip(0) =~= entry@);
    while i < entry.len() && entry[i] != ';'
        invariant
            i <= entry.len(),
            piece@ + first_piece(entry@.skip(i as int), ';') == first_piece(entry@, ';'),
        decreases entry.len() - i,
    {
        let ghost rest = entry@.skip(i as int);
        assert(rest[0] == entry@[i as int]);
        assert(rest.drop_first() =~= entry@.skip(i + 1));
        assert(piece@.push(entry@[i as int]) + first_piece(entry@.skip(i + 1), ';') =~= piece@ + first_piece(rest, ';'));
        piece.push(entry[i]);
        i = i + 1;
    }
    proof {
        if i < entry.len() {
            assert(entry@.skip(i as int)[0] == ';');
        } else {
            assert(entry@.skip(i as int) =~= Seq::<char>::empty());
        }
        assert(piece@ + Seq::<char>::empty() =~= piece@);
    }
    let (a, b) = crate::text::trim_bounds(&piece);
    if b - a < 2 {
        return false;
    }
    let c0 = piece[a];
    let c1 = piece[a + 1];
    (c0 == 'z' || c0 == 'Z') && (c1 == 'h' || c1 == 'H')
}

pub fn docs_locale_from_accept_language(value: Option<&str>) -> (r: Option<DocsLocale>)
    ensures
        r == accept_language_spec(opt_str_view(value)),
{
    let s = match value {
        Some(s) => s,
        None => return None,
    };
    let v = chars_of(s);
    let mut seg: Vec<char> = Vec::new();
    let mut i: usize = 0;
    assert(v@.take(0) =~= Seq::<char>::empty());
    while i < v.len()
        invariant
            v@ == s@,
            opt_str_view(value) == Some(s@),
            i <= v.len(),
            segments(v@.take(i as int), ',').len() >= 1,
            seg@ == segments(v@.take(i as int), ',').last(),
            forall|k: int| 0 <= k < segments(v@.take(i as int), ',').len() - 1
                ==> !entry_is_zh(#[trigger] segments(v@.take(i as int), ',')[k]),
        decreases v.len() - i,
    {
        let ghost before = segments(v@.take(i as int), ',');
        assert(v@.take(i + 1).drop_last() =~= v@.take(i as int));
        assert(v@.take(i + 1).last() == v@[i as int]);
        if v[i] == ',' {
            if entry_zh(&seg) {
                proof {
                    let all = segments(v@, ',');
                    let next = segments(v@.take(i + 1), ',');
                    lemma_segments_prefix(v@, i as int + 1, ',');
                    assert(next == before.push(Seq::<char>::empty()));
                    assert(next[before.len() - 1] == before.last());
                    assert(all[before.len() - 1] == before.last());
                    assert(entry_is_zh(all[before.len() - 1]));
                    assert(0 <= before.len() - 1 < segments(s@, ',').len() && entry_is_zh(segments(s@, ',')[before.len() - 1]));
                    assert(has_zh_entry(s@));
                }
                return Some(DocsLocale::Zh);
            }
            proof {
                let next = segments(v@.take(i + 1), ',');
                assert(next == before.push(Seq::<char>::empty()));
                assert forall|k: int| 0 <= k < next.len() - 1 implies !entry_is_zh(#[trigger] next[k]) by {
                    assert(next[k] == before[k]);
                }
            }
            seg = Vec::new();
        } else {
            seg.push(v[i]);
            proof {
                let next = segments(v@.take(i + 1), ',');
                assert(next == before.update(before.len() - 1, before.last().push(v@[i as int])));
                assert forall|k: int| 0 <= k < next.len() - 1 implies !entry_is_zh(#[trigger] next[k]) by {
                    assert(next[k] == before[k]);
                }
            }
        }
        i = i + 1;
    }
    assert(v@.take(v.len() as int) =~= v@);
    if entry_zh(&seg) {
        proof {
            let all = segments(v@, ',');
            lemma_segments_nonempty(v@, ',');
            assert(entry_is_zh(all[all.len() - 1]));
            assert(0 <= all.len() - 1 < segments(s@, ',').len() && entry_is_zh(segments(s@, ',')[all.len() - 1]));
            assert(has_zh_entry(s@));
        }
        return Some(DocsLocale::Zh);
    }
    proof {
        let all = segments(v@, ',');
        assert forall|k: int| 0 <= k < all.len() implies !entry_is_zh(#[trigger] all[k]) by {
            if k == all.len() - 1 {
                assert(all[k] == seg@);
            }
        }
    }
    None
}

/// The `name=value` pairs of a query string, decoded as `application/x-www-form-urlencoded`.
pub uninterp spec fn form_pairs(query: Seq<char>) -> Seq<(Seq<char>, Seq<char>)>;

pub open spec fn pair_views(pairs: Seq<(String, String)>) -> Seq<(Seq<char>, Seq<char>)> {
    pairs.map_values(|p: (String, String)| (p.0@, p.1@))
}

/// Decodes a query string with `url::form_urlencoded::parse`; the pairs come in the order
/// they stand in the query. What the decoding makes of each pair is not spelled out here: the
/// result is named `form_pairs` of the query.
#[verifier::external_body]
pub(crate) fn decode_query_pairs(query: &str) -> (r: Vec<(String, String)>)
    ensures
        pair_views(r@) == form_pairs(query@),
{
    url::form_urlencoded::parse(query.as_bytes()).map(|(k, v)| (k.into_owned(), v.into_owned())).collect()
}

/// The first `lang` pair whose value names a locale.
pub open spec fn first_lang(pairs: Seq<(Seq<char>, Seq<char>)>) -> Option<DocsLocale>
    decreases pairs.len(),
{
    if pairs.len() == 0 {
        None
    } else if pairs[0].0 == "lang"@ && lang_spec(pairs[0].1) is Some {
        lang_spec(pairs[0].1)
    } else {
        first_lang(pairs.drop_first())
    }
}

/// The locale a `lang` query parameter asks for: that of the first `lang` value that names one.
pub fn locale_from_query_pairs(pairs: &Vec<(String, String)>) -> (r: Option<DocsLocale>)
    ensures
        r == first_lang(pair_views(pairs@)),
{
    let ghost all = pair_views(pairs@);
    let mut i: usize = 0;
    assert(all.skip(0) =~= all);
    while i < pairs.len()
        invariant
            all == pair_views(pairs@),
            i <= pairs.len(),
            first_lang(all) == first_lang(all.skip(i as int)),
        decreases pairs.len() - i,
    {
        let ghost rest = all.skip(i as int);
        assert(rest[0] == (pairs@[i as int].0@, pairs@[i as int].1@));
        if str_eq(pairs[i].0.as_str(), "lang") {
            let l = parse_lang_param(pairs[i].1.as_str());
            if l.is_some() {
                return l;
            }
        }
        assert(rest.drop_first() =~= all.skip(i + 1));
        i = i + 1;
    }
    assert(all.skip(pairs.len() as int) =~= Seq::<(Seq<char>, Seq<char>)>::empty());
    None
}

pub fn docs_locale_from_query(query: Option<&str>) -> (r: Option<DocsLocale>)
    ensures
        r == (match query {
            Some(q) => first_lang(form_pairs(q@)),
            None => None,
        }),
{
    match query {
        Some(q) => {
            let pairs = decode_query_pairs(q);
            locale_from_query_pairs(&pairs)
        },
        None => None,
    }
}

pub fn docs_locale_from_cookie(value: Option<&str>) -> (r: Option<DocsLocale>)
    ensures
        r == (match value {
            Some(v) => lang_spec(v@),
            None => None,
        }),
{
    match value {
        Some(v) => parse_lang_param(v),
        None => None,
    }
}

/// The query's `lang` first (and then it was asked for), else the cookie, else the
/// Accept-Language header, else English.
pub open spec fn resolved_locale_spec(
    query_locale: Option<DocsLocale>,
    cookie: Option<Seq<char>>,
    accept_language: Option<Seq<char>>,
) -> (DocsLocale, bool) {
    match query_locale {
        Some(l) => (l, true),
        None => match (match cookie { Some(c) => lang_spec(c), None => None }) {
            Some(l) => (l, false),
            None => match accept_language_spec(accept_language) {
                Some(l) => (l, false),
                None => (DocsLocale::En, false),
            },
        },
    }
}

pub fn resolve_docs_locale(query: Option<&str>, cookie: Option<&str>, accept_language: Option<&str>) -> (r: (DocsLocale, bool))
    ensures
        r == resolved_locale_spec(
            match query {
                Some(q) => first_lang(form_pairs(q@)),
                None => None,
            },
            opt_str_view(cookie),
            opt_str_view(accept_language),
        ),
{
    if let Some(l) = docs_locale_from_query(query) {
        return (l, true);
    }
    if let Some(l) = docs_locale_from_cookie(cookie) {
        return (l, false);
    }
    if let Some(l) = docs_locale_from_accept_language(accept_language) {
        return (l, false);
    }
    (DocsLocale::En, false)
}


/// Who decides the docs locale, in order: the query's `lang` (and the locale is then marked
/// as asked for), else the locale cookie the reader chose, and only then the browser's
/// `Accept-Language`, else English. In particular a valid cookie wins over any
/// `Accept-Language`, and `Accept-Language` changes nothing when the query or the cookie
/// names a locale.
pub proof fn law_docs_locale_precedence(
    query_locale: Option<DocsLocale>,
    cookie: Option<Seq<char>>,
    accept_language: Option<Seq<char>>,
    other_accept_language: Option<Seq<char>>,
)
    ensures
        query_locale matches Some(l) ==> resolved_locale_spec(query_locale, cookie, accept_language) == (l, true),
        query_locale is None && (cookie matches Some(c) && lang_spec(c) is Some) ==> resolved_locale_spec(
            query_locale,
            cookie,
            accept_language,
        ) == (lang_spec(cookie->0)->0, false),
        (query_locale is Some || (cookie matches Some(c) && lang_spec(c) is Some)) ==> resolved_locale_spec(
            query_locale,
            cookie,
            accept_language,
        ) == resolved_locale_spec(query_locale, cookie, other_accept_language),
        query_locale is None && !(cookie matches Some(c) && lang_spec(c) is Some) ==> resolved_locale_spec(
            query_locale,
            cookie,
            accept_language,
        ) == (match accept_language_spec(accept_language) {
            Some(l) => (l, false),
            None => (DocsLocale::En, false),
        }),
        !resolved_locale_spec(query_locale, cookie, accept_language).1 <==> query_locale is None,
{
}

/// The request for the docs entry page is sent on to the locale's root when the locale was
/// asked for in the query or is Chinese.
pub fn docs_entry_redirect(path: &str, locale: DocsLocale, from_query: bool) -> (r: Option<DocsLocale>)
    ensures
        r == (if path@ == "/docs/"@ && (from_query || locale == DocsLocale::Zh) { Some(locale) } else { None }),
{
    if str_eq(path, "/docs/") && (from_query || locale == DocsLocale::Zh) {
        Some(locale)
    } else {
        None
    }
}

pub open spec fn strip_leading_slashes(s: Seq<char>) -> Seq<char>
    decreases s.len(),
{
    if s.len() > 0 && s[0] == '/' {
        strip_leading_slashes(s.drop_first())
    } else {
        s
    }
}

/// The path below `/docs`, without leading slashes.
pub open spec fn docs_rel_path(uri_path: Seq<char>) -> Seq<char> {
    let rest = if has_prefix(uri_path, "/docs"@) { uri_path.skip(5) } else { uri_path };
    strip_leading_slashes(rest)
}

/// The files to try, in order: the named file, the page without its `.html` (for a
/// non-empty path with no dot that does not end in `/`), then the 404 page.
pub open spec fn docs_candidates_spec(uri_path: Seq<char>) -> Seq<Seq<char>> {
    let p = docs_rel_path(uri_path);
    let first = seq![docs_candidate_spec(p)];
    let page = if p.len() > 0 && !p.contains('.') && p.last() != '/' { seq![p + ".html"@] } else { seq![] };
    first + page + seq!["404.html"@]
}

pub fn docs_candidates(uri_path: &str) -> (r: Vec<String>)
    ensures
        views_of(r@) == docs_candidates_spec(uri_path@),
{
    let v = chars_of(uri_path);
    proof {
        reveal_strlit("/docs");
    }
    let mut a: usize = if starts_with(uri_path, "/docs") { 5 } else { 0 };
    let ghost rest = if has_prefix(uri_path@, "/docs"@) { uri_path@.skip(5) } else { uri_path@ };
    assert(v@.skip(a as int) =~= rest);
    while a < v.len() && v[a] == '/'
        invariant
            v@ == uri_path@,
            a <= v.len(),
            strip_leading_slashes(rest) == strip_leading_slashes(v@.skip(a as int)),
        decreases v.len() - a,
    {
        assert(v@.skip(a as int).drop_first() =~= v@.skip(a + 1));
        a = a + 1;
    }
    proof {
        let t = v@.skip(a as int);
        if t.len() > 0 {
            assert(t[0] == v@[a as int]);
        }
        assert(v@.subrange(a as int, v.len() as int) =~= t);
    }
    let p = string_of(&v, a, v.len());
    let pv = chars_of(p.as_str());
    let mut out: Vec<String> = Vec::new();
    out.push(normalize_docs_candidate(p.as_str()));
    let mut has_dot = false;
    let mut i: usize = 0;
    while i < pv.len()
        invariant
            i <= pv.len(),
            has_dot == (exists|k: int| 0 <= k < i && #[trigger] pv@[k] == '.'),
        decreases pv.len() - i,
    {
        if pv[i] == '.' {
            has_dot = true;
        }
        i = i + 1;
    }
    if pv.len() > 0 && !has_dot && pv[pv.len() - 1] != '/' {
        out.push(p.clone().concat(".html"));
    }
    out.push(owned("404.html"));
    proof {
        let ps = docs_rel_path(uri_path@);
        assert(pv@ == ps);
        assert(views_of(out@) =~= docs_candidates_spec(uri_path@));
    }
    out
}

pub open spec fn views_of(v: Seq<String>) -> Seq<Seq<char>> {
    v.map_values(|s: String| s@)
}

pub const FNV_OFFSET_BASIS: u64 = 0xcbf29ce484222325;
pub const FNV_PRIME: u64 = 0x100000001b3;

/// FNV-1a over the bytes: xor in each byte, then multiply by the prime modulo 2^64.
pub open spec fn fnv_spec(bytes: Seq<u8>) -> u64
    decreases bytes.len(),
{
    if bytes.len() == 0 {
        FNV_OFFSET_BASIS
    } else {
        (((fnv_spec(bytes.drop_last()) ^ (bytes.last() as u64)) as int * FNV_PRIME) % 0x1_0000_0000_0000_0000) as u64
    }
}

pub fn fnv1a64(bytes: &[u8]) -> (r: u64)
    ensures
        r == fnv_spec(bytes@),
{
    let mut hash: u64 = FNV_OFFSET_BASIS;
    let mut i: usize = 0;
    while i < bytes.len()
        invariant
            i <= bytes.len(),
            hash == fnv_spec(bytes@.take(i as int)),
        decreases bytes.len() - i,
    {
        assert(bytes@.take(i + 1).drop_last() =~= bytes@.take(i as int));
        let x: u64 = hash ^ (bytes[i] as u64);
        let next: u128 = ((x as u128) * (FNV_PRIME as u128)) % 0x1_0000_0000_0000_0000u128;
        hash = next as u64;
        i = i + 1;
    }
    assert(bytes@.take(bytes.len() as int) =~= bytes@);
    hash
}

pub open spec fn hex_digit(d: int) -> char {
    if d < 10 {
        (0x30 + d) as char
    } else {
        (0x61 + d - 10) as char
    }
}

/// `n` in lowercase hexadecimal without leading zeros ("0" for zero), as `{:x}` writes it.
pub open spec fn hex(n: nat) -> Seq<char>
    decreases n,
{
    if n < 16 {
        seq![hex_digit(n as int)]
    } else {
        hex(n / 16) + seq![hex_digit((n % 16) as int)]
    }
}

/// The last `w` hexadecimal digits of `n`, zero-padded (as `{:016x}` writes a `u64`).
pub open spec fn hex_fixed(n: nat, w: nat) -> Seq<char>
    decreases w,
{
    if w == 0 {
        seq![]
    } else {
        hex_fixed(n / 16, (w - 1) as nat) + seq![hex_digit((n % 16) as int)]
    }
}

fn hex_char(d: u64) -> (c: char)
    requires
        d < 16,
    ensures
        c == hex_digit(d as int),
{
    if d < 10 {
        ((48 + d) as u8) as char
    } else {
        ((97 + d - 10) as u8) as char
    }
}

fn push_hex(out: &mut String, n: u64)
    ensures
        final(out)@ == old(out)@ + hex(n as nat),
    decreases n,
{
    if n >= 16 {
        push_hex(out, n / 16);
    }
    crate::text::push_char(out, hex_char(n % 16));
}

fn push_hex_fixed(out: &mut String, n: u64, w: u64)
    ensures
        final(out)@ == old(out)@ + hex_fixed(n as nat, w as nat),
    decreases w,
{
    if w > 0 {
        push_hex_fixed(out, n / 16, w - 1);
        crate::text::push_char(out, hex_char(n % 16));
    }
}

/// A weak validator from the content: its length, then its FNV-1a hash in 16 hex digits.
pub open spec fn etag_spec(bytes: Seq<u8>) -> Seq<char> {
    "W/\""@ + hex(bytes.len()) + "-"@ + hex_fixed(fnv_spec(bytes) as nat, 16) + "\""@
}

pub fn embed_etag(bytes: &[u8]) -> (r: String)
    requires
        bytes.len() <= u64::MAX,
    ensures
        r@ == etag_spec(bytes@),
{
    let hash = fnv1a64(bytes);
    let mut out = owned("W/\"");
    push_hex(&mut out, bytes.len() as u64);
    out.append("-");
    push_hex_fixed(&mut out, hash, 16);
    out.append("\"");
    out
}


/// A weak validator for a file on disk: its length and its modification time in seconds
/// (0 when the time cannot be read), both in hexadecimal.
pub open spec fn file_etag_spec(len: u64, modified_secs: Option<u64>) -> Seq<char> {
    let m: u64 = match modified_secs { Some(t) => t, None => 0 };
    "W/\""@ + hex(len as nat) + "-"@ + hex(m as nat) + "\""@
}

pub fn file_etag(len: u64, modified_secs: Option<u64>) -> (r: String)
    ensures
        r@ == file_etag_spec(len, modified_secs),
{
    let m: u64 = match modified_secs { Some(t) => t, None => 0 };
    let mut out = owned("W/\"");
    push_hex(&mut out, len);
    out.append("-");
    push_hex(&mut out, m);
    out.append("\"");
    out
}

/// Whether an `If-None-Match` value lists the validator: one of its comma-separated
/// entries, trimmed, equals it.
pub open spec fn etag_listed(header: Seq<char>, etag: Seq<char>) -> bool {
    exists|k: int| 0 <= k < segments(header, ',').len() && trim(#[trigger] segments(header, ',')[k]) == etag
}

/// Whether the request's `If-None-Match` value (absent when missing or not text) lists the
/// validator.
pub fn etag_matches(if_none_match: Option<&str>, etag: &str) -> (r: bool)
    ensures
        r == (match if_none_match {
            Some(h) => etag_listed(h@, etag@),
            None => false,
        }),
{
    let header = match if_none_match {
        Some(h) => h,
        None => { return false; },
    };
    let v = chars_of(header);
    let mut seg: Vec<char> = Vec::new();
    let mut found = false;
    let mut i: usize = 0;
    assert(v@.take(0) =~= Seq::<char>::empty());
    assert(seg@ =~= Seq::<char>::empty());
    while i < v.len()
        invariant
            v@ == header@,
            i <= v.len(),
            segments(v@.take(i as int), ',').len() >= 1,
            seg@ == segments(v@.take(i as int), ',').last(),
            found == (exists|k: int| 0 <= k < segments(v@.take(i as int), ',').len() - 1
                && trim(#[trigger] segments(v@.take(i as int), ',')[k]) == etag@),
        decreases v.len() - i,
    {
        let ghost before = segments(v@.take(i as int), ',');
        assert(v@.take(i + 1).drop_last() =~= v@.take(i as int));
        assert(v@.take(i + 1).last() == v@[i as int]);
        if v[i] == ',' {
            let (a, b) = crate::text::trim_bounds(&seg);
            let t = string_of(&seg, a, b);
            let hit = str_eq(t.as_str(), etag);
            proof {
                let after = segments(v@.take(i + 1), ',');
                assert(after == before.push(Seq::<char>::empty()));
                assert(after.len() - 1 == before.len());
                if found {
                    let k = choose|k: int| 0 <= k < before.len() - 1 && trim(#[trigger] before[k]) == etag@;
                    assert(after[k] == before[k]);
                }
                if hit {
                    assert(after[before.len() - 1] == before.last());
                }
                if !found && !hit {
                    assert forall|k: int| 0 <= k < after.len() - 1 implies trim(#[trigger] after[k]) != etag@ by {
                        assert(after[k] == before[k]);
                    }
                }
            }
            found = found || hit;
            seg = Vec::new();
            proof {
                assert(seg@ =~= Seq::<char>::empty());
            }
        } else {
            seg.push(v[i]);
            proof {
                let after = segments(v@.take(i + 1), ',');
                assert(after == before.update(before.len() - 1, before.last().push(v@[i as int])));
                if found {
                    let k = choose|k: int| 0 <= k < before.len() - 1 && trim(#[trigger] before[k]) == etag@;
                    assert(after[k] == before[k]);
                } else {
                    assert forall|k: int| 0 <= k < after.len() - 1 implies trim(#[trigger] after[k]) != etag@ by {
                        assert(after[k] == before[k]);
                    }
                }
            }
        }
        i = i + 1;
    }
    assert(v@.take(v.len() as int) =~= v@);
    let (a, b) = crate::text::trim_bounds(&seg);
    let t = string_of(&seg, a, b);
    let hit = str_eq(t.as_str(), etag);
    proof {
        let all = segments(v@, ',');
        if !found && !hit {
            assert forall|k: int| 0 <= k < all.len() implies trim(#[trigger] all[k]) != etag@ by {
                if k == all.len() - 1 {
                } else {
                }
            }
        }
        if hit {
            assert(all[all.len() - 1] == seg@);
        }
    }
    found || hit
}

/// The MIME type that `mime_guess` gives a path by its extension, as text.
pub uninterp spec fn guessed_mime(path: Seq<char>) -> Seq<char>;

/// `mime_guess::from_path(path).first_or_octet_stream()`, as text. The crate looks the path's
/// extension up in its built-in table, with no disk access, and answers
/// `application/octet-stream` when it knows none; the table is not spelled out here: the
/// answer is named `guessed_mime` of the path.
#[verifier::external_body]
fn guess_mime(path: &str) -> (r: String)
    ensures
        r@ == guessed_mime(path@),
{
    mime_guess::from_path(path).first_or_octet_stream().to_string()
}

/// The headers that a documentation response carries.
#[derive(Debug)]
pub struct DocsHeaders {
    pub content_type: String,
    pub cache_control: String,
    pub etag: String,
}

/// A documentation response's headers: the type guessed from the served path, its caching
/// rule, and its validator.
pub fn docs_headers(served_path: &str, etag: &str) -> (r: DocsHeaders)
    ensures
        r.content_type@ == guessed_mime(served_path@),
        r.cache_control@ == cache_control_spec(served_path@),
        r.etag@ == etag@,
{
    DocsHeaders {
        content_type: guess_mime(served_path),
        cache_control: owned(cache_control_for_docs_path(served_path)),
        etag: owned(etag),
    }
}

/// What becomes of a served candidate (the `index`-th of `count`): HTML pages set the locale
/// cookie, and the 404 page served as the last resort answers 404 rather than 200.
pub fn docs_served(index: usize, count: usize, served_path: &str, status_ok: bool) -> (r: (bool, bool))
    ensures
        r.0 == has_suffix(served_path@, ".html"@),
        r.1 == (index + 1 == count && served_path@ == "404.html"@ && status_ok),
{
    let last = index < count && index + 1 == count;
    (ends_with(served_path, ".html"), last && str_eq(served_path, "404.html") && status_ok)
}

} // verus!
