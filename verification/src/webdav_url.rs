//! Where a run's artifacts live on a WebDAV target: the target's base URL, made a directory,
//! and the run's directory under the job's directory below it.
use vstd::prelude::*;
use crate::list_paging::opt_view;
use crate::text::{owned, trim, trim_str};

verus! {

#[verifier::external_type_specification]
#[verifier::external_body]
pub struct ExUrl(url::Url);

#[verifier::external_type_specification]
#[verifier::external_body]
pub struct ExUrlParseError(url::ParseError);

/// The serialization of a URL, as `Url::as_str` gives it. A `Url` holds its serialization and
/// positions in it (with the kind of host), all read off the serialization when it is parsed.
pub uninterp spec fn url_text(u: url::Url) -> Seq<char>;

/// The serialization of the URL that `Url::parse` reads from a text, or `None` when it
/// refuses the text.
pub uninterp spec fn parsed_url(s: Seq<char>) -> Option<Seq<char>>;

/// `Url::path` of the URL with this serialization.
pub uninterp spec fn url_path_of(text: Seq<char>) -> Seq<char>;

/// The serialization of the URL with this serialization after `Url::set_path(path)`.
pub uninterp spec fn url_with_path(text: Seq<char>, path: Seq<char>) -> Seq<char>;

/// `Url::join`: the serialization of `input` read against the URL with this serialization,
/// or `None` when it is refused.
pub uninterp spec fn url_joined(text: Seq<char>, input: Seq<char>) -> Option<Seq<char>>;

/// `url::Url::parse`.
#[verifier::external_body]
fn parse_url(s: &str) -> (r: Result<url::Url, url::ParseError>)
    ensures
        match r {
            Ok(u) => parsed_url(s@) == Some(url_text(u)),
            Err(_) => parsed_url(s@) is None,
        },
{
    url::Url::parse(s)
}

/// `Url::as_str`, copied.
#[verifier::external_body]
fn url_as_text(u: &url::Url) -> (r: String)
    ensures
        r@ == url_text(*u),
{
    u.as_str().to_string()
}

/// `Url::path`, copied: a slice of the serialization, so no longer than it.
#[verifier::external_body]
fn url_path(u: &url::Url) -> (r: String)
    ensures
        r@ == url_path_of(url_text(*u)),
        r@.len() <= url_text(*u).len(),
{
    u.path().to_string()
}

/// `Url::set_path`. It panics when the rewritten serialization would pass `u32::MAX` bytes;
/// the bound asked here keeps well below that (four bytes a character of the old
/// serialization, twelve for each character of the path once percent-encoded).
#[verifier::external_body]
fn set_url_path(u: &mut url::Url, path: &str)
    requires
        4 * url_text(*old(u)).len() + 12 * path@.len() + 16 <= u32::MAX,
    ensures
        url_text(*final(u)) == url_with_path(url_text(*old(u)), path@),
{
    u.set_path(path)
}

/// `Url::join`.
#[verifier::external_body]
fn join_url(u: &url::Url, input: &str) -> (r: Result<url::Url, url::ParseError>)
    ensures
        match r {
            Ok(v) => url_joined(url_text(*u), input@) == Some(url_text(v)),
            Err(_) => url_joined(url_text(*u), input@) is None,
        },
{
    u.join(input)
}

/// The path a base URL is given so that it names a directory: none when it already ends
/// in `/`, else the path with `/` added.
pub open spec fn dir_path(path: Seq<char>) -> Option<Seq<char>> {
    if path.len() > 0 && path.last() == '/' {
        None
    } else {
        Some(path + seq!['/'])
    }
}

pub fn dir_path_fix(path: &str) -> (r: Option<String>)
    ensures
        opt_view(r) == dir_path(path@),
{
    let n = path.unicode_len();
    if n > 0 && path.get_char(n - 1) == '/' {
        None
    } else {
        let mut p = owned(path);
        p.append("/");
        proof {
            reveal_strlit("/");
            assert(p@ =~= path@ + seq!['/']);
        }
        Some(p)
    }
}

/// The base URL (made a directory) and the run's URL `<base>/<job_id>/<run_id>/`, as
/// serializations, from the serialization of the parsed base URL; `None` when a join is
/// refused.
pub open spec fn webdav_urls_spec(base: Seq<char>, job_id: Seq<char>, run_id: Seq<char>) -> Option<(Seq<char>, Seq<char>)> {
    let b = match dir_path(url_path_of(base)) {
        None => base,
        Some(p) => url_with_path(base, p),
    };
    match url_joined(b, job_id + seq!['/']) {
        None => None,
        Some(j) => match url_joined(j, run_id + seq!['/']) {
            None => None,
            Some(run) => Some((b, run)),
        },
    }
}

/// Whether a parsed base URL is short enough for its path to be rewritten without passing
/// the URL length limit.
pub open spec fn base_fits(text: Seq<char>) -> bool {
    16 * text.len() + 16 <= u32::MAX
}

/// The base URL made a directory and the run's URL below it, from the parsed base URL (see
/// `webdav_urls_spec`).
pub fn webdav_run_urls_from(base: url::Url, job_id: &str, run_id: &str) -> (r: Result<(url::Url, url::Url), url::ParseError>)
    requires
        base_fits(url_text(base)),
    ensures
        match webdav_urls_spec(url_text(base), job_id@, run_id@) {
            Some((b, run)) => r matches Ok((bu, ru)) && url_text(bu) == b && url_text(ru) == run,
            None => r is Err,
        },
{
    let mut base = base;
    let path = url_path(&base);
    match dir_path_fix(path.as_str()) {
        Some(p) => {
            set_url_path(&mut base, p.as_str());
        },
        None => {},
    }
    let mut job_part = owned(job_id);
    job_part.append("/");
    let mut run_part = owned(run_id);
    run_part.append("/");
    proof {
        reveal_strlit("/");
        assert(job_part@ =~= job_id@ + seq!['/']);
        assert(run_part@ =~= run_id@ + seq!['/']);
    }
    let job_url = match join_url(&base, job_part.as_str()) {
        Ok(u) => u,
        Err(e) => {
            return Err(e);
        },
    };
    match join_url(&job_url, run_part.as_str()) {
        Ok(run_url) => Ok((base, run_url)),
        Err(e) => Err(e),
    }
}

/// The base URL made a directory and the run's URL below it, from the target's base URL
/// text (trimmed): the parse error when it does not parse; `Ok(None)` when the parsed URL is
/// too long for its path to be rewritten (see `base_fits`); else as `webdav_run_urls_from`.
pub fn webdav_run_urls(base_url: &str, job_id: &str, run_id: &str) -> (r: Result<Option<(url::Url, url::Url)>, url::ParseError>)
    ensures
        match parsed_url(trim(base_url@)) {
            None => r is Err,
            Some(t) => if !base_fits(t) {
                r matches Ok(None)
            } else {
                match webdav_urls_spec(t, job_id@, run_id@) {
                    Some((b, run)) => r matches Ok(Some((bu, ru))) && url_text(bu) == b && url_text(ru) == run,
                    None => r is Err,
                }
            },
        },
{
    let base = match parse_url(trim_str(base_url)) {
        Ok(u) => u,
        Err(e) => {
            return Err(e);
        },
    };
    let text = url_as_text(&base);
    let n = text.as_str().unicode_len();
    if n > 268_435_454 {
        return Ok(None);
    }
    match webdav_run_urls_from(base, job_id, run_id) {
        Ok(urls) => Ok(Some(urls)),
        Err(e) => Err(e),
    }
}

} // verus!
