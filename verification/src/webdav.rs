//! The WebDAV side of synchronisation: where the snapshot lives, and what
//! the answers of the server mean.
use vstd::prelude::*;
use vstd::string::StringExecFns;

use crate::error::{AppError, AppErrorKind};
use crate::recurrence::str_equals;
use crate::sync_service::SyncConfig;
use crate::text::{trim_text, trimmed};

verus! {

pub const SNAPSHOT_FILE_NAME: &'static str = "current.snapshot.enc";

/// Seconds before a request to the server gives up.
pub const REQUEST_TIMEOUT_SECONDS: u64 = 20;

pub fn configuration_error() -> (r: AppError)
    ensures
        r.has("sync.configuration.invalid", "errors.sync.configuration.invalid", AppErrorKind::Configuration),
{
    AppError::new("sync.configuration.invalid", "errors.sync.configuration.invalid", AppErrorKind::Configuration)
}

pub fn remote_error() -> (r: AppError)
    ensures
        r.has("sync.remote.unavailable", "errors.sync.remote.unavailable", AppErrorKind::Remote),
{
    AppError::new("sync.remote.unavailable", "errors.sync.remote.unavailable", AppErrorKind::Remote)
}

pub fn authentication_error() -> (r: AppError)
    ensures
        r.has(
            "sync.remote.authentication_failed",
            "errors.sync.remote.authentication_failed",
            AppErrorKind::Remote,
        ),
{
    AppError::new("sync.remote.authentication_failed", "errors.sync.remote.authentication_failed", AppErrorKind::Remote)
}

pub fn path_not_found_error() -> (r: AppError)
    ensures
        r.has("sync.remote.path_not_found", "errors.sync.remote.path_not_found", AppErrorKind::Remote),
{
    AppError::new("sync.remote.path_not_found", "errors.sync.remote.path_not_found", AppErrorKind::Remote)
}

pub fn method_not_allowed_error() -> (r: AppError)
    ensures
        r.has("sync.remote.method_not_allowed", "errors.sync.remote.method_not_allowed", AppErrorKind::Remote),
{
    AppError::new("sync.remote.method_not_allowed", "errors.sync.remote.method_not_allowed", AppErrorKind::Remote)
}

pub fn network_error() -> (r: AppError)
    ensures
        r.has("sync.remote.network_unavailable", "errors.sync.remote.network_unavailable", AppErrorKind::Remote),
{
    AppError::new("sync.remote.network_unavailable", "errors.sync.remote.network_unavailable", AppErrorKind::Remote)
}

pub fn timeout_error() -> (r: AppError)
    ensures
        r.has("sync.remote.timeout", "errors.sync.remote.timeout", AppErrorKind::Remote),
{
    AppError::new("sync.remote.timeout", "errors.sync.remote.timeout", AppErrorKind::Remote)
}

/// The error of an HTTP status that is not a success.
pub fn error_for_status(status: u16) -> (r: AppError)
    ensures
        status == 401 || status == 403 ==> r.has(
            "sync.remote.authentication_failed",
            "errors.sync.remote.authentication_failed",
            AppErrorKind::Remote,
        ),
        status == 404 ==> r.has("sync.remote.path_not_found", "errors.sync.remote.path_not_found", AppErrorKind::Remote),
        status == 405 ==> r.has(
            "sync.remote.method_not_allowed",
            "errors.sync.remote.method_not_allowed",
            AppErrorKind::Remote,
        ),
        status != 401 && status != 403 && status != 404 && status != 405 ==> r.has(
            "sync.remote.unavailable",
            "errors.sync.remote.unavailable",
            AppErrorKind::Remote,
        ),
{
    if status == 401 || status == 403 {
        authentication_error()
    } else if status == 404 {
        path_not_found_error()
    } else if status == 405 {
        method_not_allowed_error()
    } else {
        remote_error()
    }
}

pub open spec fn is_success(status: u16) -> bool {
    200 <= status <= 299
}

/// A response is accepted when its status is a success.
pub fn validate_status(status: u16) -> (r: Result<(), AppError>)
    ensures
        r is Ok <==> is_success(status),
        r matches Err(e) ==> is_status_error(e, status),
{
    if 200 <= status && status <= 299 {
        Ok(())
    } else {
        Err(error_for_status(status))
    }
}

/// The error is the one of the status.
pub open spec fn is_status_error(e: AppError, status: u16) -> bool {
    if status == 401 || status == 403 {
        e.has("sync.remote.authentication_failed", "errors.sync.remote.authentication_failed", AppErrorKind::Remote)
    } else if status == 404 {
        e.has("sync.remote.path_not_found", "errors.sync.remote.path_not_found", AppErrorKind::Remote)
    } else if status == 405 {
        e.has("sync.remote.method_not_allowed", "errors.sync.remote.method_not_allowed", AppErrorKind::Remote)
    } else {
        e.has("sync.remote.unavailable", "errors.sync.remote.unavailable", AppErrorKind::Remote)
    }
}

/// The error of a request that got no answer.
pub fn error_for_failed_request(is_timeout: bool, is_connect: bool) -> (r: AppError)
    ensures
        is_timeout ==> r.has("sync.remote.timeout", "errors.sync.remote.timeout", AppErrorKind::Remote),
        !is_timeout && is_connect ==> r.has(
            "sync.remote.network_unavailable",
            "errors.sync.remote.network_unavailable",
            AppErrorKind::Remote,
        ),
        !is_timeout && !is_connect ==> r.has("sync.remote.unavailable", "errors.sync.remote.unavailable", AppErrorKind::Remote),
{
    if is_timeout {
        timeout_error()
    } else if is_connect {
        network_error()
    } else {
        remote_error()
    }
}

/// What the answer to reading a directory's properties asks for next:
/// a missing directory is created (`true`), a present one is left (`false`).
pub fn directory_probe_outcome(status: u16) -> (r: Result<bool, AppError>)
    ensures
        status == 404 ==> r == Ok::<bool, AppError>(true),
        status != 404 ==> (r is Ok <==> is_success(status)),
        status != 404 && is_success(status) ==> r == Ok::<bool, AppError>(false),
        r matches Err(e) ==> is_status_error(e, status),
{
    if status == 404 {
        return Ok(true);
    }
    validate_status(status)?;
    Ok(false)
}

/// What the answer to fetching the snapshot means: none is stored (`false`),
/// or its body is the snapshot (`true`).
pub fn fetch_outcome(status: u16) -> (r: Result<bool, AppError>)
    ensures
        status == 404 ==> r == Ok::<bool, AppError>(false),
        status != 404 ==> (r is Ok <==> is_success(status)),
        status != 404 && is_success(status) ==> r == Ok::<bool, AppError>(true),
        r matches Err(e) ==> is_status_error(e, status),
{
    if status == 404 {
        return Ok(false);
    }
    validate_status(status)?;
    Ok(true)
}

/// A URL as `url` parses it: its text, scheme, whether it has a host, and its path.
pub struct ParsedUrl {
    pub text: String,
    pub scheme: String,
    pub has_host: bool,
    pub path: String,
}

/// What `url` parses of a text: its serialisation, scheme, whether it has a
/// host, and its path.
pub uninterp spec fn parsed_url(text: Seq<char>) -> Option<(Seq<char>, Seq<char>, bool, Seq<char>)>;

/// Parses an absolute URL.
///
/// Calls `url::Url::parse`; the parts are named by `parsed_url`.
#[verifier::external_body]
fn parse_url(text: &str) -> (r: Option<ParsedUrl>)
    ensures
        match r {
            Some(u) => parsed_url(text@) == Some((u.text@, u.scheme@, u.has_host, u.path@)),
            None => parsed_url(text@) is None,
        },
{
    let url = url::Url::parse(text).ok()?;
    Some(ParsedUrl {
        text: url.as_str().to_owned(),
        scheme: url.scheme().to_owned(),
        has_host: url.host_str().is_some(),
        path: url.path().to_owned(),
    })
}

/// The text of a URL with its path replaced, as `url` writes it.
pub uninterp spec fn url_with_path(url: Seq<char>, path: Seq<char>) -> Seq<char>;

/// Replaces the path of a URL.
///
/// Calls `url::Url::set_path` on the URL parsed from its own text; the
/// result is named by `url_with_path`.
#[verifier::external_body]
fn set_url_path(url: &str, path: &str) -> (r: String)
    ensures
        r@ == url_with_path(url@, path@),
{
    match url::Url::parse(url) {
        Ok(mut parsed) => {
            parsed.set_path(path);
            parsed.as_str().to_owned()
        },
        Err(_) => url.to_owned(),
    }
}

/// A text without the given character at its end.
pub open spec fn trim_end_char(s: Seq<char>, c: char) -> Seq<char>
    decreases s.len(),
{
    if s.len() > 0 && s.last() == c {
        trim_end_char(s.drop_last(), c)
    } else {
        s
    }
}

/// A text without the given character at its start.
pub open spec fn trim_start_char(s: Seq<char>, c: char) -> Seq<char>
    decreases s.len(),
{
    if s.len() > 0 && s[0] == c {
        trim_start_char(s.drop_first(), c)
    } else {
        s
    }
}

/// The index of the last slash of a text, or -1.
pub open spec fn last_slash(s: Seq<char>) -> int
    decreases s.len(),
{
    if s.len() == 0 {
        -1
    } else if s.last() == '/' {
        s.len() - 1
    } else {
        last_slash(s.drop_last())
    }
}

pub proof fn lemma_last_slash(s: Seq<char>)
    ensures
        -1 <= last_slash(s) < s.len(),
        s.len() > 0 && s.last() != '/' ==> last_slash(s) < s.len() - 1,
        last_slash(s) >= 0 ==> s[last_slash(s)] == '/',
        forall|i: int| last_slash(s) < i < s.len() ==> s[i] != '/',
    decreases s.len(),
{
    if s.len() > 0 && s.last() != '/' {
        lemma_last_slash(s.drop_last());
        assert forall|i: int| last_slash(s) < i < s.len() implies s[i] != '/' by {
            if i < s.len() - 1 {
                assert(s.drop_last()[i] == s[i]);
            }
        }
    }
}

/// The non-empty parts of a text between slashes.
pub open spec fn path_segments(s: Seq<char>) -> Seq<Seq<char>>
    decreases s.len(),
{
    if s.len() == 0 {
        Seq::empty()
    } else if s.last() == '/' {
        path_segments(s.drop_last())
    } else {
        let k = last_slash(s);
        proof {
            lemma_last_slash(s);
        }
        if k < 0 {
            seq![s]
        } else {
            path_segments(s.subrange(0, k)).push(s.subrange(k + 1, s.len() as int))
        }
    }
}

fn strip_end(s: &str, c: char) -> (r: String)
    ensures
        r@ == trim_end_char(s@, c),
{
    let mut n = s.unicode_len();
    proof {
        assert(s@.subrange(0, n as int) =~= s@);
    }
    while n > 0 && s.get_char(n - 1) == c
        invariant
            n <= s@.len(),
            trim_end_char(s@.subrange(0, n as int), c) == trim_end_char(s@, c),
        decreases n,
    {
        proof {
            assert(s@.subrange(0, n as int).drop_last() =~= s@.subrange(0, n - 1));
        }
        n = n - 1;
    }
    proof {
        assert(trim_end_char(s@.subrange(0, n as int), c) == s@.subrange(0, n as int));
    }
    s.substring_char(0, n).to_owned()
}

fn strip_start(s: &str, c: char) -> (r: String)
    ensures
        r@ == trim_start_char(s@, c),
{
    let len = s.unicode_len();
    let mut k: usize = 0;
    proof {
        assert(s@.subrange(0, len as int) =~= s@);
    }
    while k < len && s.get_char(k) == c
        invariant
            k <= len,
            len == s@.len(),
            trim_start_char(s@.subrange(k as int, len as int), c) == trim_start_char(s@, c),
        decreases len - k,
    {
        proof {
            assert(s@.subrange(k as int, len as int).drop_first() =~= s@.subrange(k + 1, len as int));
        }
        k = k + 1;
    }
    proof {
        assert(trim_start_char(s@.subrange(k as int, len as int), c) == s@.subrange(k as int, len as int));
    }
    s.substring_char(k, len).to_owned()
}

/// The endpoint path followed by each segment, each after a slash.
pub open spec fn joined_path(base: Seq<char>, segments: Seq<Seq<char>>) -> Seq<char>
    decreases segments.len(),
{
    if segments.len() == 0 {
        base
    } else {
        joined_path(base, segments.drop_last()) + "/"@ + segments.last()
    }
}

/// The URLs of the remote directory and of each directory above it below
/// the endpoint, outermost first; none where the endpoint is not an HTTP or
/// HTTPS URL with a host.
pub open spec fn directory_urls(endpoint: Seq<char>, directory: Seq<char>) -> Option<Seq<Seq<char>>> {
    match parsed_url(trimmed(endpoint)) {
        None => None,
        Some((text, scheme, has_host, path)) => if !(scheme == "http"@ || scheme == "https"@) || !has_host {
            None
        } else {
            let base = trim_end_char(path, '/');
            let dir = trim_start_char(trim_end_char(directory, '/'), '/');
            if dir.len() == 0 {
                Some(seq![url_with_path(text, base + "/"@)])
            } else {
                let segments = path_segments(dir);
                Some(
                    Seq::new(
                        segments.len(),
                        |i: int| url_with_path(text, joined_path(base, segments.take(i + 1)) + "/"@),
                    ),
                )
            }
        },
    }
}

fn split_segments(s: &str) -> (r: Vec<String>)
    ensures
        r@.len() == path_segments(s@).len(),
        forall|i: int| 0 <= i < r@.len() ==> #[trigger] r@[i]@ == path_segments(s@)[i],
    decreases s@.len(),
{
    let n = s.unicode_len();
    if n == 0 {
        return Vec::new();
    }
    if s.get_char(n - 1) == '/' {
        proof {
            assert(s@.subrange(0, n - 1) =~= s@.drop_last());
        }
        return split_segments(s.substring_char(0, n - 1));
    }
    let mut k = n;
    while k > 0 && s.get_char(k - 1) != '/'
        invariant
            k <= n,
            n == s@.len(),
            forall|i: int| k <= i < n ==> s@[i] != '/',
        decreases k,
    {
        k = k - 1;
    }
    proof {
        lemma_last_slash(s@);
        let ls = last_slash(s@);
        if ls > k - 1 {
            assert(s@[ls] == '/');
        }
        if ls < k - 1 {
            assert(s@[k - 1] == '/');
        }
        assert(ls == k - 1);
    }
    if k == 0 {
        let mut v: Vec<String> = Vec::new();
        v.push(s.to_owned());
        return v;
    }
    let mut v = split_segments(s.substring_char(0, k - 1));
    v.push(s.substring_char(k, n).to_owned());
    v
}

/// The URLs of the remote directory and of each directory above it below
/// the endpoint, outermost first.
pub fn remote_directory_urls(config: &SyncConfig) -> (r: Result<Vec<String>, AppError>)
    ensures
        match directory_urls(config.endpoint@, config.remote_directory@) {
            Some(urls) => r matches Ok(v) && v@.len() == urls.len() && forall|i: int|
                0 <= i < urls.len() ==> #[trigger] v@[i]@ == urls[i],
            None => r matches Err(e) && e.has(
                "sync.configuration.invalid",
                "errors.sync.configuration.invalid",
                AppErrorKind::Configuration,
            ),
        },
{
    let endpoint = trim_text(config.endpoint.as_str());
    let url = match parse_url(endpoint.as_str()) {
        Some(url) => url,
        None => return Err(configuration_error()),
    };
    if !(str_equals(url.scheme.as_str(), "http") || str_equals(url.scheme.as_str(), "https")) || !url.has_host {
        return Err(configuration_error());
    }
    let base = strip_end(url.path.as_str(), '/');
    let trailing = strip_end(config.remote_directory.as_str(), '/');
    let directory = strip_start(trailing.as_str(), '/');
    let mut urls: Vec<String> = Vec::new();
    if directory.unicode_len() == 0 {
        let mut path = base.clone();
        path.append("/");
        urls.push(set_url_path(url.text.as_str(), path.as_str()));
        return Ok(urls);
    }
    let segments = split_segments(directory.as_str());
    let ghost segs = path_segments(directory@);
    let mut path = base.clone();
    let mut i: usize = 0;
    proof {
        assert(segs.take(0) =~= Seq::<Seq<char>>::empty());
    }
    while i < segments.len()
        invariant
            segments@.len() == segs.len(),
            forall|j: int| 0 <= j < segments@.len() ==> #[trigger] segments@[j]@ == segs[j],
            i <= segs.len(),
            path@ == joined_path(base@, segs.take(i as int)),
            urls@.len() == i,
            forall|j: int| 0 <= j < i ==> #[trigger] urls@[j]@ == url_with_path(
                url.text@,
                joined_path(base@, segs.take(j + 1)) + "/"@,
            ),
        decreases segs.len() - i,
    {
        path.append("/");
        path.append(segments[i].as_str());
        proof {
            assert(segs.take(i + 1).drop_last() =~= segs.take(i as int));
            assert(segs.take(i + 1).last() == segs[i as int]);
        }
        let mut directory_path = path.clone();
        directory_path.append("/");
        urls.push(set_url_path(url.text.as_str(), directory_path.as_str()));
        i = i + 1;
    }
    proof {
        let expected = directory_urls(config.endpoint@, config.remote_directory@)->Some_0;
        assert(expected.len() == urls@.len());
    }
    Ok(urls)
}

/// The URL of the snapshot: the file in the remote directory.
pub fn snapshot_url(config: &SyncConfig) -> (r: Result<String, AppError>)
    ensures
        match directory_urls(config.endpoint@, config.remote_directory@) {
            Some(urls) => urls.len() > 0 ==> match parsed_url(urls.last()) {
                Some((_, _, _, path)) => r matches Ok(u) && u@ == url_with_path(
                    urls.last(),
                    path + SNAPSHOT_FILE_NAME@,
                ),
                None => r is Err,
            },
            None => r matches Err(e) && e.has(
                "sync.configuration.invalid",
                "errors.sync.configuration.invalid",
                AppErrorKind::Configuration,
            ),
        },
{
    let urls = remote_directory_urls(config)?;
    if urls.len() == 0 {
        return Err(configuration_error());
    }
    let directory = &urls[urls.len() - 1];
    let parsed = match parse_url(directory.as_str()) {
        Some(parsed) => parsed,
        None => return Err(configuration_error()),
    };
    let mut path = parsed.path.clone();
    path.append(SNAPSHOT_FILE_NAME);
    Ok(set_url_path(directory.as_str(), path.as_str()))
}

/// The index of the last occurrence of a character in a text, or -1.
pub open spec fn last_slash_of(s: Seq<char>, c: char) -> int
    decreases s.len(),
{
    if s.len() == 0 {
        -1
    } else if s.last() == c {
        s.len() - 1
    } else {
        last_slash_of(s.drop_last(), c)
    }
}

pub proof fn lemma_last_of(s: Seq<char>, c: char)
    ensures
        -1 <= last_slash_of(s, c) < s.len(),
        last_slash_of(s, c) >= 0 ==> s[last_slash_of(s, c)] == c,
        forall|i: int| last_slash_of(s, c) < i < s.len() ==> s[i] != c,
    decreases s.len(),
{
    if s.len() > 0 && s.last() != c {
        lemma_last_of(s.drop_last(), c);
        assert forall|i: int| last_slash_of(s, c) < i < s.len() implies s[i] != c by {
            if i < s.len() - 1 {
                assert(s.drop_last()[i] == s[i]);
            }
        }
    }
}

/// The text before the last occurrence of a character; empty where it does not occur.
pub fn before_last(s: &str, c: char) -> (r: String)
    ensures
        r@ == if last_slash_of(s@, c) < 0 {
            Seq::<char>::empty()
        } else {
            s@.subrange(0, last_slash_of(s@, c))
        },
{
    let n = s.unicode_len();
    let mut k = n;
    while k > 0 && s.get_char(k - 1) != c
        invariant
            k <= n,
            n == s@.len(),
            forall|i: int| k <= i < n ==> s@[i] != c,
        decreases k,
    {
        k = k - 1;
    }
    proof {
        lemma_last_of(s@, c);
        let ls = last_slash_of(s@, c);
        if ls > k - 1 {
            assert(s@[ls] == c);
        }
        if ls < k - 1 {
            assert(s@[k - 1] == c);
        }
        assert(ls == k - 1);
    }
    if k == 0 {
        return String::new();
    }
    s.substring_char(0, k - 1).to_owned()
}

} // verus!
