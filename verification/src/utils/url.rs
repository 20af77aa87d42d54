//! The connection URL: `rtmp://host[:port]/app[/instance]`.

use crate::errors::Error;
use vstd::prelude::*;
use vstd::string::*;

verus! {

/// The port an RTMP server listens on unless the URL names another.
pub const DEFAULT_PORT: u16 = 1935;

/// A parsed connection URL.
#[derive(Debug, PartialEq)]
pub struct TcUrl {
    pub full_url: String,
    pub protocol: String,
    pub host: String,
    pub port: u16,
    pub app: String,
    pub instance: String,
}

/// A parsed connection URL, its strings as sequences of characters.
pub struct TcUrlView {
    pub full_url: Seq<char>,
    pub protocol: Seq<char>,
    pub host: Seq<char>,
    pub port: u16,
    pub app: Seq<char>,
    pub instance: Seq<char>,
}

impl View for TcUrl {
    type V = TcUrlView;

    open spec fn view(&self) -> TcUrlView {
        TcUrlView {
            full_url: self.full_url@,
            protocol: self.protocol@,
            host: self.host@,
            port: self.port,
            app: self.app@,
            instance: self.instance@,
        }
    }
}

/// The components of a URL that the connection reads.
#[derive(Debug, PartialEq)]
pub struct UrlParts {
    pub scheme: String,
    pub host: Option<String>,
    pub port: Option<u16>,
    pub path: String,
}

/// The components of a URL, its strings as sequences of characters.
pub struct UrlPartsView {
    pub scheme: Seq<char>,
    pub host: Option<Seq<char>>,
    pub port: Option<u16>,
    pub path: Seq<char>,
}

impl View for UrlParts {
    type V = UrlPartsView;

    open spec fn view(&self) -> UrlPartsView {
        UrlPartsView {
            scheme: self.scheme@,
            host: match self.host {
                Some(h) => Some(h@),
                None => None,
            },
            port: self.port,
            path: self.path@,
        }
    }
}

/// The components that the `url` crate finds in a string, or `None` where it
/// rejects the string.
pub uninterp spec fn url_parts(url: Seq<char>) -> Option<UrlPartsView>;

/// Parses a string with `url::Url::parse` and copies out the scheme
/// (`Url::scheme`), the host (`Url::host_str`), the port (`Url::port`) and
/// the path (`Url::path`). Nothing is proved of the parser: its result is
/// only given the name `url_parts`.
#[verifier::external_body]
fn split_url(tc_url: &str) -> (r: Option<UrlParts>)
    ensures
        match r {
            Some(parts) => url_parts(tc_url@) == Some(parts@),
            None => url_parts(tc_url@) is None,
        },
{
    match url::Url::parse(tc_url) {
        Ok(u) => Some(
            UrlParts {
                scheme: String::from(u.scheme()),
                host: u.host_str().map(String::from),
                port: u.port(),
                path: String::from(u.path()),
            },
        ),
        Err(_) => None,
    }
}

/// How many characters stand before the first `/` of `p`: all of them where
/// it has none.
pub open spec fn spec_first_slash(p: Seq<char>) -> int
    decreases p.len(),
{
    if p.len() == 0 || p[0] == '/' {
        0
    } else {
        1 + spec_first_slash(p.skip(1))
    }
}

/// The application and the instance that a URL path names. After the
/// leading `/`, what stands before the next `/` is the application and what
/// stands behind it the instance; a path without a leading `/` is the
/// application as a whole. Escapes are left as they are.
pub open spec fn spec_split_path(path: Seq<char>) -> (Seq<char>, Seq<char>) {
    if path.len() > 0 && path[0] == '/' {
        let p = path.skip(1);
        let k = spec_first_slash(p);
        if k < p.len() {
            (p.take(k), p.skip(k + 1))
        } else {
            (p, Seq::empty())
        }
    } else {
        (path, Seq::empty())
    }
}

/// The connection URL that the given components make, or the reason they
/// make none: the scheme must be `rtmp` and there must be a host; a missing
/// port is 1935.
pub open spec fn spec_tc_url(full_url: Seq<char>, parts: UrlPartsView) -> Result<TcUrlView, Error> {
    if parts.scheme != "rtmp"@ {
        Err(Error::UnsupportedScheme)
    } else {
        match parts.host {
            None => Err(Error::InvalidUrl),
            Some(host) => {
                let (app, instance) = spec_split_path(parts.path);
                Ok(
                    TcUrlView {
                        full_url,
                        protocol: parts.scheme,
                        host,
                        port: match parts.port {
                            Some(p) => p,
                            None => DEFAULT_PORT,
                        },
                        app,
                        instance,
                    },
                )
            },
        }
    }
}

/// What `spec_first_slash` counts: no `/` stands before that place, and one
/// stands at it unless it is the end.
pub proof fn lemma_first_slash(p: Seq<char>)
    ensures
        0 <= spec_first_slash(p) <= p.len(),
        forall|i: int| 0 <= i < spec_first_slash(p) ==> p[i] != '/',
        spec_first_slash(p) < p.len() ==> p[spec_first_slash(p)] == '/',
    decreases p.len(),
{
    if p.len() == 0 || p[0] == '/' {
    } else {
        lemma_first_slash(p.skip(1));
        let k = spec_first_slash(p.skip(1));
        assert forall|i: int| 0 <= i < 1 + k implies p[i] != '/' by {
            if i > 0 {
                assert(p.skip(1)[i - 1] == p[i]);
            }
        }
        if 1 + k < p.len() {
            assert(p.skip(1)[k] == p[1 + k]);
        }
    }
}

/// A place with no `/` before it and one at it is the place of the first `/`.
pub proof fn lemma_first_slash_is(p: Seq<char>, k: int)
    requires
        0 <= k <= p.len(),
        forall|i: int| 0 <= i < k ==> p[i] != '/',
        k < p.len() ==> p[k] == '/',
    ensures
        spec_first_slash(p) == k,
{
    lemma_first_slash(p);
}

/// Splits a URL path into application and instance.
pub fn split_path(path: &str) -> (r: (String, String))
    ensures
        (r.0@, r.1@) == spec_split_path(path@),
{
    let n = path.unicode_len();
    if n > 0 && path.get_char(0) == '/' {
        let mut k: usize = 1;
        while k < n && path.get_char(k) != '/'
            invariant
                1 <= k <= n,
                n == path@.len(),
                forall|i: int| 1 <= i < k ==> path@[i] != '/',
            decreases n - k,
        {
            k += 1;
        }
        proof {
            let p = path@.skip(1);
            assert forall|i: int| 0 <= i < k - 1 implies p[i] != '/' by {
                assert(p[i] == path@[i + 1]);
            }
            lemma_first_slash_is(p, k - 1);
        }
        if k < n {
            let app = path.substring_char(1, k);
            let instance = path.substring_char(k + 1, n);
            assert(app@ =~= path@.skip(1).take(k - 1));
            assert(instance@ =~= path@.skip(1).skip(k - 1 + 1));
            (String::from_str(app), String::from_str(instance))
        } else {
            let app = path.substring_char(1, n);
            assert(app@ =~= path@.skip(1));
            (String::from_str(app), String::new())
        }
    } else {
        (String::from_str(path), String::new())
    }
}

/// Builds the connection URL from the components of a parsed URL.
pub fn tc_url_from_parts(tc_url: &str, parts: UrlParts) -> (r: Result<TcUrl, Error>)
    ensures
        match r {
            Ok(t) => spec_tc_url(tc_url@, parts@) == Ok::<TcUrlView, Error>(t@),
            Err(e) => spec_tc_url(tc_url@, parts@) == Err::<TcUrlView, Error>(e),
        },
{
    let rtmp = String::from_str("rtmp");
    if parts.scheme != rtmp {
        return Err(Error::UnsupportedScheme);
    }
    let host = match parts.host {
        Some(h) => h,
        None => { return Err(Error::InvalidUrl); },
    };
    let port = match parts.port {
        Some(p) => p,
        None => DEFAULT_PORT,
    };
    let (app, instance) = split_path(parts.path.as_str());
    Ok(
        TcUrl {
            full_url: String::from_str(tc_url),
            protocol: parts.scheme,
            host,
            port,
            app,
            instance,
        },
    )
}

/// Parses a connection URL of the form `rtmp://host[:port]/app[/instance]`.
///
/// The string is taken apart by the `url` crate; what this function does
/// with the parts is `spec_tc_url`. A string that the crate rejects is an
/// `InvalidUrl`.
pub fn parse_tc_url(tc_url: &str) -> (r: Result<TcUrl, Error>)
    ensures
        match r {
            Ok(t) => url_parts(tc_url@) matches Some(parts) && spec_tc_url(tc_url@, parts) == Ok::<
                TcUrlView,
                Error,
            >(t@),
            Err(e) => match url_parts(tc_url@) {
                Some(parts) => spec_tc_url(tc_url@, parts) == Err::<TcUrlView, Error>(e),
                None => e == Error::InvalidUrl,
            },
        },
{
    match split_url(tc_url) {
        Some(parts) => tc_url_from_parts(tc_url, parts),
        None => Err(Error::InvalidUrl),
    }
}

} // verus!
