//! Proxy configurations.

use vstd::prelude::*;
use crate::text::{owned, push_str, concat, decimal, decimal_text, str_eq};

verus! {

/// The kind of a proxy configuration, as the error messages tell them apart.
#[derive(Debug, PartialEq, Eq, Structural, Clone, Copy)]
pub enum ProxyKind {
    Generic,
    Webshare,
    Custom,
}

/// A proxy configuration that cannot be used; holds the explanation.
#[derive(Debug, Clone)]
pub struct InvalidProxyConfig(pub String);

impl InvalidProxyConfig {
    /// The message of the error, as its `Display` gives it.
    pub fn message(&self) -> (s: String)
        ensures
            s@ == "Invalid proxy configuration: "@ + self.0@,
    {
        concat("Invalid proxy configuration: ", self.0.as_str())
    }
}

/// The contents of a proxy map: scheme and proxy URL.
pub open spec fn dict_view(d: Seq<(String, String)>) -> Seq<(Seq<char>, Seq<char>)> {
    d.map_values(|e: (String, String)| (e.0@, e.1@))
}

/// The proxy URL for a scheme: the last entry for it, as a map collected
/// from the entries holds.
pub open spec fn dict_get(d: Seq<(Seq<char>, Seq<char>)>, key: Seq<char>) -> Option<Seq<char>>
    decreases d.len(),
{
    if d.len() == 0 {
        None
    } else if d.last().0 == key {
        Some(d.last().1)
    } else {
        dict_get(d.drop_last(), key)
    }
}

/// A way to reach YouTube through proxies.
pub trait ProxyConfig {
    /// The proxy URL for each scheme, as pairs `(scheme, url)`.
    fn to_requests_dict(&self) -> Vec<(String, String)>;

    /// Whether HTTP connections should be closed after each request, so
    /// that a rotating proxy gives a new IP each time.
    fn prevent_keeping_connections_alive(&self) -> (b: bool)
        default_ensures
            b == false,
    {
        false
    }

    /// How many times a blocked request is retried.
    fn retries_when_blocked(&self) -> (r: i32)
        default_ensures
            r == 0,
    {
        0
    }

    /// Which kind of configuration this is.
    fn proxy_kind(&self) -> (k: ProxyKind)
        default_ensures
            k == ProxyKind::Custom,
    {
        ProxyKind::Custom
    }
}

/// The proxy URL to use for a request with the given URL scheme: the
/// `http` entry for `http`, the `https` entry for `https`, none otherwise.
pub fn proxy_for_scheme(dict: &Vec<(String, String)>, scheme: &str) -> (res: Option<String>)
    ensures
        match res {
            Some(u) => (scheme@ == "http"@ || scheme@ == "https"@) && dict_get(dict_view(dict@), scheme@) == Some(u@),
            None => !(scheme@ == "http"@ || scheme@ == "https"@) || dict_get(dict_view(dict@), scheme@) is None,
        },
{
    if !(str_eq(scheme, "http") || str_eq(scheme, "https")) {
        return None;
    }
    let ghost d = dict_view(dict@);
    let mut i = dict.len();
    assert(d.take(d.len() as int) =~= d);
    while i > 0
        invariant
            i <= dict@.len(),
            d == dict_view(dict@),
            scheme@ == "http"@ || scheme@ == "https"@,
            dict_get(d, scheme@) == dict_get(d.take(i as int), scheme@),
        decreases i,
    {
        let ghost t = d.take(i as int);
        assert(t.drop_last() =~= d.take(i - 1));
        assert(t.last() == d[i - 1]);
        if str_eq(dict[i - 1].0.as_str(), scheme) {
            return Some(dict[i - 1].1.clone());
        }
        i = i - 1;
    }
    None
}

/// A proxy for HTTP and/or HTTPS.
#[derive(Debug, Clone)]
pub struct GenericProxyConfig {
    pub http_url: Option<String>,
    pub https_url: Option<String>,
}

pub open spec fn opt_view(s: Option<String>) -> Option<Seq<char>> {
    match s {
        Some(t) => Some(t@),
        None => None,
    }
}

/// The URL used for one scheme: its own, else the other scheme's, else empty.
pub open spec fn url_or_other(own: Option<Seq<char>>, other: Option<Seq<char>>) -> Seq<char> {
    match own {
        Some(u) => u,
        None => match other {
            Some(u) => u,
            None => Seq::empty(),
        },
    }
}

fn clone_or_other(own: &Option<String>, other: &Option<String>) -> (r: String)
    ensures
        r@ == url_or_other(opt_view(*own), opt_view(*other)),
{
    match own {
        Some(u) => u.clone(),
        None => match other {
            Some(u) => u.clone(),
            None => String::new(),
        },
    }
}

impl GenericProxyConfig {
    /// A configuration with the given URLs; at least one must be given.
    pub fn new(http_url: Option<String>, https_url: Option<String>) -> (res: Result<Self, InvalidProxyConfig>)
        ensures
            match res {
                Ok(c) => (http_url is Some || https_url is Some)
                    && opt_view(c.http_url) == opt_view(http_url) && opt_view(c.https_url) == opt_view(https_url),
                Err(e) => http_url is None && https_url is None
                    && e.0@ == "GenericProxyConfig requires you to define at least one of the two: http or https"@,
            },
    {
        if http_url.is_none() && https_url.is_none() {
            return Err(InvalidProxyConfig(owned("GenericProxyConfig requires you to define at least one of the two: http or https")));
        }
        Ok(GenericProxyConfig { http_url, https_url })
    }
}

impl ProxyConfig for GenericProxyConfig {
    /// `http` and `https` entries, each falling back to the other URL.
    fn to_requests_dict(&self) -> (d: Vec<(String, String)>)
        ensures
            dict_view(d@) == seq![
                ("http"@, url_or_other(opt_view(self.http_url), opt_view(self.https_url))),
                ("https"@, url_or_other(opt_view(self.https_url), opt_view(self.http_url))),
            ],
    {
        let http = clone_or_other(&self.http_url, &self.https_url);
        let https = clone_or_other(&self.https_url, &self.http_url);
        let d = vec![(owned("http"), http), (owned("https"), https)];
        assert(dict_view(d@) =~= seq![
            ("http"@, url_or_other(opt_view(self.http_url), opt_view(self.https_url))),
            ("https"@, url_or_other(opt_view(self.https_url), opt_view(self.http_url))),
        ]);
        d
    }

    fn proxy_kind(&self) -> (k: ProxyKind)
        ensures
            k == ProxyKind::Generic,
    {
        ProxyKind::Generic
    }
}

/// Rotating residential proxies of Webshare.
#[derive(Debug, Clone)]
pub struct WebshareProxyConfig {
    pub proxy_username: String,
    pub proxy_password: String,
    pub domain_name: String,
    pub proxy_port: u16,
    pub retries: i32,
}

/// The proxy URL of a Webshare configuration.
pub open spec fn webshare_url(user: Seq<char>, password: Seq<char>, domain: Seq<char>, port: u16) -> Seq<char> {
    "http://"@ + user + "-rotate:"@ + password + "@"@ + domain + ":"@ + decimal_text(port as nat) + "/"@
}

impl WebshareProxyConfig {
    pub const DEFAULT_DOMAIN_NAME: &'static str = "p.webshare.io";

    pub const DEFAULT_PORT: u16 = 80;

    /// A configuration; the domain defaults to `p.webshare.io` and the port to 80.
    pub fn new(
        proxy_username: String,
        proxy_password: String,
        retries_when_blocked: i32,
        domain_name: Option<String>,
        proxy_port: Option<u16>,
    ) -> (c: Self)
        ensures
            c.proxy_username@ == proxy_username@,
            c.proxy_password@ == proxy_password@,
            c.domain_name@ == match domain_name {
                Some(d) => d@,
                None => "p.webshare.io"@,
            },
            c.proxy_port == match proxy_port {
                Some(p) => p,
                None => 80u16,
            },
            c.retries == retries_when_blocked,
    {
        let domain_name = match domain_name {
            Some(d) => d,
            None => owned(Self::DEFAULT_DOMAIN_NAME),
        };
        let proxy_port = match proxy_port {
            Some(p) => p,
            None => Self::DEFAULT_PORT,
        };
        WebshareProxyConfig { proxy_username, proxy_password, domain_name, proxy_port, retries: retries_when_blocked }
    }

    /// `http://<user>-rotate:<password>@<domain>:<port>/`.
    pub fn url(&self) -> (u: String)
        ensures
            u@ == webshare_url(self.proxy_username@, self.proxy_password@, self.domain_name@, self.proxy_port),
    {
        let mut u = owned("http://");
        push_str(&mut u, self.proxy_username.as_str());
        push_str(&mut u, "-rotate:");
        push_str(&mut u, self.proxy_password.as_str());
        push_str(&mut u, "@");
        push_str(&mut u, self.domain_name.as_str());
        push_str(&mut u, ":");
        let p = decimal(self.proxy_port as u64);
        push_str(&mut u, p.as_str());
        push_str(&mut u, "/");
        assert(u@ =~= webshare_url(self.proxy_username@, self.proxy_password@, self.domain_name@, self.proxy_port));
        u
    }
}

impl ProxyConfig for WebshareProxyConfig {
    /// The rotating URL for both schemes.
    fn to_requests_dict(&self) -> (d: Vec<(String, String)>)
        ensures
            dict_view(d@) == seq![
                ("http"@, webshare_url(self.proxy_username@, self.proxy_password@, self.domain_name@, self.proxy_port)),
                ("https"@, webshare_url(self.proxy_username@, self.proxy_password@, self.domain_name@, self.proxy_port)),
            ],
    {
        let url = self.url();
        let d = vec![(owned("http"), url.clone()), (owned("https"), url)];
        assert(dict_view(d@) =~= seq![
            ("http"@, webshare_url(self.proxy_username@, self.proxy_password@, self.domain_name@, self.proxy_port)),
            ("https"@, webshare_url(self.proxy_username@, self.proxy_password@, self.domain_name@, self.proxy_port)),
        ]);
        d
    }

    fn prevent_keeping_connections_alive(&self) -> (b: bool)
        ensures
            b,
    {
        true
    }

    fn retries_when_blocked(&self) -> (r: i32)
        ensures
            r == self.retries,
    {
        self.retries
    }

    fn proxy_kind(&self) -> (k: ProxyKind)
        ensures
            k == ProxyKind::Webshare,
    {
        ProxyKind::Webshare
    }
}

} // verus!
