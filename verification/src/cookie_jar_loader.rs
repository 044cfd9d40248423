//! Reading cookies in the Netscape cookie file format. Reading the file and
//! filling a cookie jar are the caller's; this module decides which cookies
//! a file holds.

use vstd::prelude::*;
use crate::errors::CookieError;
use crate::text::{owned, concat, push_str, split_char, split_spec, lines, lines_spec, starts_with, occurs_at,
    trims_to_empty, all_whitespace, str_eq};

verus! {

/// A cookie to add to a jar: the cookie text `name=value` and the URL it
/// belongs to.
#[derive(Debug, Clone)]
pub struct CookieEntry {
    pub cookie: String,
    pub url: String,
}

/// The content of a `CookieEntry`.
pub struct CookieEntryView {
    pub cookie: Seq<char>,
    pub url: Seq<char>,
}

impl View for CookieEntry {
    type V = CookieEntryView;

    open spec fn view(&self) -> CookieEntryView {
        CookieEntryView { cookie: self.cookie@, url: self.url@ }
    }
}

/// Whether `reqwest::Url::parse` accepts a text.
pub uninterp spec fn url_parses(text: Seq<char>) -> bool;

/// `reqwest::Url::parse` (the `url` crate's parser): whether it accepts the
/// text.
#[verifier::external_body]
pub(crate) fn url_is_valid(text: &str) -> (r: bool)
    ensures
        r == url_parses(text@),
{
    reqwest::Url::parse(text).is_ok()
}

/// The URL of a cookie line's fields: `https` when the secure field is
/// `TRUE`, else `http`, then the domain and the path.
pub open spec fn cookie_url(f: Seq<Seq<char>>) -> Seq<char> {
    (if f[3] == "TRUE"@ { "https"@ } else { "http"@ }) + "://"@ + f[0] + f[2]
}

/// The cookie that a line describes: seven or more tab-separated fields,
/// domain, (flag), path, secure, (expiry), name and value, whose domain and
/// path make a URL that parses.
pub open spec fn cookie_of_line(line: Seq<char>) -> Option<CookieEntryView> {
    let f = split_spec(line, '\t');
    if f.len() >= 7 && url_parses(cookie_url(f)) {
        Some(CookieEntryView {
            cookie: f[5] + "="@ + f[6],
            url: cookie_url(f),
        })
    } else {
        None
    }
}

/// Lines that are comments (starting with `#`) or blank are skipped.
pub open spec fn is_skipped_line(line: Seq<char>) -> bool {
    occurs_at(line, "#"@, 0) || all_whitespace(line)
}

/// The cookies that the lines describe, in order.
pub open spec fn cookies_of_lines(lines: Seq<Seq<char>>) -> Seq<CookieEntryView>
    decreases lines.len(),
{
    if lines.len() == 0 {
        Seq::empty()
    } else {
        cookies_of_lines(lines.drop_last()) + if is_skipped_line(lines.last()) {
            Seq::empty()
        } else {
            match cookie_of_line(lines.last()) {
                Some(c) => seq![c],
                None => Seq::empty(),
            }
        }
    }
}

/// What reading a cookie file gives: the cookies of its lines, or
/// `Invalid` with the path when it holds none.
pub open spec fn cookie_file_spec(content: Seq<char>) -> Option<Seq<CookieEntryView>> {
    let cookies = cookies_of_lines(lines_spec(content));
    if all_whitespace(content) || cookies.len() == 0 {
        None
    } else {
        Some(cookies)
    }
}

/// Loads cookies from a file in the Netscape format.
#[derive(Debug)]
pub struct CookieJarLoader;

fn cookie_from_line(line: &str) -> (res: Option<CookieEntry>)
    ensures
        match res {
            Some(c) => cookie_of_line(line@) == Some(c@),
            None => cookie_of_line(line@) is None,
        },
{
    let f = split_char(line, '\t');
    let ghost fv = f@.map_values(|p: String| p@);
    if f.len() < 7 {
        return None;
    }
    assert(fv[3] == f@[3]@ && fv[5] == f@[5]@ && fv[6] == f@[6]@ && fv[0] == f@[0]@ && fv[2] == f@[2]@);
    let cookie = {
        let mut c = concat(f[5].as_str(), "=");
        push_str(&mut c, f[6].as_str());
        c
    };
    let mut url = if str_eq(f[3].as_str(), "TRUE") { owned("https") } else { owned("http") };
    push_str(&mut url, "://");
    push_str(&mut url, f[0].as_str());
    push_str(&mut url, f[2].as_str());
    assert(url@ =~= cookie_url(fv));
    if !url_is_valid(url.as_str()) {
        return None;
    }
    let e = CookieEntry { cookie, url };
    assert(e@.cookie =~= fv[5] + "="@ + fv[6]);
    assert(e@.url =~= (if fv[3] == "TRUE"@ { "https"@ } else { "http"@ }) + "://"@ + fv[0] + fv[2]);
    Some(e)
}

impl CookieJarLoader {
    /// The cookies of a cookie file's content, each as the cookie text
    /// and its URL. Comment and blank lines are skipped, and so are lines
    /// with fewer than seven fields or whose domain and path make no URL
    /// that parses. `Invalid` (with `path` as displayed)
    /// when the content is blank or holds no cookie.
    pub fn parse_cookie_file(content: &str, path: &str) -> (res: Result<Vec<CookieEntry>, CookieError>)
        ensures
            match (res, cookie_file_spec(content@)) {
                (Ok(v), Some(c)) => v@.map_values(|e: CookieEntry| e@) == c,
                (Err(CookieError::Invalid(p)), None) => p@ == path@,
                _ => false,
            },
    {
        if trims_to_empty(content) {
            return Err(CookieError::Invalid(owned(path)));
        }
        let ls = lines(content);
        let ghost lv = ls@.map_values(|x: String| x@);
        let mut res: Vec<CookieEntry> = Vec::new();
        let mut i: usize = 0;
        assert(res@.map_values(|e: CookieEntry| e@) =~= cookies_of_lines(lv.take(0)));
        while i < ls.len()
            invariant
                i <= ls@.len(),
                lv == ls@.map_values(|x: String| x@),
                res@.map_values(|e: CookieEntry| e@) == cookies_of_lines(lv.take(i as int)),
            decreases ls.len() - i,
        {
            let line = ls[i].as_str();
            proof {
                let t = lv.take(i + 1);
                assert(t.drop_last() =~= lv.take(i as int));
                assert(t.last() == line@);
            }
            let ghost before = res@;
            if !(starts_with(line, "#") || trims_to_empty(line)) {
                match cookie_from_line(line) {
                    Some(c) => {
                        res.push(c);
                        assert(res@ == before.push(c));
                    },
                    None => {},
                }
            }
            i = i + 1;
            assert(res@.map_values(|e: CookieEntry| e@) =~= cookies_of_lines(lv.take(i as int)));
        }
        assert(lv.take(ls@.len() as int) =~= lv);
        if res.len() == 0 {
            return Err(CookieError::Invalid(owned(path)));
        }
        Ok(res)
    }
}


/// The scheme of a cookie's URL follows its secure flag, the fourth
/// tab-separated field of its line: `https://` exactly when that field is
/// `TRUE`, else `http://`, whatever the other fields hold. The cookie text
/// is the sixth and seventh fields joined by `=`.
pub proof fn lemma_cookie_scheme_follows_secure_flag(line: Seq<char>)
    ensures
        cookie_of_line(line) matches Some(c) ==> {
            let f = split_spec(line, '\t');
            &&& f.len() >= 7
            &&& c.cookie == f[5] + "="@ + f[6]
            &&& (f[3] == "TRUE"@ ==> c.url == "https://"@ + f[0] + f[2])
            &&& (f[3] != "TRUE"@ ==> c.url == "http://"@ + f[0] + f[2])
            &&& occurs_at(c.url, "https://"@, 0) == (f[3] == "TRUE"@)
        },
{
    reveal_strlit("https://");
    reveal_strlit("http://");
    reveal_strlit("https");
    reveal_strlit("http");
    reveal_strlit("://");
    if let Some(c) = cookie_of_line(line) {
        let f = split_spec(line, '\t');
        if f[3] == "TRUE"@ {
            assert(c.url =~= "https://"@ + f[0] + f[2]);
            assert(c.url.subrange(0, 8) =~= "https://"@);
        } else {
            assert(c.url =~= "http://"@ + f[0] + f[2]);
            if occurs_at(c.url, "https://"@, 0) {
                assert(c.url.subrange(0, 8)[4] == "https://"@[4]);
            }
        }
    }
}

/// Every cookie that a file gives comes from one of its lines, by
/// `cookie_of_line`.
pub proof fn lemma_file_cookies_come_from_lines(content: Seq<char>)
    ensures
        cookie_file_spec(content) matches Some(cs) ==> forall|k: int| #![trigger cs[k]] 0 <= k < cs.len() ==> exists|j: int|
            0 <= j < lines_spec(content).len() && #[trigger] cookie_of_line(lines_spec(content)[j]) == Some(cs[k]),
{
    lemma_cookies_from_lines(lines_spec(content));
}

proof fn lemma_cookies_from_lines(ls: Seq<Seq<char>>)
    ensures
        forall|k: int| #![trigger cookies_of_lines(ls)[k]] 0 <= k < cookies_of_lines(ls).len() ==> exists|j: int|
            0 <= j < ls.len() && #[trigger] cookie_of_line(ls[j]) == Some(cookies_of_lines(ls)[k]),
    decreases ls.len(),
{
    if ls.len() > 0 {
        let p = ls.drop_last();
        lemma_cookies_from_lines(p);
        let cs = cookies_of_lines(ls);
        assert forall|k: int| #![trigger cs[k]] 0 <= k < cs.len() implies exists|j: int|
            0 <= j < ls.len() && #[trigger] cookie_of_line(ls[j]) == Some(cs[k]) by {
            if k < cookies_of_lines(p).len() {
                let j = choose|j: int| 0 <= j < p.len() && #[trigger] cookie_of_line(p[j]) == Some(cookies_of_lines(p)[k]);
                assert(ls[j] == p[j]);
                assert(cookie_of_line(ls[j]) == Some(cs[k]));
            } else {
                assert(cookie_of_line(ls[ls.len() - 1]) == Some(cs[k]));
            }
        }
    }
}

} // verus!
