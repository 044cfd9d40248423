use yt_transcript_rs::cookie_jar_loader::CookieJarLoader;
use yt_transcript_rs::errors::CookieError;
use yt_transcript_rs::text::{lines, split_char};

#[test]
fn netscape_cookies_are_read() {
    let content = "# Netscape HTTP Cookie File\n\n.youtube.com\tTRUE\t/\tTRUE\t0\tCONSENT\tYES+1\r\nwww.youtube.com\tFALSE\t/watch\tFALSE\t0\tPREF\tf=1\nshort\tline\n";
    let cookies = CookieJarLoader::parse_cookie_file(content, "/c.txt").ok().unwrap();
    assert_eq!(cookies.len(), 2);
    assert_eq!(cookies[0].cookie, "CONSENT=YES+1");
    assert_eq!(cookies[0].url, "https://.youtube.com/");
    assert_eq!(cookies[1].cookie, "PREF=f=1");
    assert_eq!(cookies[1].url, "http://www.youtube.com/watch");
}

#[test]
fn blank_cookie_file_is_invalid() {
    match CookieJarLoader::parse_cookie_file(" \n\t ", "/c.txt") {
        Err(CookieError::Invalid(p)) => assert_eq!(p, "/c.txt"),
        _ => panic!("expected Invalid"),
    }
}

#[test]
fn cookie_file_without_cookies_is_invalid() {
    match CookieJarLoader::parse_cookie_file("# only a comment\nno tabs here\n", "/c.txt") {
        Err(CookieError::Invalid(p)) => assert_eq!(p, "/c.txt"),
        _ => panic!("expected Invalid"),
    }
}

#[test]
fn lines_and_split_follow_std() {
    for s in ["", "a", "a\n", "a\r\nb", "a\n\nb\r", "\n", "x\r"] {
        let expected: Vec<String> = s.lines().map(|l| l.to_string()).collect();
        assert_eq!(lines(s), expected, "lines of {:?}", s);
        let expected: Vec<String> = s.split('\t').map(|l| l.to_string()).collect();
        assert_eq!(split_char(s, '\t'), expected);
    }
    let expected: Vec<String> = "a\tb\t\tc\t".split('\t').map(|l| l.to_string()).collect();
    assert_eq!(split_char("a\tb\t\tc\t", '\t'), expected);
}

#[test]
fn cookie_line_without_a_url_is_skipped() {
    let content = "bad host\tTRUE\t/\tFALSE\t0\tA\tb\nwww.youtube.com\tFALSE\t/\tFALSE\t0\tPREF\tf=1\n";
    let cookies = CookieJarLoader::parse_cookie_file(content, "/c.txt").ok().unwrap();
    assert_eq!(cookies.len(), 1);
    assert_eq!(cookies[0].cookie, "PREF=f=1");
    match CookieJarLoader::parse_cookie_file("bad host\tTRUE\t/\tFALSE\t0\tA\tb\n", "/c.txt") {
        Err(CookieError::Invalid(p)) => assert_eq!(p, "/c.txt"),
        _ => panic!("expected Invalid"),
    }
}
