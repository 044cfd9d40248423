//! Extraction of the JSON object that a JavaScript variable is assigned in a
//! page's HTML.

use vstd::prelude::*;
use crate::errors::{CouldNotRetrieveTranscript, CouldNotRetrieveTranscriptReason, ReasonView, error_view};
use crate::json::{JsonModel, json_model, json_parse, json_from_str};
use crate::pattern::{CompiledRegex, regex_compiles, regex_first_group, regex_escape, regex_escape_spec, regex_capture_group1};
use crate::text::{chars_of, sub_vec, string_from, owned, concat, contains, contains_seq, find_exec, find_from, lemma_find_from, is_first_occurrence, occurs_at};

verus! {

/// Where a scan of the text after an opening brace stands: the brace depth,
/// whether the previous character was an unescaped backslash, and whether
/// the scan is inside a string.
pub struct ScanState {
    pub depth: int,
    pub escaped: bool,
    pub in_quotes: bool,
}

/// One character of the scan. An escaped character counts for nothing; a
/// backslash escapes the next one; a quote opens or closes a string; outside
/// strings braces raise and lower the depth.
pub open spec fn scan_step(st: ScanState, c: char) -> ScanState {
    if st.escaped {
        ScanState { escaped: false, ..st }
    } else if c == '\\' {
        ScanState { escaped: true, ..st }
    } else if c == '"' {
        ScanState { in_quotes: !st.in_quotes, ..st }
    } else if !st.in_quotes && c == '{' {
        ScanState { depth: st.depth + 1, ..st }
    } else if !st.in_quotes && c == '}' {
        ScanState { depth: st.depth - 1, ..st }
    } else {
        st
    }
}

/// The state after scanning `s`, which follows an opening brace.
pub open spec fn scan(s: Seq<char>) -> ScanState
    decreases s.len(),
{
    if s.len() == 0 {
        ScanState { depth: 1, escaped: false, in_quotes: false }
    } else {
        scan_step(scan(s.drop_last()), s.last())
    }
}

/// The first `k` characters of `rest` close the brace that precedes it: the
/// depth reaches zero there and not before.
pub open spec fn closes_at(rest: Seq<char>, k: int) -> bool {
    &&& 1 <= k <= rest.len()
    &&& scan(rest.take(k)).depth == 0
    &&& forall|j: int| 0 <= j < k ==> #[trigger] scan(rest.take(j)).depth > 0
}

/// The number of characters after an opening brace that close it.
pub open spec fn closing_len(rest: Seq<char>) -> int {
    choose|k: int| #[trigger] closes_at(rest, k)
}

/// The object that starts at the first opening brace of `s` and ends at the
/// brace that closes it, if it is closed within `s`.
pub open spec fn braced_block(s: Seq<char>) -> Option<Seq<char>> {
    match find_from(s, seq!['{'], 0) {
        None => None,
        Some(o) => {
            let rest = s.skip(o + 1);
            if exists|k: int| #[trigger] closes_at(rest, k) {
                Some(s.subrange(o, o + 1 + closing_len(rest)))
            } else {
                None
            }
        },
    }
}

/// The text between the first occurrence of `marker` and the next one (or
/// the end), as the second piece of `split(marker)`.
pub open spec fn marker_segment(html: Seq<char>, marker: Seq<char>) -> Option<Seq<char>> {
    match find_from(html, marker, 0) {
        None => None,
        Some(p) => {
            let start = p + marker.len();
            match find_from(html, marker, start) {
                Some(q) => Some(html.subrange(start, q)),
                None => Some(html.skip(start)),
            }
        },
    }
}

/// The object text that the scan for `var <name>` finds.
pub open spec fn scanned_text(html: Seq<char>, name: Seq<char>) -> Option<Seq<char>> {
    match marker_segment(html, "var "@ + name) {
        None => None,
        Some(seg) => braced_block(seg),
    }
}

/// The patterns tried, in order, when the scan gives nothing parsable.
pub open spec fn fallback_patterns(name: Seq<char>) -> Seq<Seq<char>> {
    let e = regex_escape_spec(name);
    seq![
        e + "\\ =\\ (.*?);</script>"@,
        e + "=(.*?);</script>"@,
        e + " = (.*?);"@,
        e + "=(.*?);"@,
    ]
}

/// The value that one pattern gives: its group 1, parsed as JSON.
pub open spec fn pattern_value(pattern: Seq<char>, html: Seq<char>) -> Option<JsonModel> {
    if regex_compiles(pattern) {
        match regex_first_group(pattern, html) {
            Some(g) => json_parse(g),
            None => None,
        }
    } else {
        None
    }
}

/// The value of the first pattern, from index `i` on, that gives one.
pub open spec fn fallback_value(patterns: Seq<Seq<char>>, html: Seq<char>, i: int) -> Option<JsonModel>
    decreases patterns.len() - i,
{
    if i < 0 || i >= patterns.len() {
        None
    } else {
        match pattern_value(patterns[i], html) {
            Some(v) => Some(v),
            None => fallback_value(patterns, html, i + 1),
        }
    }
}

/// The value that `parse` finds for variable `name` in `html`: none when
/// the page does not hold the name, else the scanned object when it parses
/// as JSON, else the first pattern's.
pub open spec fn parse_outcome(html: Seq<char>, name: Seq<char>) -> Option<JsonModel> {
    if !contains_seq(html, name) {
        None
    } else {
        match scanned_text(html, name) {
            Some(t) => match json_parse(t) {
                Some(v) => Some(v),
                None => fallback_value(fallback_patterns(name), html, 0),
            },
            None => fallback_value(fallback_patterns(name), html, 0),
        }
    }
}

/// A page that does not hold the variable's name gives no value, so
/// `parse` fails on it.
pub proof fn lemma_parse_needs_name(html: Seq<char>, name: Seq<char>)
    requires
        !contains_seq(html, name),
    ensures
        parse_outcome(html, name) is None,
{
}

/// A character that is neither a quote, a backslash nor a brace: the text
/// of JSON strings and numbers, apostrophes included, is made of these.
pub open spec fn is_plain_char(c: char) -> bool {
    c != '"' && c != '\\' && c != '{' && c != '}'
}

/// Two texts of one length that differ only where both hold plain
/// characters.
pub open spec fn differ_in_plain_chars(s: Seq<char>, s2: Seq<char>) -> bool {
    &&& s.len() == s2.len()
    &&& forall|j: int| 0 <= j < s.len() ==> s[j] == s2[j] || (is_plain_char(s[j]) && is_plain_char(s2[j]))
}

proof fn lemma_scan_prefixes_agree(a: Seq<char>, b: Seq<char>, j: int)
    requires
        differ_in_plain_chars(a, b),
        0 <= j <= a.len(),
    ensures
        scan(a.take(j)) == scan(b.take(j)),
    decreases j,
{
    if j > 0 {
        lemma_scan_prefixes_agree(a, b, j - 1);
        assert(a.take(j).drop_last() =~= a.take(j - 1));
        assert(b.take(j).drop_last() =~= b.take(j - 1));
        assert(a.take(j).last() == a[j - 1]);
        assert(b.take(j).last() == b[j - 1]);
    }
}

/// Where the scan closes an object does not depend on its plain
/// characters: texts that differ only in plain characters (the letters,
/// digits, punctuation and apostrophes inside strings, say) have blocks of
/// the same extent, or both none. Only quotes, backslashes and braces steer
/// the scan.
pub proof fn lemma_block_ignores_plain_chars(s: Seq<char>, s2: Seq<char>)
    requires
        differ_in_plain_chars(s, s2),
    ensures
        (braced_block(s) is Some) == (braced_block(s2) is Some),
        braced_block(s) is Some ==> braced_block(s).unwrap().len() == braced_block(s2).unwrap().len(),
{
    let brace = seq!['{'];
    assert forall|k: int| occurs_at(s, brace, k) == occurs_at(s2, brace, k) by {
        if 0 <= k && k + 1 <= s.len() {
            assert(s.subrange(k, k + 1) =~= seq![s[k]]);
            assert(s2.subrange(k, k + 1) =~= seq![s2[k]]);
            assert((s[k] == '{') == (s2[k] == '{'));
            if s[k] == '{' {
                assert(seq![s[k]] =~= brace);
                assert(seq![s2[k]] =~= brace);
            } else {
                assert(seq![s[k]][0] != brace[0]);
                assert(seq![s2[k]][0] != brace[0]);
            }
        }
    }
    assert forall|k: int| is_first_occurrence(s, brace, 0, k) == is_first_occurrence(s2, brace, 0, k) by {}
    lemma_find_from(s, brace, 0);
    lemma_find_from(s2, brace, 0);
    match find_from(s, brace, 0) {
        None => {
            if let Some(o2) = find_from(s2, brace, 0) {
                assert(occurs_at(s, brace, o2));
            }
        },
        Some(o) => {
            assert(is_first_occurrence(s2, brace, 0, o));
            let o2 = find_from(s2, brace, 0)->0;
            crate::text::lemma_first_occurrence_unique(s2, brace, 0, o, o2);
            let rest = s.skip(o + 1);
            let rest2 = s2.skip(o + 1);
            assert(differ_in_plain_chars(rest, rest2)) by {
                assert forall|j: int| 0 <= j < rest.len() implies rest[j] == rest2[j]
                    || (is_plain_char(rest[j]) && is_plain_char(rest2[j])) by {
                    assert(rest[j] == s[o + 1 + j]);
                    assert(rest2[j] == s2[o + 1 + j]);
                }
            }
            assert forall|j: int| 0 <= j <= rest.len() implies scan(rest.take(j)) == scan(rest2.take(j)) by {
                lemma_scan_prefixes_agree(rest, rest2, j);
            }
            assert forall|k: int| closes_at(rest, k) == closes_at(rest2, k) by {
                if 1 <= k <= rest.len() {
                    assert forall|j: int| 0 <= j < k implies scan(rest.take(j)).depth == scan(rest2.take(j)).depth by {
                        lemma_scan_prefixes_agree(rest, rest2, j);
                    }
                }
            }
            if exists|k: int| #[trigger] closes_at(rest, k) {
                let k1 = closing_len(rest);
                let k2 = closing_len(rest2);
                assert(closes_at(rest, k1));
                assert(closes_at(rest2, k2));
                assert(closes_at(rest, k2));
                if k1 < k2 {
                    assert(scan(rest.take(k1)).depth > 0);
                } else if k2 < k1 {
                    assert(scan(rest.take(k2)).depth > 0);
                }
            } else {
                if exists|k: int| #[trigger] closes_at(rest2, k) {
                    let k = choose|k: int| #[trigger] closes_at(rest2, k);
                    assert(closes_at(rest, k));
                }
            }
        },
    }
}

/// The block found by the scan starts with `{`, ends with the `}` that
/// brings the depth back to zero, and is balanced.
pub proof fn lemma_braced_block_shape(s: Seq<char>)
    ensures
        braced_block(s) matches Some(b) ==> {
            &&& b.len() >= 2
            &&& b[0] == '{'
            &&& b.last() == '}'
            &&& scan(b.drop_first()).depth == 0
            &&& forall|j: int| 0 <= j < b.len() - 1 ==> #[trigger] scan(b.drop_first().take(j)).depth > 0
        },
{
    lemma_find_from(s, seq!['{'], 0);
    if let Some(b) = braced_block(s) {
        let o = find_from(s, seq!['{'], 0)->0;
        let rest = s.skip(o + 1);
        let k = closing_len(rest);
        assert(s.subrange(o, o + 1) == seq!['{']);
        assert(b[0] == s[o]);
        assert(b.drop_first() =~= rest.take(k));
        lemma_closing_char(rest, k);
        assert(b.last() == rest[k - 1]);
        assert forall|j: int| 0 <= j < b.len() - 1 implies #[trigger] scan(b.drop_first().take(j)).depth > 0 by {
            assert(b.drop_first().take(j) =~= rest.take(j));
            assert(scan(rest.take(j)).depth > 0);
        }
    }
}

/// The character that brings the depth to zero is a closing brace.
proof fn lemma_closing_char(rest: Seq<char>, k: int)
    requires
        closes_at(rest, k),
    ensures
        rest[k - 1] == '}',
{
    let t = rest.take(k);
    assert(t.drop_last() =~= rest.take(k - 1));
    assert(scan(rest.take(k - 1)).depth > 0);
}

/// An object that follows text without an opening brace is what the scan
/// extracts: for `s = p + b + q`, where `p` holds no `{` and `b` is an
/// opening brace followed by text that closes it exactly at its end,
/// `braced_block(s)` is `b`.
pub proof fn lemma_block_extracted(p: Seq<char>, b: Seq<char>, q: Seq<char>)
    requires
        forall|i: int| 0 <= i < p.len() ==> p[i] != '{',
        b.len() >= 1,
        b[0] == '{',
        closes_at(b.drop_first(), b.len() - 1),
    ensures
        braced_block(p + b + q) == Some(b),
{
    let s = p + b + q;
    let o = p.len() as int;
    assert(occurs_at(s, seq!['{'], o)) by {
        assert(s.subrange(o, o + 1) =~= seq!['{']);
    }
    assert forall|j: int| 0 <= j < o implies !occurs_at(s, seq!['{'], j) by {
        if occurs_at(s, seq!['{'], j) {
            assert(s.subrange(j, j + 1)[0] == s[j]);
            assert(s[j] == p[j]);
        }
    }
    assert(is_first_occurrence(s, seq!['{'], 0, o));
    lemma_find_from(s, seq!['{'], 0);
    let f = find_from(s, seq!['{'], 0)->0;
    crate::text::lemma_first_occurrence_unique(s, seq!['{'], 0, o, f);
    let rest = s.skip(o + 1);
    let inner = b.drop_first();
    let k = inner.len() as int;
    assert forall|j: int| 0 <= j <= k implies rest.take(j) == inner.take(j) by {
        assert(rest.take(j) =~= inner.take(j));
    }
    assert(closes_at(rest, k)) by {
        assert(rest.take(k) == inner.take(k));
        assert forall|j: int| 0 <= j < k implies #[trigger] scan(rest.take(j)).depth > 0 by {
            assert(rest.take(j) == inner.take(j));
            assert(scan(inner.take(j)).depth > 0);
        }
    }
    let k2 = closing_len(rest);
    if k2 < k {
        assert(rest.take(k2) == inner.take(k2));
        assert(scan(inner.take(k2)).depth > 0);
    } else if k2 > k {
        assert(scan(rest.take(k)).depth > 0);
    }
    assert(s.subrange(o, o + 1 + k) =~= b);
}

/// Parser for the JavaScript variable holding a JSON object.
#[derive(Debug)]
pub struct JsVarParser {
    var_name: String,
}

impl JsVarParser {
    /// The name of the variable looked for.
    pub closed spec fn name(&self) -> Seq<char> {
        self.var_name@
    }

    /// A parser for the variable `var_name`.
    pub fn new(var_name: &str) -> (p: Self)
        ensures
            p.name() == var_name@,
    {
        JsVarParser { var_name: owned(var_name) }
    }

    /// The JSON value assigned to the variable in `html`. First the object
    /// after `var <name>` is taken by matching braces (outside strings, with
    /// backslash escapes); when that gives nothing parsable, four regular
    /// expressions are tried in turn. Fails with `YouTubeDataUnparsable`
    /// when neither gives a JSON value, and at once when the page does not
    /// hold the name, which every pattern has in it.
    pub fn parse(&self, html: &str, video_id: &str) -> (res: Result<serde_json::Value, CouldNotRetrieveTranscript>)
        ensures
            match res {
                Ok(v) => parse_outcome(html@, self.name()) == Some(json_model(v)),
                Err(e) => parse_outcome(html@, self.name()) is None
                    && e@ == error_view(video_id@, ReasonView::YouTubeDataUnparsable),
            },
    {
        if !contains(html, self.var_name.as_str()) {
            return Err(CouldNotRetrieveTranscript {
                video_id: owned(video_id),
                reason: Some(CouldNotRetrieveTranscriptReason::YouTubeDataUnparsable),
            });
        }
        if let Some(text) = self.scan_for_object(html) {
            if let Some(v) = json_from_str(text.as_str()) {
                return Ok(v);
            }
        }
        self.parse_with_regex(html, video_id)
    }

    /// The object text after `var <name>`, found by matching braces.
    fn scan_for_object(&self, html: &str) -> (res: Option<String>)
        ensures
            match res {
                Some(t) => scanned_text(html@, self.name()) == Some(t@),
                None => scanned_text(html@, self.name()) is None,
            },
    {
        let h = chars_of(html);
        let marker = chars_of(concat("var ", self.var_name.as_str()).as_str());
        proof {
            lemma_find_from(h@, marker@, 0);
        }
        let p = match find_exec(&h, &marker, 0) {
            Some(p) => p,
            None => return None,
        };
        assert(occurs_at(h@, marker@, p as int));
        assert(p + marker.len() <= h.len());
        let start = p + marker.len();
        let end = match find_exec(&h, &marker, start) {
            Some(q) => q,
            None => h.len(),
        };
        proof {
            lemma_find_from(h@, marker@, start as int);
            if end < h.len() {
                assert(start <= end);
            }
        }
        let seg = sub_vec(&h, start, end);
        assert(marker_segment(h@, marker@) == Some(seg@)) by {
            if end == h.len() {
                assert(h@.skip(start as int) =~= h@.subrange(start as int, end as int));
            }
        }
        braced_block_exec(&seg)
    }

    /// The first of the fallback patterns that gives a JSON value.
    fn parse_with_regex(&self, html: &str, video_id: &str) -> (res: Result<serde_json::Value, CouldNotRetrieveTranscript>)
        ensures
            match res {
                Ok(v) => fallback_value(fallback_patterns(self.name()), html@, 0) == Some(json_model(v)),
                Err(e) => fallback_value(fallback_patterns(self.name()), html@, 0) is None
                    && e@ == error_view(video_id@, ReasonView::YouTubeDataUnparsable),
            },
    {
        let e = regex_escape(self.var_name.as_str());
        let patterns = vec![
            concat(e.as_str(), "\\ =\\ (.*?);</script>"),
            concat(e.as_str(), "=(.*?);</script>"),
            concat(e.as_str(), " = (.*?);"),
            concat(e.as_str(), "=(.*?);"),
        ];
        let ghost pats = patterns@.map_values(|s: String| s@);
        assert(pats =~= fallback_patterns(self.name()));
        let mut i: usize = 0;
        while i < patterns.len()
            invariant
                i <= patterns@.len(),
                pats == patterns@.map_values(|s: String| s@),
                pats == fallback_patterns(self.name()),
                fallback_value(pats, html@, 0) == fallback_value(pats, html@, i as int),
            decreases patterns.len() - i,
        {
            let re = CompiledRegex::new(patterns[i].as_str());
            assert(re.pattern() == pats[i as int]);
            if re.is_valid() {
                if let Some(g) = regex_capture_group1(&re, html) {
                    if let Some(v) = json_from_str(g.as_str()) {
                        assert(pattern_value(pats[i as int], html@) == Some(json_model(v)));
                        return Ok(v);
                    }
                }
            }
            assert(pattern_value(pats[i as int], html@) is None);
            assert(fallback_value(pats, html@, i as int) == fallback_value(pats, html@, i + 1));
            i = i + 1;
        }
        Err(CouldNotRetrieveTranscript {
            video_id: owned(video_id),
            reason: Some(CouldNotRetrieveTranscriptReason::YouTubeDataUnparsable),
        })
    }
}

/// The object at the first opening brace of `seg`, closed within `seg`.
/// The block of `s` when its first brace is at `o` and closes after `k`
/// more characters.
proof fn lemma_block_at(s: Seq<char>, o: int, k: int)
    requires
        find_from(s, seq!['{'], 0) == Some(o),
        closes_at(s.skip(o + 1), k),
        closing_len(s.skip(o + 1)) == k,
    ensures
        braced_block(s) == Some(s.subrange(o, o + 1 + k)),
{
}

fn braced_block_exec(seg: &Vec<char>) -> (res: Option<String>)
    ensures
        match res {
            Some(t) => braced_block(seg@) == Some(t@),
            None => braced_block(seg@) is None,
        },
{
    let brace = vec!['{'];
    assert(brace@ =~= seq!['{']);
    let o = match find_exec(seg, &brace, 0) {
        Some(o) => o,
        None => return None,
    };
    proof {
        lemma_find_from(seg@, seq!['{'], 0);
        assert(occurs_at(seg@, seq!['{'], o as int));
    }
    assert(o + 1 <= seg@.len());
    assert(o < seg.len());
    let ghost rest = seg@.skip(o + 1);
    let mut i = o + 1;
    let mut depth: usize = 1;
    let mut escaped = false;
    let mut in_quotes = false;
    assert(rest.take(0) =~= Seq::<char>::empty());
    while i < seg.len()
        invariant
            o < seg@.len(),
            find_from(seg@, seq!['{'], 0) == Some(o as int),
            o + 1 <= i <= seg@.len(),
            rest == seg@.skip(o + 1),
            depth as int == scan(rest.take(i - o - 1)).depth,
            escaped == scan(rest.take(i - o - 1)).escaped,
            in_quotes == scan(rest.take(i - o - 1)).in_quotes,
            1 <= depth <= i - o,
            forall|j: int| 0 <= j <= i - o - 1 ==> #[trigger] scan(rest.take(j)).depth > 0,
        decreases seg.len() - i,
    {
        let c = seg[i];
        let ghost k = i - o - 1;
        proof {
            let t = rest.take(k + 1);
            assert(t.drop_last() =~= rest.take(k));
            assert(t.last() == c);
        }
        if escaped {
            escaped = false;
        } else if c == '\\' {
            escaped = true;
        } else if c == '"' {
            in_quotes = !in_quotes;
        } else if !in_quotes && c == '{' {
            depth = depth + 1;
        } else if !in_quotes && c == '}' {
            depth = depth - 1;
        }
        i = i + 1;
        if depth == 0 {
            proof {
                assert(closes_at(rest, k + 1));
                let k2 = closing_len(rest);
                if k2 < k + 1 {
                    assert(scan(rest.take(k2)).depth > 0);
                } else if k2 > k + 1 {
                    assert(scan(rest.take(k + 1)).depth > 0);
                }
                assert(seg@.subrange(o as int, i as int).len() == i - o);
                assert(find_from(seg@, seq!['{'], 0) == Some(o as int));
                assert(exists|k3: int| #[trigger] closes_at(seg@.skip(o + 1), k3));
                assert(k2 == k + 1);
                lemma_block_at(seg@, o as int, k + 1);
            }
            return Some(string_from(seg, o, i));
        }
    }
    proof {
        assert forall|k: int| !closes_at(rest, k) by {
            if closes_at(rest, k) {
                assert(scan(rest.take(k)).depth > 0);
            }
        }
    }
    None
}

/// When `var <name>` occurs once in a page, and after it, past text
/// without an opening brace, stands an object closed within the page whose
/// text parses as JSON, `parse` gives that value.
pub proof fn lemma_parse_finds_assigned_object(
    pre: Seq<char>,
    name: Seq<char>,
    between: Seq<char>,
    object: Seq<char>,
    after: Seq<char>,
)
    requires
        forall|i: int| 0 <= i < between.len() ==> between[i] != '{',
        object.len() >= 1,
        object[0] == '{',
        closes_at(object.drop_first(), object.len() - 1),
        json_parse(object) is Some,
        forall|i: int| #[trigger] occurs_at(pre + ("var "@ + name) + between + object + after, "var "@ + name, i)
            ==> i == pre.len(),
    ensures
        parse_outcome(pre + ("var "@ + name) + between + object + after, name) == json_parse(object),
{
    let m = "var "@ + name;
    let html = pre + m + between + object + after;
    let start: int = (pre.len() + m.len()) as int;
    assert(occurs_at(html, m, pre.len() as int)) by {
        assert(html.subrange(pre.len() as int, start) =~= m);
    }
    assert(is_first_occurrence(html, m, 0, pre.len() as int));
    lemma_find_from(html, m, 0);
    crate::text::lemma_first_occurrence_unique(html, m, 0, pre.len() as int, find_from(html, m, 0)->0);
    lemma_find_from(html, m, start);
    if let Some(q) = find_from(html, m, start) {
        assert(occurs_at(html, m, q));
        assert(false) by {
            reveal_strlit("var ");
        }
    }
    assert(html.skip(start) =~= between + object + after);
    lemma_block_extracted(between, object, after);
    let at: int = (pre.len() + 4) as int;
    assert(occurs_at(html, name, at)) by {
        reveal_strlit("var ");
        assert(html.subrange(at, at + name.len()) =~= name);
    }
}

} // verus!
