//! Parsing of the timed-text XML of a transcript into snippets.

use vstd::prelude::*;
use crate::pattern::{CompiledRegex, regex_compiles, regex_matches_all, regex_split_all, regex_find_all, regex_split};
use crate::text::{chars_of, push_char, push_str, str_eq};

verus! {

/// A child of an element: whether it is a text node, its text
/// (`Node::text`), and its source in the document (`Node::range`).
#[derive(Debug)]
pub struct XmlChild {
    pub is_text: bool,
    pub text: Option<String>,
    pub source: String,
}

/// The content of an `XmlChild`.
pub struct XmlChildView {
    pub is_text: bool,
    pub text: Option<Seq<char>>,
    pub source: Seq<char>,
}

impl View for XmlChild {
    type V = XmlChildView;

    open spec fn view(&self) -> XmlChildView {
        XmlChildView {
            is_text: self.is_text,
            text: match self.text {
                Some(t) => Some(t@),
                None => None,
            },
            source: self.source@,
        }
    }
}

/// A child node of the root element of an XML document: the local name of
/// an element (`None` for other nodes), its attributes as (local name,
/// value) in document order, and its own children.
#[derive(Debug)]
pub struct XmlNode {
    pub tag: Option<String>,
    pub attributes: Vec<(String, String)>,
    pub children: Vec<XmlChild>,
}

/// The content of an `XmlNode`.
pub struct XmlNodeView {
    pub tag: Option<Seq<char>>,
    pub attributes: Seq<(Seq<char>, Seq<char>)>,
    pub children: Seq<XmlChildView>,
}

impl View for XmlNode {
    type V = XmlNodeView;

    open spec fn view(&self) -> XmlNodeView {
        XmlNodeView {
            tag: match self.tag {
                Some(t) => Some(t@),
                None => None,
            },
            attributes: self.attributes@.map_values(|a: (String, String)| (a.0@, a.1@)),
            children: self.children@.map_values(|c: XmlChild| c@),
        }
    }
}

/// The children of the root element that `roxmltree::Document::parse`
/// finds in a text; `None` when it rejects the text.
pub uninterp spec fn xml_root_children(text: Seq<char>) -> Option<Seq<XmlNodeView>>;

/// What `html_escape::decode_html_entities` gives for a text.
pub uninterp spec fn html_entities_decoded(text: Seq<char>) -> Seq<char>;

/// `roxmltree::Document::parse`, then the children of the root element,
/// each read as an `XmlNode` with its own children.
#[verifier::external_body]
pub(crate) fn xml_children_of_root(text: &str) -> (res: Option<Vec<XmlNode>>)
    ensures
        match res {
            Some(v) => xml_root_children(text@) == Some(v@.map_values(|n: XmlNode| n@)),
            None => xml_root_children(text@) is None,
        },
{
    roxmltree::Document::parse(text).ok().map(|doc| doc.root_element().children().map(|n| XmlNode {
        tag: if n.is_element() { Some(n.tag_name().name().to_string()) } else { None },
        attributes: n.attributes().map(|a| (a.name().to_string(), a.value().to_string())).collect(),
        children: n.children().map(|c| XmlChild {
            is_text: c.is_text(), text: c.text().map(|t| t.to_string()), source: text[c.range()].to_string(),
        }).collect(),
    }).collect())
}

/// `html_escape::decode_html_entities`.
#[verifier::external_body]
pub(crate) fn decode_entities(text: &str) -> (res: String)
    ensures
        res@ == html_entities_decoded(text@),
{
    html_escape::decode_html_entities(text).into_owned()
}

/// The value of the first attribute with the given name.
pub open spec fn attribute_value(attrs: Seq<(Seq<char>, Seq<char>)>, name: Seq<char>) -> Option<Seq<char>>
    decreases attrs.len(),
{
    if attrs.len() == 0 {
        None
    } else if attrs[0].0 == name {
        Some(attrs[0].1)
    } else {
        attribute_value(attrs.drop_first(), name)
    }
}

/// One segment of a transcript before its times are read as numbers: the
/// cleaned text and the `start` and `dur` attributes as written.
#[derive(Debug, Clone)]
pub struct SnippetText {
    pub text: String,
    pub start: Option<String>,
    pub duration: Option<String>,
}

/// The content of a `SnippetText`.
pub struct SnippetTextView {
    pub text: Seq<char>,
    pub start: Option<Seq<char>>,
    pub duration: Option<Seq<char>>,
}

impl View for SnippetText {
    type V = SnippetTextView;

    open spec fn view(&self) -> SnippetTextView {
        SnippetTextView {
            text: self.text@,
            start: match self.start {
                Some(t) => Some(t@),
                None => None,
            },
            duration: match self.duration {
                Some(t) => Some(t@),
                None => None,
            },
        }
    }
}

/// What a child adds to the text of its element: a text node its text,
/// any other node (an element such as `<b>..</b>`) its source.
pub open spec fn child_text(c: XmlChildView) -> Seq<char> {
    if c.is_text {
        match c.text {
            Some(t) => t,
            None => Seq::empty(),
        }
    } else {
        c.source
    }
}

/// The text of an element: what its children add, in order.
pub open spec fn inner_text(children: Seq<XmlChildView>) -> Seq<char>
    decreases children.len(),
{
    if children.len() == 0 {
        Seq::empty()
    } else {
        inner_text(children.drop_last()) + child_text(children.last())
    }
}

/// The pattern of a tag.
pub const TAG_PATTERN: &'static str = "<[^>]*>";

/// The characters a tag name is made of.
pub open spec fn is_name_char(c: char) -> bool {
    ('a' <= c && c <= 'z') || ('A' <= c && c <= 'Z') || ('0' <= c && c <= '9')
}

/// The run of name characters of `s` from index `i` on.
pub open spec fn name_run(s: Seq<char>, i: int) -> Seq<char>
    decreases s.len() - i,
{
    if 0 <= i < s.len() && is_name_char(s[i]) {
        seq![s[i]] + name_run(s, i + 1)
    } else {
        Seq::empty()
    }
}

/// The name of a tag `<name ...>` or `</name>`.
pub open spec fn tag_name(tag: Seq<char>) -> Seq<char> {
    name_run(tag, if tag.len() > 1 && tag[1] == '/' { 2 } else { 1 })
}

/// The names of the formatting tags, as texts.
pub open spec fn formatting_tag_names() -> Seq<Seq<char>> {
    TranscriptParser::FORMATTING_TAGS@.map_values(|t: &str| t@)
}

/// Whether a tag stays in the text: only formatting tags, and only when
/// formatting is kept.
pub open spec fn keeps_tag(tag: Seq<char>, preserve_formatting: bool) -> bool {
    preserve_formatting && formatting_tag_names().contains(tag_name(tag))
}

/// The text put back together from the pieces between the tags, with the
/// tags that stay: piece 0, tag 0 if it stays, piece 1, and so on.
pub open spec fn kept_text(pieces: Seq<Seq<char>>, tags: Seq<Seq<char>>, preserve_formatting: bool) -> Seq<char>
    decreases pieces.len(),
{
    if pieces.len() == 0 {
        Seq::empty()
    } else {
        let n = pieces.len() - 1;
        kept_text(pieces.drop_last(), tags, preserve_formatting) + (if n > 0 && n - 1 < tags.len()
            && keeps_tag(tags[n - 1], preserve_formatting) {
            tags[n - 1]
        } else {
            Seq::empty()
        }) + pieces.last()
    }
}

/// A text with its tags removed, but for formatting tags when formatting is
/// kept.
pub open spec fn strip_tags(text: Seq<char>, preserve_formatting: bool) -> Seq<char> {
    kept_text(regex_split_all(TAG_PATTERN@, text), regex_matches_all(TAG_PATTERN@, text), preserve_formatting)
}

/// The snippet of a `text` element: its text with entities decoded and the
/// tags removed that do not stay.
pub open spec fn snippet_of(node: XmlNodeView, preserve_formatting: bool) -> SnippetTextView {
    SnippetTextView {
        text: strip_tags(html_entities_decoded(inner_text(node.children)), preserve_formatting),
        start: attribute_value(node.attributes, "start"@),
        duration: attribute_value(node.attributes, "dur"@),
    }
}

/// The snippets of the `text` elements among the nodes, in order.
pub open spec fn snippets_of(nodes: Seq<XmlNodeView>, preserve_formatting: bool) -> Seq<SnippetTextView>
    decreases nodes.len(),
{
    if nodes.len() == 0 {
        Seq::empty()
    } else {
        snippets_of(nodes.drop_last(), preserve_formatting) + if nodes.last().tag == Some("text"@) {
            seq![snippet_of(nodes.last(), preserve_formatting)]
        } else {
            Seq::empty()
        }
    }
}

fn is_name_char_exec(c: char) -> (b: bool)
    ensures
        b == is_name_char(c),
{
    ('a' <= c && c <= 'z') || ('A' <= c && c <= 'Z') || ('0' <= c && c <= '9')
}

/// The name of a tag.
fn tag_name_of(tag: &str) -> (name: String)
    ensures
        name@ == tag_name(tag@),
{
    let cs = chars_of(tag);
    let start: usize = if cs.len() > 1 && cs[1] == '/' { 2 } else { 1 };
    let mut name = String::new();
    let mut j = start;
    assert(name@ + name_run(tag@, j as int) =~= name_run(tag@, start as int));
    while j < cs.len() && is_name_char_exec(cs[j])
        invariant
            cs@ == tag@,
            start <= j,
            name@ + name_run(tag@, j as int) == name_run(tag@, start as int),
        decreases cs.len() - j,
    {
        let ghost before = name@;
        push_char(&mut name, cs[j]);
        assert(name_run(tag@, j as int) == seq![cs@[j as int]] + name_run(tag@, j + 1));
        assert(name@ + name_run(tag@, j + 1) =~= before + name_run(tag@, j as int));
        j = j + 1;
    }
    assert(name_run(tag@, j as int) =~= Seq::<char>::empty());
    assert(name@ =~= name@ + name_run(tag@, j as int));
    name
}

/// Whether a name is that of a formatting tag.
fn is_formatting_tag(name: &str) -> (b: bool)
    ensures
        b == formatting_tag_names().contains(name@),
{
    let tags = TranscriptParser::FORMATTING_TAGS;
    let ghost names = formatting_tag_names();
    let mut i: usize = 0;
    while i < 10
        invariant
            i <= 10,
            tags@ == TranscriptParser::FORMATTING_TAGS@,
            names == formatting_tag_names(),
            names.len() == 10,
            forall|k: int| 0 <= k < i ==> names[k] != name@,
        decreases 10 - i,
    {
        assert(names[i as int] == tags@[i as int]@);
        if str_eq(tags[i], name) {
            assert(names[i as int] == name@);
            return true;
        }
        i = i + 1;
    }
    assert(!names.contains(name@));
    false
}

/// The text put back together from the pieces and the tags that stay.
fn join_kept(pieces: &Vec<String>, tags: &Vec<String>, preserve_formatting: bool) -> (r: String)
    ensures
        r@ == kept_text(pieces@.map_values(|p: String| p@), tags@.map_values(|p: String| p@), preserve_formatting),
{
    let ghost pv = pieces@.map_values(|p: String| p@);
    let ghost tv = tags@.map_values(|p: String| p@);
    let mut out = String::new();
    let mut i: usize = 0;
    assert(pv.take(0) =~= Seq::<Seq<char>>::empty());
    while i < pieces.len()
        invariant
            i <= pieces@.len(),
            pv == pieces@.map_values(|p: String| p@),
            tv == tags@.map_values(|p: String| p@),
            out@ == kept_text(pv.take(i as int), tv, preserve_formatting),
        decreases pieces.len() - i,
    {
        let ghost before = out@;
        let ghost t = pv.take(i + 1);
        assert(t.drop_last() =~= pv.take(i as int));
        assert(t.last() == pieces@[i as int]@);
        let ghost tag_part = if i > 0 && i - 1 < tv.len() && keeps_tag(tv[i - 1], preserve_formatting) {
            tv[i - 1]
        } else {
            Seq::<char>::empty()
        };
        if i > 0 && i - 1 < tags.len() && preserve_formatting {
            let name = tag_name_of(tags[i - 1].as_str());
            if is_formatting_tag(name.as_str()) {
                push_str(&mut out, tags[i - 1].as_str());
            }
        }
        assert(out@ =~= before + tag_part);
        push_str(&mut out, pieces[i].as_str());
        i = i + 1;
        assert(out@ =~= kept_text(t, tv, preserve_formatting));
    }
    assert(pv.take(pieces@.len() as int) =~= pv);
    out
}

/// The text of an element's children.
fn inner_text_of(children: &Vec<XmlChild>) -> (r: String)
    ensures
        r@ == inner_text(children@.map_values(|c: XmlChild| c@)),
{
    let ghost cv = children@.map_values(|c: XmlChild| c@);
    let mut out = String::new();
    let mut i: usize = 0;
    assert(cv.take(0) =~= Seq::<XmlChildView>::empty());
    while i < children.len()
        invariant
            i <= children@.len(),
            cv == children@.map_values(|c: XmlChild| c@),
            out@ == inner_text(cv.take(i as int)),
        decreases children.len() - i,
    {
        let ghost t = cv.take(i + 1);
        assert(t.drop_last() =~= cv.take(i as int));
        assert(t.last() == children@[i as int]@);
        let c = &children[i];
        if c.is_text {
            match &c.text {
                Some(s) => push_str(&mut out, s.as_str()),
                None => {},
            }
        } else {
            push_str(&mut out, c.source.as_str());
        }
        i = i + 1;
        assert(out@ =~= inner_text(t));
    }
    assert(cv.take(children@.len() as int) =~= cv);
    out
}

/// The timed-text XML could not be parsed.
#[derive(Debug)]
pub struct TranscriptParseError;

/// Parser for the timed-text XML of a transcript.
#[derive(Debug)]
pub struct TranscriptParser {
    preserve_formatting: bool,
    html_regex: CompiledRegex,
}

impl TranscriptParser {
    /// Formatting tags kept when `preserve_formatting` is set.
    pub const FORMATTING_TAGS: [&'static str; 10] = ["strong", "em", "b", "i", "mark", "small", "del", "ins", "sub", "sup"];

    #[verifier::type_invariant]
    spec fn inv(&self) -> bool {
        &&& self.html_regex.valid()
        &&& self.html_regex.pattern() == TAG_PATTERN@
    }

    /// Whether formatting tags are kept.
    pub closed spec fn keeps_formatting(&self) -> bool {
        self.preserve_formatting
    }

    /// A parser that removes tags, all of them or all but the formatting
    /// tags. The tag pattern must compile.
    pub fn new(preserve_formatting: bool) -> (p: Self)
        requires
            regex_compiles(TAG_PATTERN@),
        ensures
            p.keeps_formatting() == preserve_formatting,
    {
        let html_regex = CompiledRegex::new(TAG_PATTERN);
        TranscriptParser { preserve_formatting, html_regex }
    }

    /// A parser, or `None` where `new` would fail because the tag pattern
    /// does not compile.
    pub fn try_new(preserve_formatting: bool) -> (res: Option<Self>)
        ensures
            match res {
                Some(p) => p.keeps_formatting() == preserve_formatting,
                None => !regex_compiles(TAG_PATTERN@),
            },
    {
        let probe = CompiledRegex::new(TAG_PATTERN);
        if probe.is_valid() {
            Some(Self::new(preserve_formatting))
        } else {
            None
        }
    }

    /// The snippets of the `text` children of the root element of the
    /// timed-text XML; an error when the XML does not parse.
    pub fn parse(&self, raw_data: &str) -> (res: Result<Vec<SnippetText>, TranscriptParseError>)
        ensures
            match xml_root_children(raw_data@) {
                None => res is Err,
                Some(nodes) => res matches Ok(v)
                    && v@.map_values(|s: SnippetText| s@) == snippets_of(nodes, self.keeps_formatting()),
            },
    {
        proof {
            use_type_invariant(self);
        }
        let nodes = match xml_children_of_root(raw_data) {
            Some(n) => n,
            None => return Err(TranscriptParseError),
        };
        let ghost nv = nodes@.map_values(|n: XmlNode| n@);
        let ghost pf = self.preserve_formatting;
        let mut res: Vec<SnippetText> = Vec::new();
        let mut i: usize = 0;
        assert(res@.map_values(|s: SnippetText| s@) =~= snippets_of(nv.take(0), pf));
        while i < nodes.len()
            invariant
                i <= nodes@.len(),
                nv == nodes@.map_values(|n: XmlNode| n@),
                pf == self.preserve_formatting,
                self.html_regex.valid(),
                self.html_regex.pattern() == TAG_PATTERN@,
                res@.map_values(|s: SnippetText| s@) == snippets_of(nv.take(i as int), pf),
            decreases nodes.len() - i,
        {
            let node = &nodes[i];
            proof {
                let t = nv.take(i + 1);
                assert(t.drop_last() =~= nv.take(i as int));
                assert(t.last() == node@);
            }
            let is_text = match &node.tag {
                Some(t) => str_eq(t.as_str(), "text"),
                None => false,
            };
            let ghost before = res@;
            if is_text {
                let s = self.snippet(node);
                res.push(s);
                assert(res@ == before.push(s));
            }
            i = i + 1;
            assert(res@.map_values(|s: SnippetText| s@) =~= snippets_of(nv.take(i as int), pf));
        }
        assert(nv.take(nodes@.len() as int) =~= nv);
        Ok(res)
    }

    fn snippet(&self, node: &XmlNode) -> (s: SnippetText)
        requires
            self.html_regex.valid(),
            self.html_regex.pattern() == TAG_PATTERN@,
        ensures
            s@ == snippet_of(node@, self.preserve_formatting),
    {
        let raw = inner_text_of(&node.children);
        let decoded = decode_entities(raw.as_str());
        let pieces = regex_split(&self.html_regex, decoded.as_str());
        let tags = regex_find_all(&self.html_regex, decoded.as_str());
        let text = join_kept(&pieces, &tags, self.preserve_formatting);
        let start = find_attribute(&node.attributes, "start");
        let duration = find_attribute(&node.attributes, "dur");
        let s = SnippetText { text, start, duration };
        assert(s@.text == snippet_of(node@, self.preserve_formatting).text);
        assert(s@.start == snippet_of(node@, self.preserve_formatting).start);
        assert(s@.duration == snippet_of(node@, self.preserve_formatting).duration);
        s
    }
}

/// The value of the first attribute named `name`.
fn find_attribute(attrs: &Vec<(String, String)>, name: &str) -> (res: Option<String>)
    ensures
        match res {
            Some(v) => attribute_value(attrs@.map_values(|a: (String, String)| (a.0@, a.1@)), name@) == Some(v@),
            None => attribute_value(attrs@.map_values(|a: (String, String)| (a.0@, a.1@)), name@) is None,
        },
{
    let ghost av = attrs@.map_values(|a: (String, String)| (a.0@, a.1@));
    let mut i: usize = 0;
    assert(av.skip(0) =~= av);
    while i < attrs.len()
        invariant
            i <= attrs@.len(),
            av == attrs@.map_values(|a: (String, String)| (a.0@, a.1@)),
            attribute_value(av, name@) == attribute_value(av.skip(i as int), name@),
        decreases attrs.len() - i,
    {
        let ghost rest = av.skip(i as int);
        assert(rest.drop_first() =~= av.skip(i + 1));
        assert(rest[0] == av[i as int]);
        if str_eq(attrs[i].0.as_str(), name) {
            return Some(attrs[i].1.clone());
        }
        i = i + 1;
    }
    None
}

} // verus!
