//! A transcript that is available for a video, and its translation.

use vstd::prelude::*;
use crate::errors::{CouldNotRetrieveTranscript, CouldNotRetrieveTranscriptReason, ErrorView, ReasonView, error_view};
use crate::transcript_parser::{TranscriptParser, SnippetText, xml_root_children, snippets_of};
use crate::models::{TranslationLanguage, LanguageView, languages_view, clone_languages};
use crate::text::{owned, concat, push_str, str_eq};

verus! {

/// The map from a language code to its language name that collecting
/// `(code, name)` pairs in order gives: a later pair overrides an earlier one.
pub open spec fn language_map_of(langs: Seq<LanguageView>) -> Map<Seq<char>, Seq<char>>
    decreases langs.len(),
{
    if langs.len() == 0 {
        Map::empty()
    } else {
        language_map_of(langs.drop_last()).insert(langs.last().language_code, langs.last().language)
    }
}

/// Pairs after index `n` do not mention `code`, so the map of the whole
/// sequence agrees with the map of its first `n` pairs on `code`.
proof fn lemma_language_map_prefix(langs: Seq<LanguageView>, n: int, code: Seq<char>)
    requires
        0 <= n <= langs.len(),
        forall|j: int| n <= j < langs.len() ==> langs[j].language_code != code,
    ensures
        language_map_of(langs).dom().contains(code) == language_map_of(langs.take(n)).dom().contains(code),
        language_map_of(langs).dom().contains(code) ==> language_map_of(langs)[code] == language_map_of(langs.take(n))[code],
    decreases langs.len(),
{
    if langs.len() == n {
        assert(langs.take(n) =~= langs);
    } else {
        lemma_language_map_prefix(langs.drop_last(), n, code);
        assert(langs.drop_last().take(n) =~= langs.take(n));
    }
}

/// A map from language code to language name.
#[derive(Debug)]
pub struct LanguageMap {
    entries: Vec<TranslationLanguage>,
}

impl View for LanguageMap {
    type V = Map<Seq<char>, Seq<char>>;

    closed spec fn view(&self) -> Map<Seq<char>, Seq<char>> {
        language_map_of(languages_view(self.entries@))
    }
}

impl LanguageMap {
    /// The map that collecting the languages' `(code, name)` pairs gives.
    pub fn from_languages(langs: &Vec<TranslationLanguage>) -> (m: LanguageMap)
        ensures
            m@ == language_map_of(languages_view(langs@)),
    {
        LanguageMap { entries: clone_languages(langs) }
    }

    /// The language name stored for `code`.
    pub fn get(&self, code: &str) -> (res: Option<String>)
        ensures
            res is Some <==> self@.dom().contains(code@),
            res matches Some(s) ==> s@ == self@[code@],
    {
        let ghost langs = languages_view(self.entries@);
        let mut i = self.entries.len();
        while i > 0
            invariant
                i <= self.entries@.len(),
                langs == languages_view(self.entries@),
                forall|j: int| i <= j < langs.len() ==> langs[j].language_code != code@,
            decreases i,
        {
            let e = &self.entries[i - 1];
            if str_eq(e.language_code.as_str(), code) {
                proof {
                    lemma_language_map_prefix(langs, i as int, code@);
                    assert(langs.take(i as int).drop_last() =~= langs.take(i - 1));
                    assert(langs.take(i as int).last() == langs[i - 1]);
                }
                return Some(e.language.clone());
            }
            i = i - 1;
        }
        proof {
            lemma_language_map_prefix(langs, 0, code@);
            assert(langs.take(0) =~= Seq::<LanguageView>::empty());
        }
        None
    }

    /// Whether `code` has an entry.
    pub fn contains_key(&self, code: &str) -> (res: bool)
        ensures
            res == self@.dom().contains(code@),
    {
        self.get(code).is_some()
    }
}

impl Clone for LanguageMap {
    fn clone(&self) -> (res: Self)
        ensures
            res@ == self@,
    {
        LanguageMap { entries: clone_languages(&self.entries) }
    }
}

/// A transcript that is available for a video. It holds what is needed to
/// fetch it: the HTTP client is the caller's. Its translation map is always
/// the one its translation languages give.
#[derive(Debug)]
pub struct Transcript {
    pub(crate) video_id: String,
    pub(crate) url: String,
    pub(crate) language: String,
    pub(crate) language_code: String,
    pub(crate) is_generated: bool,
    pub(crate) translation_languages: Vec<TranslationLanguage>,
    pub(crate) translation_languages_map: LanguageMap,
}

/// The content of a `Transcript`.
pub struct TranscriptView {
    pub video_id: Seq<char>,
    pub url: Seq<char>,
    pub language: Seq<char>,
    pub language_code: Seq<char>,
    pub is_generated: bool,
    pub translation_languages: Seq<LanguageView>,
    pub translation_languages_map: Map<Seq<char>, Seq<char>>,
}

impl View for Transcript {
    type V = TranscriptView;

    closed spec fn view(&self) -> TranscriptView {
        TranscriptView {
            video_id: self.video_id@,
            url: self.url@,
            language: self.language@,
            language_code: self.language_code@,
            is_generated: self.is_generated,
            translation_languages: languages_view(self.translation_languages@),
            translation_languages_map: self.translation_languages_map@,
        }
    }
}

/// The transcript that `Transcript::new` makes of these values.
pub open spec fn new_transcript_view(
    video_id: Seq<char>,
    url: Seq<char>,
    language: Seq<char>,
    language_code: Seq<char>,
    is_generated: bool,
    translation_languages: Seq<LanguageView>,
) -> TranscriptView {
    TranscriptView {
        video_id,
        url,
        language,
        language_code,
        is_generated,
        translation_languages,
        translation_languages_map: language_map_of(translation_languages),
    }
}

/// The URL of the translation of a transcript into `code`.
pub open spec fn translation_url(url: Seq<char>, code: Seq<char>) -> Seq<char> {
    url + "&tlang="@ + code
}

/// What `translate` answers for a transcript and a target code.
pub open spec fn translate_spec(t: TranscriptView, code: Seq<char>) -> Result<TranscriptView, ErrorView> {
    if t.translation_languages.len() == 0 {
        Err(ErrorView { video_id: t.video_id, reason: Some(ReasonView::NotTranslatable) })
    } else if !t.translation_languages_map.dom().contains(code) {
        Err(ErrorView { video_id: t.video_id, reason: Some(ReasonView::TranslationLanguageNotAvailable) })
    } else {
        Ok(new_transcript_view(
            t.video_id,
            translation_url(t.url, code),
            t.translation_languages_map[code],
            code,
            true,
            t.translation_languages,
        ))
    }
}

/// The text `Display` gives for a transcript.
pub open spec fn transcript_display(t: TranscriptView) -> Seq<char> {
    t.language_code + " ("@ + t.language + ")"@ + if t.translation_languages.len() > 0 {
        "[TRANSLATABLE]"@
    } else {
        Seq::empty()
    }
}

impl Transcript {
    #[verifier::type_invariant]
    spec fn inv(&self) -> bool {
        self.translation_languages_map@ == language_map_of(languages_view(self.translation_languages@))
    }

    /// The translation map is the one the translation languages give.
    pub fn map_agrees(&self)
        ensures
            self@.translation_languages_map == language_map_of(self@.translation_languages),
    {
        proof {
            use_type_invariant(self);
        }
    }

    /// The id of the video.
    pub fn video_id(&self) -> (r: &str)
        ensures
            r@ == self@.video_id,
    {
        self.video_id.as_str()
    }

    /// The URL the transcript is fetched from.
    pub fn url(&self) -> (r: &str)
        ensures
            r@ == self@.url,
    {
        self.url.as_str()
    }

    /// The name of the language.
    pub fn language(&self) -> (r: &str)
        ensures
            r@ == self@.language,
    {
        self.language.as_str()
    }

    /// The code of the language.
    pub fn language_code(&self) -> (r: &str)
        ensures
            r@ == self@.language_code,
    {
        self.language_code.as_str()
    }

    /// Whether YouTube generated the transcript.
    pub fn is_generated(&self) -> (r: bool)
        ensures
            r == self@.is_generated,
    {
        self.is_generated
    }

    /// The languages the transcript can be translated into.
    pub fn translation_languages(&self) -> (r: &Vec<TranslationLanguage>)
        ensures
            languages_view(r@) == self@.translation_languages,
    {
        &self.translation_languages
    }

    /// The translation languages by code.
    pub fn translation_languages_map(&self) -> (r: &LanguageMap)
        ensures
            r@ == self@.translation_languages_map,
    {
        &self.translation_languages_map
    }

    /// A transcript with its translation map collected from
    /// `translation_languages`.
    pub fn new(
        video_id: String,
        url: String,
        language: String,
        language_code: String,
        is_generated: bool,
        translation_languages: Vec<TranslationLanguage>,
    ) -> (t: Self)
        ensures
            t@ == new_transcript_view(video_id@, url@, language@, language_code@, is_generated, languages_view(translation_languages@)),
    {
        let translation_languages_map = LanguageMap::from_languages(&translation_languages);
        Transcript {
            video_id,
            url,
            language,
            language_code,
            is_generated,
            translation_languages,
            translation_languages_map,
        }
    }

    /// Whether the transcript can be translated.
    pub fn is_translatable(&self) -> (r: bool)
        ensures
            r == (self@.translation_languages.len() > 0),
    {
        self.translation_languages.len() > 0
    }

    /// The translation of this transcript into `language_code`.
    pub fn translate(&self, language_code: &str) -> (res: Result<Self, CouldNotRetrieveTranscript>)
        ensures
            match (res, translate_spec(self@, language_code@)) {
                (Ok(t), Ok(v)) => t@ == v,
                (Err(e), Err(v)) => e@ == v,
                _ => false,
            },
    {
        if !self.is_translatable() {
            return Err(CouldNotRetrieveTranscript {
                video_id: self.video_id.clone(),
                reason: Some(CouldNotRetrieveTranscriptReason::NotTranslatable),
            });
        }
        match self.translation_languages_map.get(language_code) {
            None => Err(CouldNotRetrieveTranscript {
                video_id: self.video_id.clone(),
                reason: Some(CouldNotRetrieveTranscriptReason::TranslationLanguageNotAvailable),
            }),
            Some(language) => {
                let mut url = self.url.clone();
                push_str(&mut url, "&tlang=");
                push_str(&mut url, language_code);
                proof {
                    reveal_strlit("&tlang=");
                }
                let t = Transcript::new(
                    self.video_id.clone(),
                    url,
                    language,
                    owned(language_code),
                    true,
                    clone_languages(&self.translation_languages),
                );
                Ok(t)
            },
        }
    }

    /// The error that the response to the transcript's request gives: none
    /// for status 200, else a failed request naming the status (code and
    /// reason, e.g. `404 Not Found`).
    pub fn response_status_error(&self, status: u16, status_text: &str) -> (res: Option<CouldNotRetrieveTranscript>)
        ensures
            res is None <==> status == 200,
            res matches Some(e) ==> e@ == error_view(self@.video_id,
                ReasonView::YouTubeRequestFailed("YouTube returned status code: "@ + status_text@)),
    {
        if status == 200 {
            None
        } else {
            Some(CouldNotRetrieveTranscript {
                video_id: self.video_id.clone(),
                reason: Some(CouldNotRetrieveTranscriptReason::YouTubeRequestFailed(
                    concat("YouTube returned status code: ", status_text),
                )),
            })
        }
    }

    /// The snippets of the transcript's timed-text data, or
    /// `YouTubeDataUnparsable` when the XML does not parse.
    pub fn snippets_of_data(&self, parser: &TranscriptParser, data: &str) -> (res: Result<Vec<SnippetText>, CouldNotRetrieveTranscript>)
        ensures
            match xml_root_children(data@) {
                None => res matches Err(e) && e@ == error_view(self@.video_id, ReasonView::YouTubeDataUnparsable),
                Some(nodes) => res matches Ok(v)
                    && v@.map_values(|s: SnippetText| s@) == snippets_of(nodes, parser.keeps_formatting()),
            },
    {
        match parser.parse(data) {
            Ok(v) => Ok(v),
            Err(_) => Err(CouldNotRetrieveTranscript {
                video_id: self.video_id.clone(),
                reason: Some(CouldNotRetrieveTranscriptReason::YouTubeDataUnparsable),
            }),
        }
    }

    /// The text `Display` gives: code, name in brackets, and a mark when
    /// the transcript is translatable.
    pub fn to_display_string(&self) -> (s: String)
        ensures
            s@ == transcript_display(self@),
    {
        let mut s = self.language_code.clone();
        push_str(&mut s, " (");
        push_str(&mut s, self.language.as_str());
        push_str(&mut s, ")");
        if self.is_translatable() {
            push_str(&mut s, "[TRANSLATABLE]");
        }
        proof {
            reveal_strlit(" (");
            reveal_strlit(")");
            reveal_strlit("[TRANSLATABLE]");
        }
        assert(s@ =~= transcript_display(self@));
        s
    }
}

impl Clone for Transcript {
    fn clone(&self) -> (res: Self)
        ensures
            res@ == self@,
    {
        proof {
            use_type_invariant(self);
        }
        Transcript {
            video_id: self.video_id.clone(),
            url: self.url.clone(),
            language: self.language.clone(),
            language_code: self.language_code.clone(),
            is_generated: self.is_generated,
            translation_languages: clone_languages(&self.translation_languages),
            translation_languages_map: self.translation_languages_map.clone(),
        }
    }
}

/// A translation is generated, points at the source's URL with the target
/// language added, and keeps the source's translation languages, so it can
/// be translated again into any language the source could.
pub proof fn lemma_translation_keeps_languages(t: TranscriptView, code: Seq<char>, code2: Seq<char>)
    requires
        translate_spec(t, code) is Ok,
        t.translation_languages_map == language_map_of(t.translation_languages),
    ensures
        translate_spec(t, code)->Ok_0.is_generated,
        translate_spec(t, code)->Ok_0.url == t.url + "&tlang="@ + code,
        translate_spec(t, code)->Ok_0.language_code == code,
        translate_spec(t, code)->Ok_0.translation_languages == t.translation_languages,
        translate_spec(t, code)->Ok_0.translation_languages_map == t.translation_languages_map,
        (translate_spec(translate_spec(t, code)->Ok_0, code2) is Ok) == (translate_spec(t, code2) is Ok),
{
}

/// A transcript can be translated into a language exactly when it has
/// translation languages and one of them has that code.
pub proof fn lemma_translate_ok_iff(t: TranscriptView, code: Seq<char>)
    requires
        t.translation_languages_map == language_map_of(t.translation_languages),
    ensures
        translate_spec(t, code) is Ok <==> exists|i: int| 0 <= i < t.translation_languages.len()
            && (#[trigger] t.translation_languages[i]).language_code == code,
{
    lemma_language_map_dom(t.translation_languages, code);
}

proof fn lemma_language_map_dom(langs: Seq<LanguageView>, code: Seq<char>)
    ensures
        language_map_of(langs).dom().contains(code) <==> exists|i: int| 0 <= i < langs.len()
            && (#[trigger] langs[i]).language_code == code,
    decreases langs.len(),
{
    if langs.len() > 0 {
        lemma_language_map_dom(langs.drop_last(), code);
        if exists|i: int| 0 <= i < langs.len() && (#[trigger] langs[i]).language_code == code {
            let i = choose|i: int| 0 <= i < langs.len() && (#[trigger] langs[i]).language_code == code;
            if i < langs.len() - 1 {
                assert(langs.drop_last()[i] == langs[i]);
            }
        }
        if language_map_of(langs.drop_last()).dom().contains(code) {
            let i = choose|i: int| 0 <= i < langs.drop_last().len() && (#[trigger] langs.drop_last()[i]).language_code == code;
            assert(langs[i] == langs.drop_last()[i]);
        }
    }
}

} // verus!
