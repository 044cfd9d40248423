//! The transcripts that are available for a video, and the search among them.

use vstd::prelude::*;
use crate::errors::{CouldNotRetrieveTranscript, CouldNotRetrieveTranscriptReason, ErrorView, ReasonView};
use crate::json::{JsonModel, json_model, get_str, get_str2, get_array, get_bool, model_get, model_get_opt, model_str_opt, model_array_opt, model_bool_opt, models_of};
use crate::models::{TranslationLanguage, LanguageView, languages_view, strings_view, clone_languages};
use crate::text::{owned, push_str, str_eq};
use crate::transcript::{Transcript, TranscriptView, new_transcript_view, transcript_display};

verus! {

/// Entries of a transcript map: language code and transcript.
pub type EntriesView = Seq<(Seq<char>, TranscriptView)>;

/// The last index whose key is `k`.
pub open spec fn key_index(s: EntriesView, k: Seq<char>) -> Option<int>
    decreases s.len(),
{
    if s.len() == 0 {
        None
    } else if s.last().0 == k {
        Some(s.len() - 1)
    } else {
        key_index(s.drop_last(), k)
    }
}

/// The transcript stored under `k`.
pub open spec fn lookup(s: EntriesView, k: Seq<char>) -> Option<TranscriptView> {
    match key_index(s, k) {
        Some(i) => Some(s[i].1),
        None => None,
    }
}

/// The entries after storing `v` under `k`: an entry with that key is
/// replaced in place, else the pair is added at the end.
pub open spec fn insert_entry(s: EntriesView, k: Seq<char>, v: TranscriptView) -> EntriesView {
    match key_index(s, k) {
        Some(i) => s.update(i, (k, v)),
        None => s.push((k, v)),
    }
}

/// No key occurs twice.
pub open spec fn keys_unique(s: EntriesView) -> bool {
    forall|i: int, j: int| 0 <= i < s.len() && 0 <= j < s.len() && i != j ==> s[i].0 != s[j].0
}

proof fn lemma_key_index(s: EntriesView, k: Seq<char>)
    ensures
        key_index(s, k) matches Some(i) ==> 0 <= i < s.len() && s[i].0 == k
            && forall|j: int| i < j < s.len() ==> s[j].0 != k,
        key_index(s, k) is None ==> forall|j: int| 0 <= j < s.len() ==> s[j].0 != k,
    decreases s.len(),
{
    if s.len() > 0 && s.last().0 != k {
        lemma_key_index(s.drop_last(), k);
        assert(forall|j: int| 0 <= j < s.len() - 1 ==> s.drop_last()[j] == s[j]);
    }
}

/// Storing an entry keeps every key unique.
pub proof fn lemma_insert_keeps_keys_unique(s: EntriesView, k: Seq<char>, v: TranscriptView)
    requires
        keys_unique(s),
    ensures
        keys_unique(insert_entry(s, k, v)),
        lookup(insert_entry(s, k, v), k) == Some(v),
{
    lemma_key_index(s, k);
    let t = insert_entry(s, k, v);
    lemma_key_index(t, k);
    if key_index(s, k) is None {
        assert(t.drop_last() =~= s);
    } else {
        let i = key_index(s, k)->0;
        let i2 = key_index(t, k)->0;
        assert(t[i].0 == k);
        if i2 > i {
            assert(t[i2] == s[i2]);
        }
        assert(i2 == i);
    }
}

/// The content of a list of entries.
pub open spec fn entries_view(v: Seq<(String, Transcript)>) -> EntriesView {
    v.map_values(|e: (String, Transcript)| (e.0@, e.1@))
}

/// The last index of `entries` whose key is `key`.
fn index_in(entries: &Vec<(String, Transcript)>, key: &str) -> (r: Option<usize>)
    ensures
        match r {
            Some(i) => key_index(entries_view(entries@), key@) == Some(i as int),
            None => key_index(entries_view(entries@), key@) is None,
        },
{
    let ghost s = entries_view(entries@);
    assert(s.take(s.len() as int) =~= s);
    let mut i = entries.len();
    while i > 0
        invariant
            i <= entries@.len(),
            s == entries_view(entries@),
            key_index(s, key@) == key_index(s.take(i as int), key@),
        decreases i,
    {
        let ghost t = s.take(i as int);
        assert(t.drop_last() =~= s.take(i - 1));
        assert(t.last() == s[i - 1]);
        if str_eq(entries[i - 1].0.as_str(), key) {
            return Some(i - 1);
        }
        i = i - 1;
    }
    None
}

/// A map from language code to transcript. Each code has at most one entry;
/// entries keep the order in which their codes were first stored.
#[derive(Debug)]
pub struct TranscriptMap {
    entries: Vec<(String, Transcript)>,
}

impl View for TranscriptMap {
    type V = EntriesView;

    closed spec fn view(&self) -> EntriesView {
        entries_view(self.entries@)
    }
}

impl TranscriptMap {
    #[verifier::type_invariant]
    spec fn inv(&self) -> bool {
        keys_unique(self@)
    }

    /// An empty map.
    pub fn new() -> (m: Self)
        ensures
            m@ == Seq::<(Seq<char>, TranscriptView)>::empty(),
    {
        let m = TranscriptMap { entries: Vec::new() };
        assert(m@ =~= Seq::<(Seq<char>, TranscriptView)>::empty());
        m
    }

    /// The number of entries.
    pub fn len(&self) -> (n: usize)
        ensures
            n == self@.len(),
    {
        self.entries.len()
    }

    /// Every key occurs once.
    pub fn keys_are_unique(&self)
        ensures
            keys_unique(self@),
    {
        proof {
            use_type_invariant(self);
        }
    }

    /// The transcript stored under `key`.
    pub fn get(&self, key: &str) -> (res: Option<&Transcript>)
        ensures
            match res {
                Some(t) => lookup(self@, key@) == Some(t@),
                None => lookup(self@, key@) is None,
            },
    {
        let r = index_in(&self.entries, key);
        proof {
            lemma_key_index(self@, key@);
        }
        match r {
            Some(i) => Some(&self.entries[i].1),
            None => None,
        }
    }

    /// Stores `value` under `key`, replacing an earlier entry for it.
    pub fn insert(&mut self, key: String, value: Transcript)
        ensures
            final(self)@ == insert_entry(old(self)@, key@, value@),
    {
        proof {
            use_type_invariant(&*self);
            lemma_insert_keeps_keys_unique(self@, key@, value@);
        }
        let ghost kv = key@;
        let ghost vv = value@;
        let ghost old_view = self@;
        let idx = index_in(&self.entries, key.as_str());
        proof {
            lemma_key_index(old_view, kv);
        }
        let mut entries: Vec<(String, Transcript)> = Vec::new();
        std::mem::swap(&mut entries, &mut self.entries);
        assert(entries_view(entries@) == old_view);
        match idx {
            Some(i) => {
                entries.set(i, (key, value));
            },
            None => {
                entries.push((key, value));
            },
        }
        assert(entries_view(entries@) =~= insert_entry(old_view, kv, vv));
        self.entries = entries;
    }

    /// The transcripts, in entry order.
    pub fn values(&self) -> (res: Vec<Transcript>)
        ensures
            res@.len() == self@.len(),
            forall|i: int| 0 <= i < res@.len() ==> (#[trigger] res@[i])@ == self@[i].1,
    {
        let mut res: Vec<Transcript> = Vec::new();
        let mut i: usize = 0;
        while i < self.entries.len()
            invariant
                i <= self.entries@.len(),
                res@.len() == i,
                forall|j: int| 0 <= j < i ==> (#[trigger] res@[j])@ == self@[j].1,
            decreases self.entries.len() - i,
        {
            res.push(self.entries[i].1.clone());
            i = i + 1;
        }
        res
    }
}

impl Clone for TranscriptMap {
    fn clone(&self) -> (res: Self)
        ensures
            res@ == self@,
    {
        proof {
            use_type_invariant(self);
        }
        let mut entries: Vec<(String, Transcript)> = Vec::new();
        let mut i: usize = 0;
        while i < self.entries.len()
            invariant
                i <= self.entries@.len(),
                entries@.len() == i,
                forall|j: int| 0 <= j < i ==> (#[trigger] entries@[j]).0@ == self.entries@[j].0@
                    && entries@[j].1@ == self.entries@[j].1@,
            decreases self.entries.len() - i,
        {
            let e = &self.entries[i];
            entries.push((e.0.clone(), e.1.clone()));
            i = i + 1;
        }
        assert(entries_view(entries@) =~= self@);
        TranscriptMap { entries }
    }
}

/// The transcripts that are available for a video.
#[derive(Debug)]
pub struct TranscriptList {
    pub video_id: String,
    pub manually_created_transcripts: TranscriptMap,
    pub generated_transcripts: TranscriptMap,
    pub translation_languages: Vec<TranslationLanguage>,
}

/// The content of a `TranscriptList`.
pub struct TranscriptListView {
    pub video_id: Seq<char>,
    pub manually_created_transcripts: EntriesView,
    pub generated_transcripts: EntriesView,
    pub translation_languages: Seq<LanguageView>,
}

impl View for TranscriptList {
    type V = TranscriptListView;

    open spec fn view(&self) -> TranscriptListView {
        TranscriptListView {
            video_id: self.video_id@,
            manually_created_transcripts: self.manually_created_transcripts@,
            generated_transcripts: self.generated_transcripts@,
            translation_languages: languages_view(self.translation_languages@),
        }
    }
}

impl Clone for TranscriptList {
    fn clone(&self) -> (res: Self)
        ensures
            res@ == self@,
    {
        TranscriptList {
            video_id: self.video_id.clone(),
            manually_created_transcripts: self.manually_created_transcripts.clone(),
            generated_transcripts: self.generated_transcripts.clone(),
            translation_languages: clone_languages(&self.translation_languages),
        }
    }
}

/// The first map, in order, that holds a transcript for `code`, from index `k` on.
pub open spec fn first_in_maps(code: Seq<char>, maps: Seq<EntriesView>, k: int) -> Option<TranscriptView>
    decreases maps.len() - k,
{
    if k < 0 || k >= maps.len() {
        None
    } else {
        match lookup(maps[k], code) {
            Some(t) => Some(t),
            None => first_in_maps(code, maps, k + 1),
        }
    }
}

/// The transcript for the first code, in order of preference from index `i`
/// on, that some map holds; for one code the maps are asked in order.
pub open spec fn find_in_maps(codes: Seq<Seq<char>>, maps: Seq<EntriesView>, i: int) -> Option<TranscriptView>
    decreases codes.len() - i,
{
    if i < 0 || i >= codes.len() {
        None
    } else {
        match first_in_maps(codes[i], maps, 0) {
            Some(t) => Some(t),
            None => find_in_maps(codes, maps, i + 1),
        }
    }
}

/// The contents of the requested language codes.
pub open spec fn codes_view(codes: Seq<&str>) -> Seq<Seq<char>> {
    codes.map_values(|c: &str| c@)
}

/// What a search among `maps` answers.
pub open spec fn find_spec(l: TranscriptListView, codes: Seq<Seq<char>>, maps: Seq<EntriesView>) -> Result<TranscriptView, ErrorView> {
    match find_in_maps(codes, maps, 0) {
        Some(t) => Ok(t),
        None => Err(ErrorView {
            video_id: l.video_id,
            reason: Some(ReasonView::NoTranscriptFound { requested_language_codes: codes, transcript_data: l }),
        }),
    }
}

/// The result of a search holds what `find_spec` says.
pub open spec fn found_as(res: Result<Transcript, CouldNotRetrieveTranscript>, spec: Result<TranscriptView, ErrorView>) -> bool {
    match (res, spec) {
        (Ok(t), Ok(v)) => t@ == v,
        (Err(e), Err(v)) => e@ == v,
        _ => false,
    }
}

/// The text of one list of transcripts, each as `Display` gives it, joined by ", ".
pub open spec fn join_displays(ts: Seq<TranscriptView>) -> Seq<char>
    decreases ts.len(),
{
    if ts.len() == 0 {
        Seq::empty()
    } else if ts.len() == 1 {
        transcript_display(ts[0])
    } else {
        join_displays(ts.drop_last()) + ", "@ + transcript_display(ts.last())
    }
}

/// The transcripts of a list in the order that iteration gives: the manually
/// created ones, then the generated ones.
pub open spec fn all_transcripts(l: TranscriptListView) -> Seq<TranscriptView> {
    l.manually_created_transcripts.map_values(|e: (Seq<char>, TranscriptView)| e.1)
        + l.generated_transcripts.map_values(|e: (Seq<char>, TranscriptView)| e.1)
}

/// The text `Display` gives for a list.
pub open spec fn transcript_list_display(l: TranscriptListView) -> Seq<char> {
    if all_transcripts(l).len() == 0 {
        "No transcripts found"@
    } else {
        "Available transcripts: "@ + join_displays(all_transcripts(l))
    }
}

/// The elements of an array found by a lookup; nothing when the lookup
/// fails or finds something else.
pub open spec fn array_or_empty(v: Option<Seq<JsonModel>>) -> Seq<JsonModel> {
    match v {
        Some(a) => a,
        None => Seq::empty(),
    }
}

/// A translation language entry: its name under `languageName.simpleText`
/// and its code under `languageCode`, both strings.
pub open spec fn parse_language(item: JsonModel) -> Option<LanguageView> {
    let name = model_str_opt(model_get_opt(model_get(item, "languageName"@), "simpleText"@));
    let code = model_str_opt(model_get(item, "languageCode"@));
    match (name, code) {
        (Some(n), Some(c)) => Some(LanguageView { language: n, language_code: c }),
        _ => None,
    }
}

/// The languages of the entries that are well formed, in order.
pub open spec fn parse_languages(items: Seq<JsonModel>) -> Seq<LanguageView>
    decreases items.len(),
{
    if items.len() == 0 {
        Seq::empty()
    } else {
        parse_languages(items.drop_last()) + match parse_language(items.last()) {
            Some(l) => seq![l],
            None => Seq::empty(),
        }
    }
}

/// What a caption track entry describes: whether it is generated
/// (`kind` is "asr"), its language code, URL, name and translatability.
pub struct CaptionTrackView {
    pub is_generated: bool,
    pub language_code: Seq<char>,
    pub base_url: Seq<char>,
    pub name: Seq<char>,
    pub is_translatable: bool,
}

/// A caption track entry; `None` when its code, URL or name is missing.
pub open spec fn parse_caption_track(item: JsonModel) -> Option<CaptionTrackView> {
    let code = model_str_opt(model_get(item, "languageCode"@));
    let url = model_str_opt(model_get(item, "baseUrl"@));
    let name = model_str_opt(model_get_opt(model_get(item, "name"@), "simpleText"@));
    match (code, url, name) {
        (Some(c), Some(u), Some(n)) => Some(CaptionTrackView {
            is_generated: model_str_opt(model_get(item, "kind"@)) == Some("asr"@),
            language_code: c,
            base_url: u,
            name: n,
            is_translatable: model_bool_opt(model_get(item, "isTranslatable"@)) == Some(true),
        }),
        _ => None,
    }
}

/// The manually created and the generated transcripts that the caption
/// tracks give, each stored under its language code, later tracks replacing
/// earlier ones with the same code.
pub open spec fn build_entries(items: Seq<JsonModel>, video_id: Seq<char>, langs: Seq<LanguageView>) -> (EntriesView, EntriesView)
    decreases items.len(),
{
    if items.len() == 0 {
        (Seq::empty(), Seq::empty())
    } else {
        let (m, g) = build_entries(items.drop_last(), video_id, langs);
        match parse_caption_track(items.last()) {
            None => (m, g),
            Some(c) => {
                let t = new_transcript_view(
                    video_id,
                    c.base_url,
                    c.name,
                    c.language_code,
                    c.is_generated,
                    if c.is_translatable { langs } else { Seq::empty() },
                );
                if c.is_generated {
                    (m, insert_entry(g, c.language_code, t))
                } else {
                    (insert_entry(m, c.language_code, t), g)
                }
            },
        }
    }
}

/// The list that `build` makes of a video's captions data.
pub open spec fn build_spec(video_id: Seq<char>, captions: JsonModel) -> TranscriptListView {
    let langs = parse_languages(array_or_empty(model_array_opt(model_get(captions, "translationLanguages"@))));
    let tracks = array_or_empty(model_array_opt(model_get(captions, "captionTracks"@)));
    let (m, g) = build_entries(tracks, video_id, langs);
    TranscriptListView {
        video_id,
        manually_created_transcripts: m,
        generated_transcripts: g,
        translation_languages: langs,
    }
}

/// Reads one translation language entry.
fn read_language(item: &serde_json::Value) -> (res: Option<TranslationLanguage>)
    ensures
        match res {
            Some(l) => parse_language(json_model(*item)) == Some(l@),
            None => parse_language(json_model(*item)) is None,
        },
{
    let name = get_str2(item, "languageName", "simpleText");
    let code = get_str(item, "languageCode");
    match (name, code) {
        (Some(n), Some(c)) => Some(TranslationLanguage { language: owned(n), language_code: owned(c) }),
        _ => None,
    }
}

/// Reads one caption track entry.
fn read_caption_track(item: &serde_json::Value) -> (res: Option<(bool, String, String, String, bool)>)
    ensures
        match res {
            Some((g, c, u, n, t)) => parse_caption_track(json_model(*item)) == Some(CaptionTrackView {
                is_generated: g, language_code: c@, base_url: u@, name: n@, is_translatable: t }),
            None => parse_caption_track(json_model(*item)) is None,
        },
{
    let is_asr = match get_str(item, "kind") {
        Some(k) => str_eq(k, "asr"),
        None => false,
    };
    let code = get_str(item, "languageCode");
    let url = get_str(item, "baseUrl");
    let name = get_str2(item, "name", "simpleText");
    let is_translatable = match get_bool(item, "isTranslatable") {
        Some(b) => b,
        None => false,
    };
    match (code, url, name) {
        (Some(c), Some(u), Some(n)) => Some((is_asr, owned(c), owned(u), owned(n), is_translatable)),
        _ => None,
    }
}

impl TranscriptList {
    /// The list of transcripts that a video's captions data
    /// (`playerCaptionsTracklistRenderer`) describes. Malformed entries are
    /// skipped; it always succeeds.
    pub fn build(video_id: String, captions: &serde_json::Value) -> (res: Result<Self, CouldNotRetrieveTranscript>)
        ensures
            res matches Ok(l) && l@ == build_spec(video_id@, json_model(*captions)),
    {
        let empty: Vec<serde_json::Value> = Vec::new();
        let lang_items = match get_array(captions, "translationLanguages") {
            Some(a) => a,
            None => &empty,
        };
        let ghost litems = models_of(lang_items@);
        assert(litems == array_or_empty(model_array_opt(model_get(json_model(*captions), "translationLanguages"@))));
        let mut translation_languages: Vec<TranslationLanguage> = Vec::new();
        let mut i: usize = 0;
        while i < lang_items.len()
            invariant
                i <= lang_items@.len(),
                litems == models_of(lang_items@),
                languages_view(translation_languages@) == parse_languages(litems.take(i as int)),
            decreases lang_items.len() - i,
        {
            let l = read_language(&lang_items[i]);
            proof {
                let t = litems.take(i + 1);
                assert(t.drop_last() =~= litems.take(i as int));
                assert(t.last() == json_model(lang_items@[i as int]));
            }
            match l {
                Some(l) => {
                    translation_languages.push(l);
                },
                None => {},
            }
            i = i + 1;
            assert(languages_view(translation_languages@) =~= parse_languages(litems.take(i as int)));
        }
        assert(litems.take(lang_items@.len() as int) =~= litems);
        let ghost langs = languages_view(translation_languages@);

        let tracks = match get_array(captions, "captionTracks") {
            Some(a) => a,
            None => &empty,
        };
        let ghost titems = models_of(tracks@);
        assert(titems == array_or_empty(model_array_opt(model_get(json_model(*captions), "captionTracks"@))));
        let mut manual = TranscriptMap::new();
        let mut generated = TranscriptMap::new();
        let mut j: usize = 0;
        while j < tracks.len()
            invariant
                j <= tracks@.len(),
                titems == models_of(tracks@),
                langs == languages_view(translation_languages@),
                (manual@, generated@) == build_entries(titems.take(j as int), video_id@, langs),
            decreases tracks.len() - j,
        {
            let c = read_caption_track(&tracks[j]);
            proof {
                let t = titems.take(j + 1);
                assert(t.drop_last() =~= titems.take(j as int));
                assert(t.last() == json_model(tracks@[j as int]));
            }
            match c {
                Some((is_asr, code, url, name, is_translatable)) => {
                    let tl = if is_translatable {
                        clone_languages(&translation_languages)
                    } else {
                        Vec::new()
                    };
                    assert(languages_view(Seq::<TranslationLanguage>::empty()) =~= Seq::<LanguageView>::empty());
                    let transcript = Transcript::new(video_id.clone(), url, name, code.clone(), is_asr, tl);
                    if is_asr {
                        generated.insert(code, transcript);
                    } else {
                        manual.insert(code, transcript);
                    }
                },
                None => {},
            }
            j = j + 1;
        }
        assert(titems.take(tracks@.len() as int) =~= titems);
        Ok(TranscriptList::new(video_id, manual, generated, translation_languages))
    }

    pub fn new(
        video_id: String,
        manually_created_transcripts: TranscriptMap,
        generated_transcripts: TranscriptMap,
        translation_languages: Vec<TranslationLanguage>,
    ) -> (l: Self)
        ensures
            l.video_id@ == video_id@,
            l.manually_created_transcripts@ == manually_created_transcripts@,
            l.generated_transcripts@ == generated_transcripts@,
            languages_view(l.translation_languages@) == languages_view(translation_languages@),
    {
        TranscriptList { video_id, manually_created_transcripts, generated_transcripts, translation_languages }
    }

    /// A transcript in one of `language_codes`, taken in order of preference;
    /// for one code a manually created transcript comes before a generated one.
    pub fn find_transcript(&self, language_codes: &[&str]) -> (res: Result<Transcript, CouldNotRetrieveTranscript>)
        ensures
            found_as(res, find_spec(self@, codes_view(language_codes@),
                seq![self.manually_created_transcripts@, self.generated_transcripts@])),
    {
        let maps = vec![&self.manually_created_transcripts, &self.generated_transcripts];
        assert(maps@.map_values(|m: &TranscriptMap| m@) =~= seq![self.manually_created_transcripts@, self.generated_transcripts@]);
        self.find_transcript_in_maps(language_codes, &maps)
    }

    /// A manually created transcript in one of `language_codes`.
    pub fn find_manually_created_transcript(&self, language_codes: &[&str]) -> (res: Result<Transcript, CouldNotRetrieveTranscript>)
        ensures
            found_as(res, find_spec(self@, codes_view(language_codes@), seq![self.manually_created_transcripts@])),
    {
        let maps = vec![&self.manually_created_transcripts];
        assert(maps@.map_values(|m: &TranscriptMap| m@) =~= seq![self.manually_created_transcripts@]);
        self.find_transcript_in_maps(language_codes, &maps)
    }

    /// A generated transcript in one of `language_codes`.
    pub fn find_generated_transcript(&self, language_codes: &[&str]) -> (res: Result<Transcript, CouldNotRetrieveTranscript>)
        ensures
            found_as(res, find_spec(self@, codes_view(language_codes@), seq![self.generated_transcripts@])),
    {
        let maps = vec![&self.generated_transcripts];
        assert(maps@.map_values(|m: &TranscriptMap| m@) =~= seq![self.generated_transcripts@]);
        self.find_transcript_in_maps(language_codes, &maps)
    }

    fn find_transcript_in_maps(&self, language_codes: &[&str], transcript_maps: &Vec<&TranscriptMap>) -> (res: Result<Transcript, CouldNotRetrieveTranscript>)
        ensures
            found_as(res, find_spec(self@, codes_view(language_codes@),
                transcript_maps@.map_values(|m: &TranscriptMap| m@))),
    {
        let ghost codes = codes_view(language_codes@);
        let ghost maps = transcript_maps@.map_values(|m: &TranscriptMap| m@);
        let mut i: usize = 0;
        while i < language_codes.len()
            invariant
                i <= language_codes@.len(),
                codes == codes_view(language_codes@),
                maps == transcript_maps@.map_values(|m: &TranscriptMap| m@),
                find_in_maps(codes, maps, 0) == find_in_maps(codes, maps, i as int),
            decreases language_codes.len() - i,
        {
            let code = language_codes[i];
            assert(code@ == codes[i as int]);
            let mut k: usize = 0;
            while k < transcript_maps.len()
                invariant
                    k <= transcript_maps@.len(),
                    i < codes.len(),
                    code@ == codes[i as int],
                    maps == transcript_maps@.map_values(|m: &TranscriptMap| m@),
                    first_in_maps(codes[i as int], maps, 0) == first_in_maps(codes[i as int], maps, k as int),
                    codes == codes_view(language_codes@),
                    find_in_maps(codes, maps, 0) == find_in_maps(codes, maps, i as int),
                decreases transcript_maps.len() - k,
            {
                let found = transcript_maps[k].get(code);
                assert(maps[k as int] == transcript_maps@[k as int]@);
                if let Some(t) = found {
                    assert(first_in_maps(codes[i as int], maps, k as int) == Some(t@));
                    assert(find_in_maps(codes, maps, i as int) == Some(t@));
                    return Ok(t.clone());
                }
                assert(first_in_maps(codes[i as int], maps, k as int) == first_in_maps(codes[i as int], maps, k + 1));
                k = k + 1;
            }
            assert(first_in_maps(codes[i as int], maps, k as int) is None);
            assert(find_in_maps(codes, maps, i as int) == find_in_maps(codes, maps, i + 1));
            i = i + 1;
        }
        let mut requested: Vec<String> = Vec::new();
        let mut j: usize = 0;
        while j < language_codes.len()
            invariant
                j <= language_codes@.len(),
                codes == codes_view(language_codes@),
                requested@.len() == j,
                forall|m: int| 0 <= m < j ==> (#[trigger] requested@[m])@ == codes[m],
            decreases language_codes.len() - j,
        {
            requested.push(owned(language_codes[j]));
            j = j + 1;
        }
        assert(strings_view(requested@) =~= codes);
        Err(CouldNotRetrieveTranscript {
            video_id: self.video_id.clone(),
            reason: Some(CouldNotRetrieveTranscriptReason::NoTranscriptFound {
                requested_language_codes: requested,
                transcript_data: self.clone(),
            }),
        })
    }

    /// All transcripts, as iteration over the list gives them: the manually
    /// created ones, then the generated ones.
    pub fn transcripts(&self) -> (res: Vec<Transcript>)
        ensures
            res@.map_values(|t: Transcript| t@) == all_transcripts(self@),
    {
        let mut res = self.manually_created_transcripts.values();
        let mut more = self.generated_transcripts.values();
        res.append(&mut more);
        assert(res@.map_values(|t: Transcript| t@) =~= all_transcripts(self@));
        res
    }

    /// The text `Display` gives for the list.
    pub fn to_display_string(&self) -> (s: String)
        ensures
            s@ == transcript_list_display(self@),
    {
        let all = self.transcripts();
        let ghost ts = all@.map_values(|t: Transcript| t@);
        if all.len() == 0 {
            return String::from_str("No transcripts found");
        }
        let mut s = String::from_str("Available transcripts: ");
        let mut i: usize = 0;
        while i < all.len()
            invariant
                i <= all@.len(),
                ts == all@.map_values(|t: Transcript| t@),
                s@ == "Available transcripts: "@ + join_displays(ts.take(i as int)),
            decreases all.len() - i,
        {
            if i > 0 {
                push_str(&mut s, ", ");
            }
            let d = all[i].to_display_string();
            push_str(&mut s, d.as_str());
            proof {
                reveal_strlit(", ");
                let t = ts.take(i + 1);
                assert(t.drop_last() =~= ts.take(i as int));
                assert(t.last() == ts[i as int]);
                if i == 0 {
                    assert(ts.take(0) =~= Seq::<TranscriptView>::empty());
                }
            }
            i = i + 1;
            assert(s@ =~= "Available transcripts: "@ + join_displays(ts.take(i as int)));
        }
        assert(ts.take(all@.len() as int) =~= ts);
        s
    }
}

/// Storing under one code leaves what is stored under the others as it was.
pub proof fn lemma_insert_keeps_other_keys(s: EntriesView, k: Seq<char>, v: TranscriptView, k2: Seq<char>)
    requires
        k2 != k,
    ensures
        lookup(insert_entry(s, k, v), k2) == lookup(s, k2),
    decreases s.len(),
{
    lemma_key_index(s, k);
    lemma_key_index(s, k2);
    let t = insert_entry(s, k, v);
    lemma_key_index(t, k2);
    match key_index(s, k2) {
        Some(j) => {
            let j2 = key_index(t, k2)->0;
            assert(t[j].0 == k2);
            if j2 > j {
                if j2 < s.len() {
                    assert(t[j2] == s[j2]);
                }
            }
            if j2 < j {
                assert(t[j] == s[j]);
            }
            assert(j2 == j);
        },
        None => {
            if let Some(j2) = key_index(t, k2) {
                if j2 < s.len() {
                    assert(t[j2] == s[j2]);
                }
            }
        },
    }
}

/// A search finds a transcript exactly when one of the requested codes has
/// one in one of the maps; what it finds is stored under a requested code.
pub proof fn lemma_find_succeeds_iff_stored(codes: Seq<Seq<char>>, maps: Seq<EntriesView>, i: int)
    requires
        0 <= i,
    ensures
        find_in_maps(codes, maps, i) is Some <==> exists|a: int, b: int|
            i <= a < codes.len() && 0 <= b < maps.len() && #[trigger] lookup(maps[b], codes[a]) is Some,
        find_in_maps(codes, maps, i) matches Some(t) ==> exists|a: int, b: int|
            i <= a < codes.len() && 0 <= b < maps.len() && #[trigger] lookup(maps[b], codes[a]) == Some(t),
    decreases codes.len() - i,
{
    if i < codes.len() {
        lemma_first_in_maps(codes[i], maps, 0);
        lemma_find_succeeds_iff_stored(codes, maps, i + 1);
        if exists|a: int, b: int| i <= a < codes.len() && 0 <= b < maps.len() && #[trigger] lookup(maps[b], codes[a]) is Some {
            let (a, b) = choose|a: int, b: int| i <= a < codes.len() && 0 <= b < maps.len() && #[trigger] lookup(maps[b], codes[a]) is Some;
            if a == i {
                assert(first_in_maps(codes[i], maps, 0) is Some);
            }
        }
    }
}

proof fn lemma_first_in_maps(code: Seq<char>, maps: Seq<EntriesView>, k: int)
    requires
        0 <= k,
    ensures
        first_in_maps(code, maps, k) is Some <==> exists|b: int| k <= b < maps.len() && #[trigger] lookup(maps[b], code) is Some,
        first_in_maps(code, maps, k) matches Some(t) ==> exists|b: int| k <= b < maps.len() && #[trigger] lookup(maps[b], code) == Some(t),
    decreases maps.len() - k,
{
    if k < maps.len() {
        lemma_first_in_maps(code, maps, k + 1);
    }
}

/// Every transcript stored in entries that `build_entries` makes is stored
/// under its own language code, belongs to the video, and is generated
/// exactly when it is in the generated list.
pub open spec fn entries_well_stored(e: EntriesView, video_id: Seq<char>, generated: bool) -> bool {
    forall|i: int| 0 <= i < e.len() ==> {
        &&& (#[trigger] e[i]).0 == e[i].1.language_code
        &&& e[i].1.video_id == video_id
        &&& e[i].1.is_generated == generated
    }
}

proof fn lemma_insert_well_stored(e: EntriesView, video_id: Seq<char>, generated: bool, t: TranscriptView)
    requires
        entries_well_stored(e, video_id, generated),
        t.video_id == video_id,
        t.is_generated == generated,
    ensures
        entries_well_stored(insert_entry(e, t.language_code, t), video_id, generated),
{
    lemma_key_index(e, t.language_code);
}

/// In a list that `build` makes, every transcript is stored under its own
/// language code and belongs to the video; the generated ones are in the
/// generated map and the others in the manually created map.
pub proof fn lemma_build_well_stored(video_id: Seq<char>, captions: JsonModel)
    ensures
        entries_well_stored(build_spec(video_id, captions).manually_created_transcripts, video_id, false),
        entries_well_stored(build_spec(video_id, captions).generated_transcripts, video_id, true),
{
    let langs = parse_languages(array_or_empty(model_array_opt(model_get(captions, "translationLanguages"@))));
    let tracks = array_or_empty(model_array_opt(model_get(captions, "captionTracks"@)));
    lemma_build_entries_well_stored(tracks, video_id, langs);
}

proof fn lemma_build_entries_well_stored(items: Seq<JsonModel>, video_id: Seq<char>, langs: Seq<LanguageView>)
    ensures
        entries_well_stored(build_entries(items, video_id, langs).0, video_id, false),
        entries_well_stored(build_entries(items, video_id, langs).1, video_id, true),
    decreases items.len(),
{
    if items.len() > 0 {
        lemma_build_entries_well_stored(items.drop_last(), video_id, langs);
        let (m, g) = build_entries(items.drop_last(), video_id, langs);
        if let Some(c) = parse_caption_track(items.last()) {
            let t = new_transcript_view(
                video_id,
                c.base_url,
                c.name,
                c.language_code,
                c.is_generated,
                if c.is_translatable { langs } else { Seq::empty() },
            );
            if c.is_generated {
                lemma_insert_well_stored(g, video_id, true, t);
            } else {
                lemma_insert_well_stored(m, video_id, false, t);
            }
        }
    }
}


/// Storing under a code makes it hold what was stored.
proof fn lemma_lookup_insert_same(s: EntriesView, k: Seq<char>, v: TranscriptView)
    ensures
        lookup(insert_entry(s, k, v), k) == Some(v),
{
    lemma_key_index(s, k);
    let t = insert_entry(s, k, v);
    lemma_key_index(t, k);
    match key_index(s, k) {
        Some(i) => {
            assert(t[i].0 == k);
            let i2 = key_index(t, k)->0;
            if i2 > i {
                assert(t[i2] == s[i2]);
            }
            if i2 < i {
                assert(t[i].0 == k);
            }
        },
        None => {
            assert(t[s.len() as int].0 == k);
            let i2 = key_index(t, k)->0;
            if i2 < s.len() {
                assert(t[i2] == s[i2]);
            }
        },
    }
}

/// The stored transcript of the `i`-th track after the first `n` tracks.
proof fn lemma_track_stored(items: Seq<JsonModel>, video_id: Seq<char>, langs: Seq<LanguageView>, i: int, n: int)
    requires
        0 <= i < n <= items.len(),
        parse_caption_track(items[i]) is Some,
        forall|j: int| i < j < n ==> ((#[trigger] parse_caption_track(items[j])) matches Some(d)
            ==> !(d.language_code == parse_caption_track(items[i])->0.language_code
                && d.is_generated == parse_caption_track(items[i])->0.is_generated)),
    ensures
        ({
            let c = parse_caption_track(items[i])->0;
            let (m, g) = build_entries(items.take(n), video_id, langs);
            lookup(if c.is_generated { g } else { m }, c.language_code) == Some(new_transcript_view(
                video_id,
                c.base_url,
                c.name,
                c.language_code,
                c.is_generated,
                if c.is_translatable { langs } else { Seq::empty() },
            ))
        }),
    decreases n,
{
    let c = parse_caption_track(items[i])->0;
    let t = items.take(n);
    assert(t.drop_last() =~= items.take(n - 1));
    assert(t.last() == items[n - 1]);
    if n - 1 == i {
        let (m, g) = build_entries(items.take(n - 1), video_id, langs);
        let tv = new_transcript_view(video_id, c.base_url, c.name, c.language_code, c.is_generated,
            if c.is_translatable { langs } else { Seq::empty() });
        if c.is_generated {
            lemma_lookup_insert_same(g, c.language_code, tv);
        } else {
            lemma_lookup_insert_same(m, c.language_code, tv);
        }
    } else {
        lemma_track_stored(items, video_id, langs, i, n - 1);
        let (m, g) = build_entries(items.take(n - 1), video_id, langs);
        if let Some(d) = parse_caption_track(items[n - 1]) {
            let tv = new_transcript_view(video_id, d.base_url, d.name, d.language_code, d.is_generated,
                if d.is_translatable { langs } else { Seq::empty() });
            if d.is_generated == c.is_generated {
                assert(d.language_code != c.language_code);
                if d.is_generated {
                    lemma_insert_keeps_other_keys(g, d.language_code, tv, c.language_code);
                } else {
                    lemma_insert_keeps_other_keys(m, d.language_code, tv, c.language_code);
                }
            }
        }
    }
}

/// The caption track entries of captions data.
pub open spec fn caption_tracks(captions: JsonModel) -> Seq<JsonModel> {
    array_or_empty(model_array_opt(model_get(captions, "captionTracks"@)))
}

/// Whether a caption track entry's `kind` is `asr`.
pub open spec fn track_is_asr(track: JsonModel) -> bool {
    model_str_opt(model_get(track, "kind"@)) == Some("asr"@)
}

/// A caption track that says it is translatable (`isTranslatable` is
/// `true`) gives a transcript with all the translation languages of the
/// captions data, whether it is generated (`kind` is `asr`) or manually
/// created; one that does not gives a transcript with none. This holds of
/// the transcript stored for the track's code in its map when no later
/// track has the same code and kind.
pub proof fn lemma_translatable_track_gets_languages(video_id: Seq<char>, captions: JsonModel, i: int)
    requires
        0 <= i < caption_tracks(captions).len(),
        parse_caption_track(caption_tracks(captions)[i]) is Some,
        forall|j: int| i < j < caption_tracks(captions).len()
            && (#[trigger] parse_caption_track(caption_tracks(captions)[j])) is Some ==> !(
                model_str_opt(model_get(caption_tracks(captions)[j], "languageCode"@))
                    == model_str_opt(model_get(caption_tracks(captions)[i], "languageCode"@))
                && track_is_asr(caption_tracks(captions)[j]) == track_is_asr(caption_tracks(captions)[i])),
    ensures
        ({
            let track = caption_tracks(captions)[i];
            let l = build_spec(video_id, captions);
            let generated = track_is_asr(track);
            let code = model_str_opt(model_get(track, "languageCode"@))->0;
            lookup(if generated { l.generated_transcripts } else { l.manually_created_transcripts }, code) matches Some(t)
                && t.translation_languages == (if model_bool_opt(model_get(track, "isTranslatable"@)) == Some(true) {
                    l.translation_languages
                } else {
                    Seq::empty()
                })
                && t.is_generated == generated
                && t.url == model_str_opt(model_get(track, "baseUrl"@))->0
        }),
{
    let langs = parse_languages(array_or_empty(model_array_opt(model_get(captions, "translationLanguages"@))));
    let tracks = caption_tracks(captions);
    assert forall|j: int| i < j < tracks.len() implies ((#[trigger] parse_caption_track(tracks[j])) matches Some(d)
        ==> !(d.language_code == parse_caption_track(tracks[i])->0.language_code
            && d.is_generated == parse_caption_track(tracks[i])->0.is_generated)) by {}
    lemma_track_stored(tracks, video_id, langs, i, tracks.len() as int);
    assert(tracks.take(tracks.len() as int) =~= tracks);
}

} // verus!
