//! Plain data records: translation languages, video details and thumbnails.

use vstd::prelude::*;

verus! {

/// A language that a transcript can be translated into.
#[derive(Debug)]
pub struct TranslationLanguage {
    /// The human-readable language name (e.g. "English").
    pub language: String,
    /// The language code YouTube uses (e.g. "en").
    pub language_code: String,
}

/// The content of a `TranslationLanguage`.
pub struct LanguageView {
    pub language: Seq<char>,
    pub language_code: Seq<char>,
}

impl View for TranslationLanguage {
    type V = LanguageView;

    open spec fn view(&self) -> LanguageView {
        LanguageView { language: self.language@, language_code: self.language_code@ }
    }
}

impl Clone for TranslationLanguage {
    fn clone(&self) -> (res: Self)
        ensures
            res@ == self@,
    {
        TranslationLanguage { language: self.language.clone(), language_code: self.language_code.clone() }
    }
}

/// The contents of a sequence of languages.
pub open spec fn languages_view(v: Seq<TranslationLanguage>) -> Seq<LanguageView> {
    v.map_values(|l: TranslationLanguage| l@)
}

/// The contents of a sequence of strings.
pub open spec fn strings_view(v: Seq<String>) -> Seq<Seq<char>> {
    v.map_values(|s: String| s@)
}

/// A copy of a list of languages.
pub fn clone_languages(v: &Vec<TranslationLanguage>) -> (res: Vec<TranslationLanguage>)
    ensures
        languages_view(res@) == languages_view(v@),
{
    let mut res: Vec<TranslationLanguage> = Vec::new();
    let mut i: usize = 0;
    while i < v.len()
        invariant
            i <= v@.len(),
            res@.len() == i,
            forall|j: int| 0 <= j < i ==> (#[trigger] res@[j])@ == v@[j]@,
        decreases v.len() - i,
    {
        let c = v[i].clone();
        assert(c@ == v@[i as int]@);
        res.push(c);
        i = i + 1;
    }
    assert(languages_view(res@) =~= languages_view(v@));
    res
}

/// A copy of a list of strings.
pub fn clone_strings(v: &Vec<String>) -> (res: Vec<String>)
    ensures
        strings_view(res@) == strings_view(v@),
{
    let mut res: Vec<String> = Vec::new();
    let mut i: usize = 0;
    while i < v.len()
        invariant
            i <= v@.len(),
            res@.len() == i,
            forall|j: int| 0 <= j < i ==> (#[trigger] res@[j])@ == v@[j]@,
        decreases v.len() - i,
    {
        let c = v[i].clone();
        assert(c@ == v@[i as int]@);
        res.push(c);
        i = i + 1;
    }
    assert(strings_view(res@) =~= strings_view(v@));
    res
}

/// One thumbnail image of a video.
#[derive(Debug, Clone)]
pub struct VideoThumbnail {
    /// Direct URL to the image.
    pub url: String,
    /// Width in pixels.
    pub width: u32,
    /// Height in pixels.
    pub height: u32,
}

/// The content of a `VideoThumbnail`.
pub struct ThumbnailView {
    pub url: Seq<char>,
    pub width: u32,
    pub height: u32,
}

impl View for VideoThumbnail {
    type V = ThumbnailView;

    open spec fn view(&self) -> ThumbnailView {
        ThumbnailView { url: self.url@, width: self.width, height: self.height }
    }
}

/// Metadata about a video.
#[derive(Debug, Clone)]
pub struct VideoDetails {
    pub video_id: String,
    pub title: String,
    pub length_seconds: u32,
    pub keywords: Option<Vec<String>>,
    pub channel_id: String,
    pub short_description: String,
    pub view_count: String,
    pub author: String,
    pub thumbnails: Vec<VideoThumbnail>,
    pub is_live_content: bool,
}

/// The content of a `VideoDetails`.
pub struct VideoDetailsView {
    pub video_id: Seq<char>,
    pub title: Seq<char>,
    pub length_seconds: u32,
    pub keywords: Option<Seq<Seq<char>>>,
    pub channel_id: Seq<char>,
    pub short_description: Seq<char>,
    pub view_count: Seq<char>,
    pub author: Seq<char>,
    pub thumbnails: Seq<ThumbnailView>,
    pub is_live_content: bool,
}

impl View for VideoDetails {
    type V = VideoDetailsView;

    open spec fn view(&self) -> VideoDetailsView {
        VideoDetailsView {
            video_id: self.video_id@,
            title: self.title@,
            length_seconds: self.length_seconds,
            keywords: match self.keywords {
                Some(k) => Some(strings_view(k@)),
                None => None,
            },
            channel_id: self.channel_id@,
            short_description: self.short_description@,
            view_count: self.view_count@,
            author: self.author@,
            thumbnails: self.thumbnails@.map_values(|t: VideoThumbnail| t@),
            is_live_content: self.is_live_content,
        }
    }
}

} // verus!
