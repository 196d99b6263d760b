//! The classification of a listing: which engine leads, how confident the
//! call is, and which paths spoke for it.

use crate::confidence::{confidence_for, confidence_of, is_level, CONFIDENCE_NONE};
use crate::probe::{
    capped, entry_views, profile_views, texts_of, EntryView, FileEntry, Profile, ProfileView,
};
use crate::score::{collect_matches, matched, name_score, score_name, share_of};
use crate::signature::{config_views, profiles_of, EngineConfig, EngineConfigView};
use crate::sum::lemma_total_zero;
use crate::text::{chars_of, lowercase, to_lowercase};
use crate::winner::{leader, lemma_no_leader, pick_leader};
use vstd::prelude::*;

verus! {

/// The engine that is reported when no configured engine scored.
pub const UNKNOWN: &'static str = "Unknown";

/// The outcome of a classification.
#[derive(Debug, Clone, PartialEq, Eq)]
pub struct DetectionResult {
    /// The name of the leading engine, or `UNKNOWN`.
    pub engine: String,
    /// The confidence of the call, in thousandths.
    pub confidence: u32,
    /// The paths that spoke for the leading engine, once per hit.
    pub matches: Vec<String>,
}

/// A detection result as a mathematical value.
pub struct DetectionView {
    pub engine: Seq<char>,
    pub confidence: nat,
    pub matches: Seq<Seq<char>>,
}

impl View for DetectionResult {
    type V = DetectionView;

    open spec fn view(&self) -> DetectionView {
        DetectionView {
            engine: self.engine@,
            confidence: self.confidence as nat,
            matches: texts_of(self.matches@),
        }
    }
}

/// The result that names no engine: no confidence and no matches.
pub open spec fn unknown() -> DetectionView {
    DetectionView { engine: UNKNOWN@, confidence: CONFIDENCE_NONE as nat, matches: Seq::empty() }
}

/// The score of each profile's name, in the order of the profiles.
pub open spec fn standings(entries: Seq<EntryView>, profiles: Seq<ProfileView>) -> Seq<u64> {
    Seq::new(profiles.len(), |i: int| capped(name_score(entries, profiles, profiles[i].name)))
}

/// The classification of a prepared listing: the leading profile's name, the
/// confidence that its score earns and its name's match list; or the unknown
/// result when no profile scored.
pub open spec fn classification(
    entries: Seq<EntryView>,
    profiles: Seq<ProfileView>,
) -> DetectionView {
    let scores = standings(entries, profiles);
    match leader(scores) {
        Some(at) => DetectionView {
            engine: profiles[at].name,
            confidence: confidence_of(scores[at] as nat),
            matches: matched(entries, profiles, profiles[at].name),
        },
        None => unknown(),
    }
}

/// Computes the score of each profile's name.
pub fn rank(entries: &[FileEntry], profiles: &[Profile]) -> (scores: Vec<u64>)
    ensures
        scores@ == standings(entry_views(entries@), profile_views(profiles@)),
{
    let ghost wanted = standings(entry_views(entries@), profile_views(profiles@));
    let mut scores: Vec<u64> = Vec::new();
    let mut i: usize = 0;
    while i < profiles.len()
        invariant
            wanted == standings(entry_views(entries@), profile_views(profiles@)),
            i <= profiles.len(),
            scores@ == wanted.take(i as int),
        decreases profiles.len() - i,
    {
        let score = score_name(entries, profiles, &profiles[i].name);
        scores.push(score);
        i += 1;
    }
    scores
}

/// Classifies a prepared listing: reports the first profile to hold the
/// highest score, if that score is positive, with the confidence that the
/// score earns and the match list of the profile's name.
pub fn classify(entries: &[FileEntry], profiles: &[Profile]) -> (result: DetectionResult)
    ensures
        result@ == classification(entry_views(entries@), profile_views(profiles@)),
        entries.len() == 0 ==> result@ == unknown(),
        profiles.len() == 0 ==> result@ == unknown(),
        is_level(result@.confidence),
{
    let scores = rank(entries, profiles);
    let ghost field = profile_views(profiles@);
    proof {
        if entries.len() == 0 {
            assert(entry_views(entries@) =~= Seq::<EntryView>::empty());
            lemma_no_entries(field);
        }
        if profiles.len() == 0 {
            lemma_no_profiles(entry_views(entries@));
        }
    }
    match pick_leader(scores.as_slice()) {
        Some(at) => {
            let name = &profiles[at].name;
            let result = DetectionResult {
                engine: name.clone(),
                confidence: confidence_for(scores[at]),
                matches: collect_matches(entries, profiles, name),
            };
            result
        },
        None => {
            let result = DetectionResult {
                engine: UNKNOWN.to_owned(),
                confidence: CONFIDENCE_NONE,
                matches: Vec::new(),
            };
            proof {
                assert(result@.matches =~= Seq::<Seq<char>>::empty());
            }
            result
        },
    }
}

/// A path with its lower-case form, which is the form that is compared.
pub open spec fn folded(path: Seq<char>) -> EntryView {
    EntryView { path, folded: lowercase(path) }
}

/// The entries that stand for a listing of paths.
pub open spec fn folded_listing(files: Seq<Seq<char>>) -> Seq<EntryView> {
    Seq::new(files.len(), |i: int| folded(files[i]))
}

/// The classification of a listing against a set of engine definitions:
/// every path and every signature parameter is compared in lower case.
pub open spec fn detection(files: Seq<Seq<char>>, configs: Seq<EngineConfigView>) -> DetectionView {
    classification(folded_listing(files), profiles_of(configs))
}

/// Makes a path ready for comparison.
pub fn fold_path<'a>(path: &'a str) -> (entry: FileEntry<'a>)
    ensures
        entry@ == folded(path@),
{
    let spelled = chars_of(path);
    FileEntry { path, folded: to_lowercase(spelled.as_slice()) }
}

/// Makes a listing of paths ready for comparison.
pub fn fold_listing<'a>(files: &'a [String]) -> (entries: Vec<FileEntry<'a>>)
    ensures
        entry_views(entries@) == folded_listing(texts_of(files@)),
{
    let mut entries: Vec<FileEntry<'a>> = Vec::new();
    let mut k: usize = 0;
    while k < files.len()
        invariant
            k <= files.len(),
            entries.len() == k,
            forall|i: int| 0 <= i < k ==> (#[trigger] entries@[i])@ == folded(files@[i]@),
        decreases files.len() - k,
    {
        entries.push(fold_path(files[k].as_str()));
        k += 1;
    }
    entries
}

/// Makes a set of engine definitions ready for comparison.
pub fn prepare(configs: &[EngineConfig]) -> (profiles: Vec<Profile>)
    ensures
        profile_views(profiles@) == profiles_of(config_views(configs@)),
{
    let mut profiles: Vec<Profile> = Vec::new();
    let mut i: usize = 0;
    while i < configs.len()
        invariant
            i <= configs.len(),
            profiles.len() == i,
            forall|k: int| 0 <= k < i ==> (#[trigger] profiles@[k])@ == configs@[k]@.profile(),
        decreases configs.len() - i,
    {
        profiles.push(configs[i].profile());
        i += 1;
    }
    profiles
}

/// Classifies a listing of file paths against a set of engine definitions.
///
/// Every signature that matches a path adds its weight to the score of its
/// engine's name and the path to the name's match list. The first engine to
/// hold the highest score is reported if that score is positive, with the
/// confidence that the score earns; otherwise the unknown result is.
pub fn detect_engine(files: &[String], configs: &[EngineConfig]) -> (result: DetectionResult)
    ensures
        result@ == detection(texts_of(files@), config_views(configs@)),
        files.len() == 0 ==> result@ == unknown(),
        configs.len() == 0 ==> result@ == unknown(),
        is_level(result@.confidence),
{
    let entries = fold_listing(files);
    let profiles = prepare(configs);
    classify(entries.as_slice(), profiles.as_slice())
}

/// An empty listing is classified as unknown, whatever the profiles.
pub proof fn lemma_no_entries(profiles: Seq<ProfileView>)
    ensures
        classification(Seq::empty(), profiles) == unknown(),
{
    let entries = Seq::<EntryView>::empty();
    let scores = standings(entries, profiles);
    assert forall|i: int| 0 <= i < scores.len() implies scores[i] == 0 by {
        lemma_total_zero(profiles, share_of(entries, profiles[i].name));
    }
    lemma_no_leader(scores);
}

/// Without profiles every listing is classified as unknown.
pub proof fn lemma_no_profiles(entries: Seq<EntryView>)
    ensures
        classification(entries, Seq::empty()) == unknown(),
{
    lemma_no_leader(standings(entries, Seq::empty()));
}

} // verus!
