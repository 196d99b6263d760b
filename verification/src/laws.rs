//! What holds of every detection: case never matters, order never changes a
//! score, scores add up, and the confidence follows the leading score.

use crate::confidence::{confidence_of, is_level, CONFIDENCE_FULL, HIGH_SCORE};
use crate::detector::{
    classification, detection, folded, folded_listing, lemma_no_entries, lemma_no_profiles,
    standings, unknown,
};
use crate::probe::{gain_on, weight_on, EntryView, ProbeView, ProfileView};
use crate::score::{
    entry_gain, lemma_score_additive, lemma_score_alike, matched, name_hits, name_score,
    profile_score, share_of,
};
use crate::signature::{
    probes_of, profiles_of, EngineConfigView, SignatureTypeView, SignatureView,
};
use crate::sum::{lemma_total_alike, lemma_total_permutation, total};
use crate::text::lowercase;
use crate::winner::{
    any_scored, leader, leading_score, leads, lemma_leader_is, lemma_no_leader, lemma_some_leader,
};
use vstd::prelude::*;

verus! {

/// The score of an engine name on a listing of paths.
pub open spec fn engine_score(
    files: Seq<Seq<char>>,
    configs: Seq<EngineConfigView>,
    name: Seq<char>,
) -> nat {
    name_score(folded_listing(files), profiles_of(configs), name)
}

/// Two listings hold, place by place, the same paths but for the case of
/// their letters.
pub open spec fn paths_alike(left: Seq<Seq<char>>, right: Seq<Seq<char>>) -> bool {
    &&& left.len() == right.len()
    &&& forall|i: int| 0 <= i < left.len() ==> lowercase(#[trigger] left[i]) == lowercase(right[i])
}

/// Two signature types have the same rule and, in the form that is compared,
/// the same parameter.
pub open spec fn kinds_alike(left: SignatureTypeView, right: SignatureTypeView) -> bool {
    left.rule == right.rule && left.needle() == right.needle()
}

/// Two sets of engine definitions differ, place by place, in nothing but the
/// case of their signatures' parameters.
pub open spec fn configs_alike(left: Seq<EngineConfigView>, right: Seq<EngineConfigView>) -> bool {
    &&& left.len() == right.len()
    &&& forall|i: int|
        0 <= i < left.len() ==> {
            &&& (#[trigger] left[i]).name == right[i].name
            &&& left[i].signatures.len() == right[i].signatures.len()
            &&& forall|j: int|
                0 <= j < left[i].signatures.len() ==> {
                    &&& (#[trigger] left[i].signatures[j]).weight == right[i].signatures[j].weight
                    &&& kinds_alike(left[i].signatures[j].kind, right[i].signatures[j].kind)
                }
        }
}

/// What a signature adds to a score for a path in the form that is compared,
/// as a function of the signature.
pub open spec fn signature_gain(path: Seq<char>) -> spec_fn(SignatureView) -> nat {
    |signature: SignatureView| signature.probe().gain(path)
}

/// What a path adds to the score of a profile with these probes, as a
/// function of the path.
pub open spec fn path_gain(probes: Seq<ProbeView>) -> spec_fn(Seq<char>) -> nat {
    |path: Seq<char>| weight_on(probes, lowercase(path))
}

/// What an engine definition adds to the score of `name`, as a function of
/// the definition.
pub open spec fn config_share(entries: Seq<EntryView>, name: Seq<char>) -> spec_fn(
    EngineConfigView,
) -> nat {
    |config: EngineConfigView| share_of(entries, name)(config.profile())
}

/// An empty listing is detected as unknown, whatever the engine definitions.
pub proof fn lemma_no_files(configs: Seq<EngineConfigView>)
    ensures
        detection(Seq::empty(), configs) == unknown(),
{
    assert(folded_listing(Seq::empty()) =~= Seq::<EntryView>::empty());
    lemma_no_entries(profiles_of(configs));
}

/// Without engine definitions every listing is detected as unknown.
pub proof fn lemma_no_configs(files: Seq<Seq<char>>)
    ensures
        detection(files, Seq::empty()) == unknown(),
{
    lemma_no_profiles(folded_listing(files));
}

/// A signature's probe hits the entry of a path exactly when the signature's
/// type matches the path.
pub proof fn lemma_probe_hits_where_kind_matches(signature: SignatureView, path: Seq<char>)
    ensures
        signature.probe().hits(folded(path).folded) == signature.kind.matches(path),
{
}

/// Matching ignores case: signature types that are alike give the same
/// answer on paths that differ in case alone.
pub proof fn lemma_match_ignores_case(
    left: SignatureTypeView,
    right: SignatureTypeView,
    left_path: Seq<char>,
    right_path: Seq<char>,
)
    requires
        kinds_alike(left, right),
        lowercase(left_path) == lowercase(right_path),
    ensures
        left.matches(left_path) == right.matches(right_path),
{
}

/// Changing the case of paths changes no score.
pub proof fn lemma_score_ignores_case_of_paths(
    left: Seq<Seq<char>>,
    right: Seq<Seq<char>>,
    configs: Seq<EngineConfigView>,
    name: Seq<char>,
)
    requires
        paths_alike(left, right),
    ensures
        engine_score(left, configs, name) == engine_score(right, configs, name),
{
    let profiles = profiles_of(configs);
    let a = folded_listing(left);
    let b = folded_listing(right);
    assert forall|i: int| 0 <= i < profiles.len() implies profile_score(a, #[trigger] profiles[i])
        == profile_score(b, profiles[i]) by {
        let gain = entry_gain(profiles[i].probes);
        assert forall|k: int| 0 <= k < a.len() implies gain(#[trigger] a[k]) == gain(b[k]) by {
            assert(lowercase(left[k]) == lowercase(right[k]));
        }
        lemma_total_alike(a, gain, b, gain);
    }
    lemma_score_alike(a, profiles, b, profiles, name);
}

/// Engine definitions that are alike stand for the same profiles.
pub proof fn lemma_alike_configs_same_profiles(
    left: Seq<EngineConfigView>,
    right: Seq<EngineConfigView>,
)
    requires
        configs_alike(left, right),
    ensures
        profiles_of(left) == profiles_of(right),
{
    assert forall|i: int| 0 <= i < left.len() implies left[i].profile() == right[i].profile() by {
        let a = left[i].signatures;
        let b = right[i].signatures;
        assert forall|j: int| 0 <= j < a.len() implies a[j].probe() == b[j].probe() by {
            assert(a[j].weight == b[j].weight);
        }
        assert(probes_of(a) =~= probes_of(b));
    }
    assert(profiles_of(left) =~= profiles_of(right));
}

/// Changing the case of signature parameters changes no score and no
/// detection.
pub proof fn lemma_score_ignores_case_of_patterns(
    files: Seq<Seq<char>>,
    left: Seq<EngineConfigView>,
    right: Seq<EngineConfigView>,
    name: Seq<char>,
)
    requires
        configs_alike(left, right),
    ensures
        engine_score(files, left, name) == engine_score(files, right, name),
        detection(files, left) == detection(files, right),
{
    lemma_alike_configs_same_profiles(left, right);
}

/// Changing the case of paths changes neither the engine that is detected
/// nor the confidence.
pub proof fn lemma_detection_ignores_case_of_paths(
    left: Seq<Seq<char>>,
    right: Seq<Seq<char>>,
    configs: Seq<EngineConfigView>,
)
    requires
        paths_alike(left, right),
    ensures
        detection(left, configs).engine == detection(right, configs).engine,
        detection(left, configs).confidence == detection(right, configs).confidence,
{
    let profiles = profiles_of(configs);
    let a = standings(folded_listing(left), profiles);
    let b = standings(folded_listing(right), profiles);
    assert forall|i: int| 0 <= i < profiles.len() implies a[i] == b[i] by {
        lemma_score_ignores_case_of_paths(left, right, configs, profiles[i].name);
    }
    assert(a =~= b);
}

/// Scores add up: a name scores on a concatenated listing what it scores on
/// the two parts together.
pub proof fn lemma_engine_score_additive(
    front: Seq<Seq<char>>,
    back: Seq<Seq<char>>,
    configs: Seq<EngineConfigView>,
    name: Seq<char>,
)
    ensures
        engine_score(front + back, configs, name) == engine_score(front, configs, name)
            + engine_score(back, configs, name),
{
    assert(folded_listing(front + back) =~= folded_listing(front) + folded_listing(back));
    lemma_score_additive(folded_listing(front), folded_listing(back), profiles_of(configs), name);
}

/// The order of the paths changes no score.
pub proof fn lemma_score_any_order_of_files(
    left: Seq<Seq<char>>,
    right: Seq<Seq<char>>,
    configs: Seq<EngineConfigView>,
    name: Seq<char>,
)
    requires
        left.to_multiset() == right.to_multiset(),
    ensures
        engine_score(left, configs, name) == engine_score(right, configs, name),
{
    let profiles = profiles_of(configs);
    let a = folded_listing(left);
    let b = folded_listing(right);
    assert forall|i: int| 0 <= i < profiles.len() implies profile_score(a, #[trigger] profiles[i])
        == profile_score(b, profiles[i]) by {
        let probes = profiles[i].probes;
        lemma_total_alike(a, entry_gain(probes), left, path_gain(probes));
        lemma_total_alike(b, entry_gain(probes), right, path_gain(probes));
        lemma_total_permutation(left, right, path_gain(probes));
    }
    lemma_score_alike(a, profiles, b, profiles, name);
}

/// The order of the engine definitions changes no score.
pub proof fn lemma_score_any_order_of_configs(
    files: Seq<Seq<char>>,
    left: Seq<EngineConfigView>,
    right: Seq<EngineConfigView>,
    name: Seq<char>,
)
    requires
        left.to_multiset() == right.to_multiset(),
    ensures
        engine_score(files, left, name) == engine_score(files, right, name),
{
    let entries = folded_listing(files);
    let share = share_of(entries, name);
    lemma_total_alike(profiles_of(left), share, left, config_share(entries, name));
    lemma_total_alike(profiles_of(right), share, right, config_share(entries, name));
    lemma_total_permutation(left, right, config_share(entries, name));
}

/// The order of the signatures within the engine definitions changes no
/// score.
pub proof fn lemma_score_any_order_of_signatures(
    files: Seq<Seq<char>>,
    left: Seq<EngineConfigView>,
    right: Seq<EngineConfigView>,
    name: Seq<char>,
)
    requires
        left.len() == right.len(),
        forall|i: int|
            0 <= i < left.len() ==> (#[trigger] left[i]).name == right[i].name
                && left[i].signatures.to_multiset() == right[i].signatures.to_multiset(),
    ensures
        engine_score(files, left, name) == engine_score(files, right, name),
{
    let entries = folded_listing(files);
    let a = profiles_of(left);
    let b = profiles_of(right);
    assert forall|i: int| 0 <= i < a.len() implies (#[trigger] a[i]).name == b[i].name
        && profile_score(entries, a[i]) == profile_score(entries, b[i]) by {
        let one = left[i].signatures;
        let other = right[i].signatures;
        assert forall|k: int| 0 <= k < entries.len() implies entry_gain(a[i].probes)(
            #[trigger] entries[k],
        ) == entry_gain(b[i].probes)(entries[k]) by {
            let path = entries[k].folded;
            lemma_total_alike(probes_of(one), gain_on(path), one, signature_gain(path));
            lemma_total_alike(probes_of(other), gain_on(path), other, signature_gain(path));
            lemma_total_permutation(one, other, signature_gain(path));
        }
        lemma_total_alike(entries, entry_gain(a[i].probes), entries, entry_gain(b[i].probes));
    }
    lemma_score_alike(entries, a, entries, b, name);
}

/// The unknown result is given only where no profile scored; where one did,
/// the leader's name is reported.
pub proof fn lemma_unknown_only_without_score(entries: Seq<EntryView>, profiles: Seq<ProfileView>)
    ensures
        !any_scored(standings(entries, profiles)) ==> classification(entries, profiles)
            == unknown(),
        any_scored(standings(entries, profiles)) ==> ({
            let at = leader(standings(entries, profiles))->0;
            &&& leads(standings(entries, profiles), at)
            &&& classification(entries, profiles).engine == profiles[at].name
            &&& classification(entries, profiles).confidence > 0
        }),
{
    let scores = standings(entries, profiles);
    if any_scored(scores) {
        lemma_some_leader(scores);
    } else {
        lemma_no_leader(scores);
    }
}

/// The confidence of a classification is the confidence that the leading
/// score earns, and so one of the four levels.
pub proof fn lemma_confidence_follows_score(entries: Seq<EntryView>, profiles: Seq<ProfileView>)
    ensures
        classification(entries, profiles).confidence == confidence_of(
            leading_score(standings(entries, profiles)) as nat,
        ),
        is_level(classification(entries, profiles).confidence),
{
}

/// A leading score at or above the high threshold gives full confidence,
/// however far above it is.
pub proof fn lemma_high_score_full_confidence(
    entries: Seq<EntryView>,
    profiles: Seq<ProfileView>,
    at: int,
)
    requires
        leads(standings(entries, profiles), at),
        standings(entries, profiles)[at] >= HIGH_SCORE,
    ensures
        classification(entries, profiles).engine == profiles[at].name,
        classification(entries, profiles).confidence == CONFIDENCE_FULL,
{
    lemma_leader_is(standings(entries, profiles), at);
}

/// A path that two probes of one profile hit earns both weights and is
/// reported twice.
pub proof fn lemma_two_hits(entry: EntryView, name: Seq<char>, one: ProbeView, other: ProbeView)
    requires
        one.hits(entry.folded),
        other.hits(entry.folded),
    ensures
        name_score(seq![entry], seq![(ProfileView { name, probes: seq![one, other] })], name)
            == one.weight + other.weight,
        matched(seq![entry], seq![(ProfileView { name, probes: seq![one, other] })], name)
            == seq![entry.path, entry.path],
{
    let probes = seq![one, other];
    let profiles = seq![ProfileView { name, probes }];
    let entries = seq![entry];
    reveal_with_fuel(total, 3);
    assert(probes.drop_last() =~= seq![one]);
    assert(weight_on(probes, entry.folded) == one.weight + other.weight);
    assert(name_hits(profiles, name, entry.folded) == 2);
    assert(matched(entries.drop_last(), profiles, name) =~= Seq::<Seq<char>>::empty());
}

} // verus!
