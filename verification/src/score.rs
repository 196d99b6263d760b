//! Scores and match lists of engine names over a prepared listing.
//!
//! Profiles that share a name share one score and one match list: whatever
//! any of them earns counts for the name.

use crate::probe::{
    capped, entry_views, gain_on, hits_on, profile_views, repeated, texts_of, weight_on,
    EntryView, FileEntry, ProbeView, Profile, ProfileView,
};
use crate::sum::{
    lemma_total_alike, lemma_total_concat, lemma_total_parts, lemma_total_permutation,
    lemma_total_step, lemma_total_whole, total,
};
use vstd::prelude::*;

verus! {

/// What an entry adds to the score of a profile with these probes, as a
/// function of the entry.
pub open spec fn entry_gain(probes: Seq<ProbeView>) -> spec_fn(EntryView) -> nat {
    |entry: EntryView| weight_on(probes, entry.folded)
}

/// The score that one profile earns on a listing: the summed weight of every
/// hit of every probe on every entry.
pub open spec fn profile_score(entries: Seq<EntryView>, profile: ProfileView) -> nat {
    total(entries, entry_gain(profile.probes))
}

/// What a profile adds to the score of `name`: its own score if it bears the
/// name, else nothing.
pub open spec fn share_of(entries: Seq<EntryView>, name: Seq<char>) -> spec_fn(ProfileView) -> nat {
    |profile: ProfileView|
        if profile.name == name {
            profile_score(entries, profile)
        } else {
            0
        }
}

/// The score of an engine name on a listing: the summed scores of the
/// profiles that bear the name.
pub open spec fn name_score(
    entries: Seq<EntryView>,
    profiles: Seq<ProfileView>,
    name: Seq<char>,
) -> nat {
    total(profiles, share_of(entries, name))
}

/// How often a profile reports `path` for `name`, as a function of the
/// profile.
pub open spec fn hits_share(name: Seq<char>, path: Seq<char>) -> spec_fn(ProfileView) -> nat {
    |profile: ProfileView|
        if profile.name == name {
            hits_on(profile.probes, path)
        } else {
            0
        }
}

/// How many probes of the profiles named `name` hit `path`.
pub open spec fn name_hits(profiles: Seq<ProfileView>, name: Seq<char>, path: Seq<char>) -> nat {
    total(profiles, hits_share(name, path))
}

/// The match list of an engine name: the entries in their order, each path
/// once for every probe of the name that hits the entry.
pub open spec fn matched(
    entries: Seq<EntryView>,
    profiles: Seq<ProfileView>,
    name: Seq<char>,
) -> Seq<Seq<char>>
    decreases entries.len(),
{
    if entries.len() == 0 {
        Seq::empty()
    } else {
        matched(entries.drop_last(), profiles, name) + repeated(
            entries.last().path,
            name_hits(profiles, name, entries.last().folded),
        )
    }
}

/// Computes the score that `profile` earns on `entries`.
pub fn score_profile(profile: &Profile, entries: &[FileEntry]) -> (score: u64)
    ensures
        score == capped(profile_score(entry_views(entries@), profile@)),
{
    let ghost listing = entry_views(entries@);
    let ghost gain = entry_gain(profile@.probes);
    let mut score: u64 = 0;
    let mut k: usize = 0;
    while k < entries.len()
        invariant
            listing == entry_views(entries@),
            gain == entry_gain(profile@.probes),
            k <= entries.len(),
            score == capped(total(listing.take(k as int), gain)),
        decreases entries.len() - k,
    {
        proof {
            lemma_total_step(listing, k as int, gain);
        }
        score = score.saturating_add(profile.weight_on(entries[k].folded.as_slice()));
        k += 1;
    }
    proof {
        lemma_total_whole(listing, gain);
    }
    score
}

/// Computes the score of the engine name `name` on `entries`.
pub fn score_name(entries: &[FileEntry], profiles: &[Profile], name: &String) -> (score: u64)
    ensures
        score == capped(name_score(entry_views(entries@), profile_views(profiles@), name@)),
{
    let ghost field = profile_views(profiles@);
    let ghost share = share_of(entry_views(entries@), name@);
    let mut score: u64 = 0;
    let mut i: usize = 0;
    while i < profiles.len()
        invariant
            field == profile_views(profiles@),
            share == share_of(entry_views(entries@), name@),
            i <= profiles.len(),
            score == capped(total(field.take(i as int), share)),
        decreases profiles.len() - i,
    {
        proof {
            lemma_total_step(field, i as int, share);
        }
        if profiles[i].name == *name {
            score = score.saturating_add(score_profile(&profiles[i], entries));
        }
        i += 1;
    }
    proof {
        lemma_total_whole(field, share);
    }
    score
}

/// Appends to `found` the entry's path once for every probe of the profiles
/// named `name` that hits the entry, in the order of the profiles.
pub fn record_entry(entry: &FileEntry, profiles: &[Profile], name: &String, found: &mut Vec<String>)
    ensures
        texts_of(final(found)@) == texts_of(old(found)@) + repeated(
            entry@.path,
            name_hits(profile_views(profiles@), name@, entry@.folded),
        ),
{
    let ghost field = profile_views(profiles@);
    let ghost share = hits_share(name@, entry@.folded);
    let ghost before = texts_of(found@);
    let mut i: usize = 0;
    while i < profiles.len()
        invariant
            field == profile_views(profiles@),
            share == hits_share(name@, entry@.folded),
            i <= profiles.len(),
            texts_of(found@) == before + repeated(entry@.path, total(field.take(i as int), share)),
        decreases profiles.len() - i,
    {
        proof {
            lemma_total_step(field, i as int, share);
        }
        if profiles[i].name == *name {
            profiles[i].record_hits(entry, found);
            proof {
                let n = total(field.take(i as int), share);
                let m = hits_on(profiles@[i as int]@.probes, entry@.folded);
                assert(repeated(entry@.path, n) + repeated(entry@.path, m) =~= repeated(
                    entry@.path,
                    n + m,
                ));
            }
        }
        i += 1;
    }
    proof {
        lemma_total_whole(field, share);
    }
}

/// Builds the match list of the engine name `name` on `entries`.
pub fn collect_matches(
    entries: &[FileEntry],
    profiles: &[Profile],
    name: &String,
) -> (found: Vec<String>)
    ensures
        texts_of(found@) == matched(entry_views(entries@), profile_views(profiles@), name@),
{
    let ghost listing = entry_views(entries@);
    let ghost field = profile_views(profiles@);
    let mut found: Vec<String> = Vec::new();
    let mut k: usize = 0;
    while k < entries.len()
        invariant
            listing == entry_views(entries@),
            field == profile_views(profiles@),
            k <= entries.len(),
            texts_of(found@) == matched(listing.take(k as int), field, name@),
        decreases entries.len() - k,
    {
        proof {
            assert(listing.take(k + 1).drop_last() =~= listing.take(k as int));
        }
        record_entry(&entries[k], profiles, name, &mut found);
        k += 1;
    }
    proof {
        assert(listing.take(entries.len() as int) =~= listing);
    }
    found
}

/// Weights add up: the probes of a concatenation weigh as much on a path as
/// the two parts together.
pub proof fn lemma_weight_additive(front: Seq<ProbeView>, back: Seq<ProbeView>, path: Seq<char>)
    ensures
        weight_on(front + back, path) == weight_on(front, path) + weight_on(back, path),
{
    lemma_total_concat(front, back, gain_on(path));
}

/// The weight on a path does not depend on the order of the probes.
pub proof fn lemma_weight_any_order(left: Seq<ProbeView>, right: Seq<ProbeView>, path: Seq<char>)
    requires
        left.to_multiset() == right.to_multiset(),
    ensures
        weight_on(left, path) == weight_on(right, path),
{
    lemma_total_permutation(left, right, gain_on(path));
}

/// Two sets of profiles that agree, place by place, in name and in the score
/// earned on their listing give every name the same score.
pub proof fn lemma_score_alike(
    left_entries: Seq<EntryView>,
    left: Seq<ProfileView>,
    right_entries: Seq<EntryView>,
    right: Seq<ProfileView>,
    name: Seq<char>,
)
    requires
        left.len() == right.len(),
        forall|i: int|
            0 <= i < left.len() ==> (#[trigger] left[i]).name == right[i].name && profile_score(
                left_entries,
                left[i],
            ) == profile_score(right_entries, right[i]),
    ensures
        name_score(left_entries, left, name) == name_score(right_entries, right, name),
{
    let left_share = share_of(left_entries, name);
    let right_share = share_of(right_entries, name);
    assert forall|i: int| 0 <= i < left.len() implies left_share(#[trigger] left[i])
        == right_share(right[i]) by {
        assert(left[i].name == right[i].name);
    }
    lemma_total_alike(left, left_share, right, right_share);
}

/// Scores add up: a name scores on a concatenated listing what it scores on
/// the two parts together.
pub proof fn lemma_score_additive(
    front: Seq<EntryView>,
    back: Seq<EntryView>,
    profiles: Seq<ProfileView>,
    name: Seq<char>,
)
    ensures
        name_score(front + back, profiles, name) == name_score(front, profiles, name) + name_score(
            back,
            profiles,
            name,
        ),
{
    assert forall|i: int| 0 <= i < profiles.len() implies share_of(front + back, name)(
        #[trigger] profiles[i],
    ) == share_of(front, name)(profiles[i]) + share_of(back, name)(profiles[i]) by {
        lemma_total_concat(front, back, entry_gain(profiles[i].probes));
    }
    lemma_total_parts(
        profiles,
        share_of(front + back, name),
        share_of(front, name),
        share_of(back, name),
    );
}

/// The score of a name does not depend on the order of the listing.
pub proof fn lemma_score_any_order_of_entries(
    left: Seq<EntryView>,
    right: Seq<EntryView>,
    profiles: Seq<ProfileView>,
    name: Seq<char>,
)
    requires
        left.to_multiset() == right.to_multiset(),
    ensures
        name_score(left, profiles, name) == name_score(right, profiles, name),
{
    assert forall|i: int| 0 <= i < profiles.len() implies profile_score(
        left,
        #[trigger] profiles[i],
    ) == profile_score(right, profiles[i]) by {
        lemma_total_permutation(left, right, entry_gain(profiles[i].probes));
    }
    lemma_score_alike(left, profiles, right, profiles, name);
}

/// The score of a name does not depend on the order of the profiles.
pub proof fn lemma_score_any_order_of_profiles(
    entries: Seq<EntryView>,
    left: Seq<ProfileView>,
    right: Seq<ProfileView>,
    name: Seq<char>,
)
    requires
        left.to_multiset() == right.to_multiset(),
    ensures
        name_score(entries, left, name) == name_score(entries, right, name),
{
    lemma_total_permutation(left, right, share_of(entries, name));
}

/// The score of a name does not depend on the order of the probes within
/// the profiles.
pub proof fn lemma_score_any_order_of_probes(
    entries: Seq<EntryView>,
    left: Seq<ProfileView>,
    right: Seq<ProfileView>,
    name: Seq<char>,
)
    requires
        left.len() == right.len(),
        forall|i: int|
            0 <= i < left.len() ==> (#[trigger] left[i]).name == right[i].name
                && left[i].probes.to_multiset() == right[i].probes.to_multiset(),
    ensures
        name_score(entries, left, name) == name_score(entries, right, name),
{
    assert forall|i: int| 0 <= i < left.len() implies (#[trigger] left[i]).name == right[i].name
        && profile_score(entries, left[i]) == profile_score(entries, right[i]) by {
        let a = left[i].probes;
        let b = right[i].probes;
        assert forall|k: int| 0 <= k < entries.len() implies entry_gain(a)(#[trigger] entries[k])
            == entry_gain(b)(entries[k]) by {
            lemma_weight_any_order(a, b, entries[k].folded);
        }
        lemma_total_alike(entries, entry_gain(a), entries, entry_gain(b));
    }
    lemma_score_alike(entries, left, entries, right, name);
}

} // verus!
