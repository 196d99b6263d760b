//! Signatures and file paths made ready for comparison.
//!
//! A probe holds its pattern in the form that is compared, a file entry holds
//! beside its path the form of the path that is compared, and a profile is an
//! engine's name with its probes. Nothing here changes the case of a text:
//! what is given is compared character by character.

use crate::rule::Rule;
use crate::sum::{lemma_total_step, lemma_total_whole, total};
use vstd::prelude::*;

verus! {

/// A rule, the pattern it is applied with, and what a hit is worth.
#[derive(Debug, Clone, PartialEq, Eq)]
pub struct Probe {
    pub rule: Rule,
    /// The pattern, in the form that is compared.
    pub needle: Vec<char>,
    /// The weight of a hit, in thousandths.
    pub weight: u32,
}

/// A probe as a mathematical value.
pub struct ProbeView {
    pub rule: Rule,
    pub needle: Seq<char>,
    pub weight: nat,
}

/// An engine's name with the probes that speak for it.
#[derive(Debug, Clone, PartialEq, Eq)]
pub struct Profile {
    pub name: String,
    pub probes: Vec<Probe>,
}

/// A profile as a mathematical value.
pub struct ProfileView {
    pub name: Seq<char>,
    pub probes: Seq<ProbeView>,
}

/// A file path with the form of it that probes are applied to.
#[derive(Debug, Clone, PartialEq, Eq)]
pub struct FileEntry<'a> {
    /// The path as it was given; this is what a match reports.
    pub path: &'a str,
    /// The path in the form that is compared.
    pub folded: Vec<char>,
}

/// A file entry as a mathematical value.
pub struct EntryView {
    pub path: Seq<char>,
    pub folded: Seq<char>,
}

impl View for Probe {
    type V = ProbeView;

    open spec fn view(&self) -> ProbeView {
        ProbeView { rule: self.rule, needle: self.needle@, weight: self.weight as nat }
    }
}

impl View for Profile {
    type V = ProfileView;

    open spec fn view(&self) -> ProfileView {
        ProfileView { name: self.name@, probes: probe_views(self.probes@) }
    }
}

impl<'a> View for FileEntry<'a> {
    type V = EntryView;

    open spec fn view(&self) -> EntryView {
        EntryView { path: self.path@, folded: self.folded@ }
    }
}

/// The views of a sequence of probes.
pub open spec fn probe_views(probes: Seq<Probe>) -> Seq<ProbeView> {
    Seq::new(probes.len(), |i: int| probes[i]@)
}

/// The views of a sequence of profiles.
pub open spec fn profile_views(profiles: Seq<Profile>) -> Seq<ProfileView> {
    Seq::new(profiles.len(), |i: int| profiles[i]@)
}

/// The views of a sequence of file entries.
pub open spec fn entry_views(entries: Seq<FileEntry>) -> Seq<EntryView> {
    Seq::new(entries.len(), |i: int| entries[i]@)
}

impl ProbeView {
    /// Whether the probe's rule accepts `path` for the probe's pattern.
    pub open spec fn hits(self, path: Seq<char>) -> bool {
        self.rule.spec_accepts(self.needle, path)
    }

    /// What the probe adds to a score for `path`: its weight on a hit, else
    /// nothing.
    pub open spec fn gain(self, path: Seq<char>) -> nat {
        if self.hits(path) {
            self.weight
        } else {
            0
        }
    }

    /// How often the probe reports `path`: once on a hit, else never.
    pub open spec fn count(self, path: Seq<char>) -> nat {
        if self.hits(path) {
            1
        } else {
            0
        }
    }
}

/// `ProbeView::gain` for a fixed path, as a function of the probe.
pub open spec fn gain_on(path: Seq<char>) -> spec_fn(ProbeView) -> nat {
    |probe: ProbeView| probe.gain(path)
}

/// `ProbeView::count` for a fixed path, as a function of the probe.
pub open spec fn count_on(path: Seq<char>) -> spec_fn(ProbeView) -> nat {
    |probe: ProbeView| probe.count(path)
}

/// The summed weight of the probes that hit `path`.
pub open spec fn weight_on(probes: Seq<ProbeView>, path: Seq<char>) -> nat {
    total(probes, gain_on(path))
}

/// The number of probes that hit `path`.
pub open spec fn hits_on(probes: Seq<ProbeView>, path: Seq<char>) -> nat {
    total(probes, count_on(path))
}

/// A score as it is kept in 64 bits: it stops growing at the largest value.
pub open spec fn capped(amount: nat) -> u64 {
    if amount > u64::MAX {
        u64::MAX
    } else {
        amount as u64
    }
}

/// `item`, `times` times over.
pub open spec fn repeated(item: Seq<char>, times: nat) -> Seq<Seq<char>> {
    Seq::new(times, |i: int| item)
}

/// The texts that a sequence of strings spells.
pub open spec fn texts_of(strings: Seq<String>) -> Seq<Seq<char>> {
    Seq::new(strings.len(), |i: int| strings[i]@)
}

impl Probe {
    /// Tells whether the probe hits `path`, which is taken in the form that
    /// is compared.
    pub fn hits(&self, path: &[char]) -> (hit: bool)
        ensures
            hit == self@.hits(path@),
    {
        self.rule.accepts(self.needle.as_slice(), path)
    }
}

impl Profile {
    /// Sums the weights of the probes that hit `path`.
    pub fn weight_on(&self, path: &[char]) -> (weight: u64)
        ensures
            weight == capped(weight_on(self@.probes, path@)),
    {
        let ghost probes = self@.probes;
        let mut weight: u64 = 0;
        let mut i: usize = 0;
        while i < self.probes.len()
            invariant
                probes == self@.probes,
                i <= self.probes.len(),
                weight == capped(weight_on(probes.take(i as int), path@)),
            decreases self.probes.len() - i,
        {
            proof {
                lemma_total_step(probes, i as int, gain_on(path@));
            }
            if self.probes[i].hits(path) {
                weight = weight.saturating_add(self.probes[i].weight as u64);
            }
            i += 1;
        }
        proof {
            lemma_total_whole(probes, gain_on(path@));
        }
        weight
    }

    /// Appends the entry's path to `found` once for each probe that hits the
    /// entry, in the order of the probes.
    pub fn record_hits(&self, entry: &FileEntry, found: &mut Vec<String>)
        ensures
            texts_of(final(found)@) == texts_of(old(found)@) + repeated(
                entry@.path,
                hits_on(self@.probes, entry@.folded),
            ),
    {
        let ghost probes = self@.probes;
        let ghost before = texts_of(found@);
        let mut i: usize = 0;
        while i < self.probes.len()
            invariant
                probes == self@.probes,
                i <= self.probes.len(),
                texts_of(found@) == before + repeated(
                    entry@.path,
                    hits_on(probes.take(i as int), entry@.folded),
                ),
            decreases self.probes.len() - i,
        {
            proof {
                lemma_total_step(probes, i as int, count_on(entry@.folded));
            }
            let ghost so_far = found@;
            if self.probes[i].hits(entry.folded.as_slice()) {
                let path = entry.path.to_owned();
                found.push(path);
                proof {
                    let n = hits_on(probes.take(i as int), entry@.folded);
                    assert(texts_of(found@) =~= texts_of(so_far).push(entry@.path));
                    assert(repeated(entry@.path, n + 1) =~= repeated(entry@.path, n).push(
                        entry@.path,
                    ));
                }
            }
            i += 1;
        }
        proof {
            lemma_total_whole(probes, count_on(entry@.folded));
        }
    }
}

} // verus!
