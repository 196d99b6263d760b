//! Engine definitions as they are configured: named engines, each with its
//! weighted signatures, and how these are made ready for comparison.
//!
//! Comparison never keeps case: a signature's parameter is compared in its
//! lower-case form, and so is every path.

use crate::confidence::UNIT;
use crate::probe::{Probe, ProbeView, Profile, ProfileView};
use crate::rule::Rule;
use crate::text::{chars_of, lowercase, strip_wildcards, to_lowercase, without_wildcards};
use vstd::prelude::*;

verus! {

/// The weight of a signature that is configured without one.
pub const DEFAULT_WEIGHT: u32 = UNIT;

/// One matching rule with its string parameter.
#[derive(Debug, Clone, PartialEq, Eq)]
pub enum SignatureType {
    /// The parameter stands somewhere in the path.
    PathContains(String),
    /// The path ends with a dot and the parameter.
    Extension(String),
    /// The last component of the path is the parameter, or the path ends
    /// with a separator and the parameter.
    Filename(String),
    /// The last component of the path begins with the parameter.
    FilenameStartsWith(String),
    /// The path, as a whole, ends with the parameter.
    FilenameEndsWith(String),
    /// The last component of the path begins with the parameter, from which
    /// every `*` is taken out first.
    PathComponent(String),
}

/// A signature type as a mathematical value: its rule and its parameter.
pub struct SignatureTypeView {
    pub rule: Rule,
    pub value: Seq<char>,
}

/// A matching rule and what a hit of it is worth.
#[derive(Debug, Clone, PartialEq, Eq)]
pub struct Signature {
    pub kind: SignatureType,
    /// The weight of a hit, in thousandths.
    pub weight: u32,
}

/// A signature as a mathematical value.
pub struct SignatureView {
    pub kind: SignatureTypeView,
    pub weight: nat,
}

/// A named engine with the signatures that speak for it.
#[derive(Debug, Clone, PartialEq, Eq)]
pub struct EngineConfig {
    pub name: String,
    pub signatures: Vec<Signature>,
}

/// An engine definition as a mathematical value.
pub struct EngineConfigView {
    pub name: Seq<char>,
    pub signatures: Seq<SignatureView>,
}

impl View for SignatureType {
    type V = SignatureTypeView;

    open spec fn view(&self) -> SignatureTypeView {
        match self {
            SignatureType::PathContains(value) => SignatureTypeView {
                rule: Rule::PathContains,
                value: value@,
            },
            SignatureType::Extension(value) => SignatureTypeView {
                rule: Rule::Extension,
                value: value@,
            },
            SignatureType::Filename(value) => SignatureTypeView {
                rule: Rule::Filename,
                value: value@,
            },
            SignatureType::FilenameStartsWith(value) => SignatureTypeView {
                rule: Rule::FilenameStartsWith,
                value: value@,
            },
            SignatureType::FilenameEndsWith(value) => SignatureTypeView {
                rule: Rule::FilenameEndsWith,
                value: value@,
            },
            SignatureType::PathComponent(value) => SignatureTypeView {
                rule: Rule::PathComponent,
                value: value@,
            },
        }
    }
}

impl View for Signature {
    type V = SignatureView;

    open spec fn view(&self) -> SignatureView {
        SignatureView { kind: self.kind@, weight: self.weight as nat }
    }
}

impl View for EngineConfig {
    type V = EngineConfigView;

    open spec fn view(&self) -> EngineConfigView {
        EngineConfigView { name: self.name@, signatures: signature_views(self.signatures@) }
    }
}

/// The views of a sequence of signatures.
pub open spec fn signature_views(signatures: Seq<Signature>) -> Seq<SignatureView> {
    Seq::new(signatures.len(), |i: int| signatures[i]@)
}

/// The views of a sequence of engine definitions.
pub open spec fn config_views(configs: Seq<EngineConfig>) -> Seq<EngineConfigView> {
    Seq::new(configs.len(), |i: int| configs[i]@)
}

impl SignatureTypeView {
    /// The parameter in the form that is compared: in lower case, and for a
    /// path component with its wildcards taken out before that.
    pub open spec fn needle(self) -> Seq<char> {
        match self.rule {
            Rule::PathComponent => lowercase(without_wildcards(self.value)),
            _ => lowercase(self.value),
        }
    }

    /// Whether the signature type matches `path`, whatever the case of
    /// either.
    pub open spec fn matches(self, path: Seq<char>) -> bool {
        self.rule.spec_accepts(self.needle(), lowercase(path))
    }
}

impl SignatureView {
    /// The probe that stands for this signature.
    pub open spec fn probe(self) -> ProbeView {
        ProbeView { rule: self.kind.rule, needle: self.kind.needle(), weight: self.weight }
    }
}

/// The probes that stand for a sequence of signatures.
pub open spec fn probes_of(signatures: Seq<SignatureView>) -> Seq<ProbeView> {
    Seq::new(signatures.len(), |i: int| signatures[i].probe())
}

impl EngineConfigView {
    /// The profile that stands for this engine definition.
    pub open spec fn profile(self) -> ProfileView {
        ProfileView { name: self.name, probes: probes_of(self.signatures) }
    }
}

/// The profiles that stand for a sequence of engine definitions.
pub open spec fn profiles_of(configs: Seq<EngineConfigView>) -> Seq<ProfileView> {
    Seq::new(configs.len(), |i: int| configs[i].profile())
}

impl SignatureType {
    /// The rule of this signature type.
    pub fn rule(&self) -> (rule: Rule)
        ensures
            rule == self@.rule,
    {
        match self {
            SignatureType::PathContains(_) => Rule::PathContains,
            SignatureType::Extension(_) => Rule::Extension,
            SignatureType::Filename(_) => Rule::Filename,
            SignatureType::FilenameStartsWith(_) => Rule::FilenameStartsWith,
            SignatureType::FilenameEndsWith(_) => Rule::FilenameEndsWith,
            SignatureType::PathComponent(_) => Rule::PathComponent,
        }
    }

    /// The string parameter of this signature type.
    pub fn value(&self) -> (value: &String)
        ensures
            value@ == self@.value,
    {
        match self {
            SignatureType::PathContains(value) => value,
            SignatureType::Extension(value) => value,
            SignatureType::Filename(value) => value,
            SignatureType::FilenameStartsWith(value) => value,
            SignatureType::FilenameEndsWith(value) => value,
            SignatureType::PathComponent(value) => value,
        }
    }

    /// Brings the parameter into the form that is compared.
    pub fn needle(&self) -> (needle: Vec<char>)
        ensures
            needle@ == self@.needle(),
    {
        let spelled = chars_of(self.value().as_str());
        match self.rule() {
            Rule::PathComponent => {
                let stripped = strip_wildcards(spelled.as_slice());
                to_lowercase(stripped.as_slice())
            },
            _ => to_lowercase(spelled.as_slice()),
        }
    }

    /// Tells whether the signature type matches `path`, whatever the case of
    /// either.
    pub fn matches(&self, path: &str) -> (hit: bool)
        ensures
            hit == self@.matches(path@),
    {
        let needle = self.needle();
        let spelled = chars_of(path);
        let folded = to_lowercase(spelled.as_slice());
        self.rule().accepts(needle.as_slice(), folded.as_slice())
    }
}

impl Signature {
    /// Makes the signature ready for comparison.
    pub fn probe(&self) -> (probe: Probe)
        ensures
            probe@ == self@.probe(),
    {
        Probe { rule: self.kind.rule(), needle: self.kind.needle(), weight: self.weight }
    }
}

impl EngineConfig {
    /// Makes the engine definition ready for comparison.
    pub fn profile(&self) -> (profile: Profile)
        ensures
            profile@ == self@.profile(),
    {
        let ghost wanted = probes_of(self@.signatures);
        let mut probes: Vec<Probe> = Vec::new();
        let mut i: usize = 0;
        while i < self.signatures.len()
            invariant
                wanted == probes_of(self@.signatures),
                i <= self.signatures.len(),
                probes.len() == i,
                forall|k: int| 0 <= k < i ==> (#[trigger] probes@[k])@ == wanted[k],
            decreases self.signatures.len() - i,
        {
            let probe = self.signatures[i].probe();
            probes.push(probe);
            i += 1;
        }
        let profile = Profile { name: self.name.clone(), probes };
        proof {
            assert(profile@.probes =~= wanted);
        }
        profile
    }
}

} // verus!
