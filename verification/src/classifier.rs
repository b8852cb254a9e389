//! Container classification: decide from a container snapshot whether it is a
//! warp (egress gateway) container, a routing target, or of no interest.
//!
//! The warp name pattern is compiled as a regular expression when it contains
//! a regex metacharacter; a pattern without one, or a classifier built with
//! `with_simple_pattern`, uses plain wildcard matching.

use vstd::prelude::*;
use vstd::string::StrSliceExecFns;
use crate::container::{clone_container_info, has_label, label_value, ContainerInfo, ContainerInfoV};
use crate::text::{
    count_char_spec, find_char, lemma_find_char_props, seq_ends_with, seq_starts_with,
    str_count_char, str_ends_with, str_eq, str_find, str_starts_with,
};

verus! {

#[verifier::external_type_specification]
#[verifier::external_body]
pub struct ExRegex(regex::Regex);

#[verifier::external_type_specification]
#[verifier::external_body]
pub struct ExRegexError(regex::Error);

/// The pattern string a compiled `regex::Regex` was built from, as
/// `regex::Regex::as_str` returns it.
pub uninterp spec fn regex_source(r: regex::Regex) -> Seq<char>;

/// Whether the regular expression compiled from `pattern` matches anywhere in
/// `text`: what `regex::Regex::is_match` returns, a function of the two
/// strings alone.
pub uninterp spec fn regex_accepts(pattern: Seq<char>, text: Seq<char>) -> bool;

/// Whether a pattern compiles as a regular expression: what the success of
/// `regex::Regex::new` depends on, a function of the pattern alone under the
/// default build configuration.
pub uninterp spec fn regex_compiles(pattern: Seq<char>) -> bool;

/// Relies on `regex::Regex::new`: compilation succeeds or fails as a function
/// of the pattern alone, and the compiled regex stores the pattern it was
/// built from (`as_str` returns that exact string).
#[verifier::external_body]
fn regex_new(pattern: &str) -> (r: Result<regex::Regex, regex::Error>)
    ensures
        r is Ok <==> regex_compiles(pattern@),
        r matches Ok(re) ==> regex_source(re) == pattern@,
{
    regex::Regex::new(pattern)
}

/// Relies on `regex::Regex::is_match`: true exactly when the regex matches
/// somewhere in the haystack, determined by the pattern and haystack alone.
#[verifier::external_body]
fn regex_is_match(re: &regex::Regex, text: &str) -> (r: bool)
    ensures
        r == regex_accepts(regex_source(*re), text@),
{
    re.is_match(text)
}

/// A regex metacharacter; a pattern containing one is compiled as a regex.
pub open spec fn is_meta(c: char) -> bool {
    c == '*' || c == '+' || c == '?' || c == '^' || c == '$' || c == '[' || c == ']' || c == '('
        || c == ')' || c == '{' || c == '}' || c == '|' || c == '\\'
}

/// The pattern contains at least one regex metacharacter.
pub open spec fn has_meta(p: Seq<char>) -> bool {
    exists|i: int| 0 <= i < p.len() && is_meta(p[i])
}

fn is_meta_char(c: char) -> (r: bool)
    ensures
        r == is_meta(c),
{
    c == '*' || c == '+' || c == '?' || c == '^' || c == '$' || c == '[' || c == ']' || c == '('
        || c == ')' || c == '{' || c == '}' || c == '|' || c == '\\'
}

fn contains_meta(p: &str) -> (r: bool)
    ensures
        r == has_meta(p@),
{
    let len = p.unicode_len();
    let mut i: usize = 0;
    while i < len
        invariant
            len == p@.len(),
            i <= len,
            forall|j: int| 0 <= j < i ==> !is_meta(p@[j]),
        decreases len - i,
    {
        if is_meta_char(p.get_char(i)) {
            return true;
        }
        i += 1;
    }
    false
}

/// Wildcard matching of a name against a simple pattern, in the order the
/// rules are tried: a trailing `*` asks for a prefix, a leading `*` for a
/// suffix, exactly one inner `*` for both ends, anything else for equality.
pub open spec fn simple_pattern_matches(p: Seq<char>, name: Seq<char>) -> bool {
    if p.len() > 0 && p.last() == '*' {
        seq_starts_with(name, p.drop_last())
    } else if p.len() > 0 && p.first() == '*' {
        seq_ends_with(name, p.subrange(1, p.len() as int))
    } else if count_char_spec(p, '*') == 1 {
        let i = find_char(p, '*');
        seq_starts_with(name, p.subrange(0, i)) && seq_ends_with(
            name,
            p.subrange(i + 1, p.len() as int),
        )
    } else {
        name == p
    }
}

proof fn lemma_count_zero(s: Seq<char>, c: char)
    requires
        forall|j: int| 0 <= j < s.len() ==> s[j] != c,
    ensures
        count_char_spec(s, c) == 0,
    decreases s.len(),
{
    if s.len() > 0 {
        lemma_count_zero(s.drop_last(), c);
    }
}

/// Classification verdict on a container: warp, target, or neither.
#[derive(Debug, Clone, PartialEq)]
pub enum ContainerType {
    WarpContainer(WarpContainerInfo),
    TargetContainer(TargetContainerInfo),
    Ignored,
}

/// A validated warp container and the network it prefers, if labeled.
#[derive(Debug, Clone, PartialEq)]
pub struct WarpContainerInfo {
    pub container: ContainerInfo,
    pub target_network: Option<String>,
}

/// A validated target container and the warp name its label references.
#[derive(Debug, Clone, PartialEq)]
pub struct TargetContainerInfo {
    pub container: ContainerInfo,
    pub warp_target: String,
}

/// Spec-level classification verdict.
pub ghost enum ClassificationV {
    Warp { target_network: Option<Seq<char>> },
    Target { warp_target: Seq<char> },
    Ignored,
}

/// Classifier: a warp name pattern (compiled once), the label that marks a
/// target, and the label that names a preferred network.
pub struct DefaultContainerClassifier {
    warp_raw_pattern: String,
    warp_regex: Option<regex::Regex>,
    target_label: String,
    network_preference_label: String,
}

impl DefaultContainerClassifier {
    /// The warp name pattern.
    pub closed spec fn pattern(self) -> Seq<char> {
        self.warp_raw_pattern@
    }

    /// The label that marks target containers.
    pub closed spec fn target_label_view(self) -> Seq<char> {
        self.target_label@
    }

    /// The label that names a warp container's preferred network.
    pub closed spec fn preference_label_view(self) -> Seq<char> {
        self.network_preference_label@
    }

    /// Whether names are matched by the compiled regex rather than by the
    /// simple wildcard rules.
    pub closed spec fn uses_regex(self) -> bool {
        self.warp_regex is Some
    }

    /// Well-formed: a compiled regex, when present, was built from the
    /// stored pattern.
    pub closed spec fn wf(self) -> bool {
        self.warp_regex matches Some(re) ==> regex_source(re) == self.warp_raw_pattern@
    }

    /// A name matches the warp pattern: by the regex when one was compiled,
    /// by the simple wildcard rules otherwise.
    pub open spec fn name_matches(self, name: Seq<char>) -> bool {
        if self.uses_regex() {
            regex_accepts(self.pattern(), name)
        } else {
            simple_pattern_matches(self.pattern(), name)
        }
    }

    /// Warp validation: with a preference label, the named network must be
    /// attached; without one, at least one network must be.
    pub open spec fn spec_warp_valid(self, c: ContainerInfoV) -> bool {
        if has_label(c.labels, self.preference_label_view()) {
            exists|i: int|
                0 <= i < c.networks.len() && c.networks[i].name == label_value(
                    c.labels,
                    self.preference_label_view(),
                )
        } else {
            c.networks.len() > 0
        }
    }

    /// The classification verdict on a container snapshot. A name that
    /// matches the warp pattern is warp or ignored, never target.
    pub open spec fn spec_classify(self, c: ContainerInfoV) -> ClassificationV {
        if self.name_matches(c.name) {
            if self.spec_warp_valid(c) {
                ClassificationV::Warp {
                    target_network: if has_label(c.labels, self.preference_label_view()) {
                        Some(label_value(c.labels, self.preference_label_view()))
                    } else {
                        None
                    },
                }
            } else {
                ClassificationV::Ignored
            }
        } else if has_label(c.labels, self.target_label_view()) && c.networks.len() > 0 {
            ClassificationV::Target {
                warp_target: label_value(c.labels, self.target_label_view()),
            }
        } else {
            ClassificationV::Ignored
        }
    }

    /// Build a classifier; the pattern is compiled as a regex exactly when it
    /// contains a regex metacharacter, and only a metacharacter pattern that
    /// does not compile is rejected.
    pub fn new(warp_pattern: String, target_label: String, network_preference_label: String) -> (r:
        Result<Self, regex::Error>)
        ensures
            r is Ok <==> (!has_meta(warp_pattern@) || regex_compiles(warp_pattern@)),
            r matches Ok(k) ==> {
                &&& k.wf()
                &&& k.pattern() == warp_pattern@
                &&& k.target_label_view() == target_label@
                &&& k.preference_label_view() == network_preference_label@
                &&& k.uses_regex() == has_meta(warp_pattern@)
            },
    {
        let warp_regex = if contains_meta(warp_pattern.as_str()) {
            match regex_new(warp_pattern.as_str()) {
                Ok(re) => Some(re),
                Err(e) => {
                    return Err(e);
                },
            }
        } else {
            None
        };
        Ok(
            DefaultContainerClassifier {
                warp_raw_pattern: warp_pattern,
                warp_regex,
                target_label,
                network_preference_label,
            },
        )
    }

    /// Build a classifier that always uses the simple wildcard rules.
    pub fn with_simple_pattern(
        warp_pattern: String,
        target_label: String,
        network_preference_label: String,
    ) -> (r: Self)
        ensures
            r.wf(),
            r.pattern() == warp_pattern@,
            r.target_label_view() == target_label@,
            r.preference_label_view() == network_preference_label@,
            !r.uses_regex(),
    {
        DefaultContainerClassifier {
            warp_raw_pattern: warp_pattern,
            warp_regex: None,
            target_label,
            network_preference_label,
        }
    }

    /// The label whose value names a warp container's preferred network.
    pub fn preference_label(&self) -> (r: &String)
        ensures
            r@ == self.preference_label_view(),
    {
        &self.network_preference_label
    }

    /// Match a name against the simple wildcard pattern rules.
    fn matches_simple_pattern(&self, name: &str) -> (r: bool)
        ensures
            r == simple_pattern_matches(self.pattern(), name@),
    {
        let p = self.warp_raw_pattern.as_str();
        let plen = p.unicode_len();
        if plen > 0 && p.get_char(plen - 1) == '*' {
            let prefix = p.substring_char(0, plen - 1);
            proof {
                assert(prefix@ =~= p@.drop_last());
            }
            str_starts_with(name, prefix)
        } else if plen > 0 && p.get_char(0) == '*' {
            let suffix = p.substring_char(1, plen);
            str_ends_with(name, suffix)
        } else if str_count_char(p, '*') == 1 {
            let i = match str_find(p, '*') {
                Some(i) => i,
                None => {
                    proof {
                        lemma_find_char_props(p@, '*');
                        lemma_count_zero(p@, '*');
                    }
                    0
                },
            };
            proof {
                lemma_find_char_props(p@, '*');
            }
            let front = p.substring_char(0, i);
            let back = p.substring_char(i + 1, plen);
            str_starts_with(name, front) && str_ends_with(name, back)
        } else {
            str_eq(name, p)
        }
    }

    /// Match a name against the warp pattern.
    fn matches_warp_pattern(&self, name: &str) -> (r: bool)
        requires
            self.wf(),
        ensures
            r == self.name_matches(name@),
    {
        match &self.warp_regex {
            Some(re) => regex_is_match(re, name),
            None => self.matches_simple_pattern(name),
        }
    }

    /// The container's name matches the warp pattern.
    pub fn is_warp_container(&self, container: &ContainerInfo) -> (r: bool)
        requires
            self.wf(),
        ensures
            r == self.name_matches(container@.name),
    {
        self.matches_warp_pattern(container.name.as_str())
    }

    /// The container carries the target label.
    pub fn is_target_container(&self, container: &ContainerInfo) -> (r: bool)
        ensures
            r == has_label(container@.labels, self.target_label_view()),
    {
        container.has_label_key(self.target_label.as_str())
    }

    /// The value of the container's target label, if present.
    pub fn extract_warp_target(&self, container: &ContainerInfo) -> (r: Option<String>)
        ensures
            match r {
                Some(v) => has_label(container@.labels, self.target_label_view()) && v@
                    == label_value(container@.labels, self.target_label_view()),
                None => !has_label(container@.labels, self.target_label_view()),
            },
    {
        match container.get_label(self.target_label.as_str()) {
            Some(v) => Some(v.clone()),
            None => None,
        }
    }

    /// The value of the container's network preference label, if present.
    pub fn extract_network_preference(&self, container: &ContainerInfo) -> (r: Option<String>)
        ensures
            match r {
                Some(v) => has_label(container@.labels, self.preference_label_view()) && v@
                    == label_value(container@.labels, self.preference_label_view()),
                None => !has_label(container@.labels, self.preference_label_view()),
            },
    {
        match container.get_label(self.network_preference_label.as_str()) {
            Some(v) => Some(v.clone()),
            None => None,
        }
    }

    /// Warp validation, as `spec_warp_valid` states it.
    fn validate_warp_container(&self, container: &ContainerInfo) -> (r: bool)
        ensures
            r == self.spec_warp_valid(container@),
    {
        match self.extract_network_preference(container) {
            Some(preferred) => {
                let n = container.networks.len();
                let mut i: usize = 0;
                while i < n
                    invariant
                        n == container.networks@.len(),
                        i <= n,
                        has_label(container@.labels, self.preference_label_view()),
                        preferred@ == label_value(container@.labels, self.preference_label_view()),
                        forall|j: int| 0 <= j < i ==> container@.networks[j].name != preferred@,
                    decreases n - i,
                {
                    if str_eq(container.networks[i].name.as_str(), preferred.as_str()) {
                        proof {
                            assert(container@.networks[i as int] == container.networks@[
                                i as int
                            ]@);
                            assert(container@.networks[i as int].name == label_value(
                                container@.labels,
                                self.preference_label_view(),
                            ));
                        }
                        return true;
                    }
                    i += 1;
                }
                proof {
                    if self.spec_warp_valid(container@) {
                        let w = choose|j: int|
                            0 <= j < container@.networks.len() && container@.networks[j].name
                                == label_value(
                                container@.labels,
                                self.preference_label_view(),
                            );
                        assert(container@.networks[w].name != preferred@);
                    }
                }
                false
            },
            None => container.networks.len() > 0,
        }
    }

    /// Classify a container. The verdict is a pure function of the snapshot
    /// and the classifier's configuration, as `spec_classify` states it.
    pub fn classify_container(&self, container: &ContainerInfo) -> (r: ContainerType)
        requires
            self.wf(),
        ensures
            match r {
                ContainerType::WarpContainer(info) => {
                    &&& self.spec_classify(container@) matches ClassificationV::Warp {
                        target_network,
                    }
                    &&& info.container@ == container@
                    &&& crate::rules::opt_str_view(info.target_network) == self.spec_classify(
                        container@,
                    )->Warp_target_network
                },
                ContainerType::TargetContainer(info) => {
                    &&& self.spec_classify(container@) matches ClassificationV::Target {
                        warp_target,
                    }
                    &&& info.container@ == container@
                    &&& info.warp_target@ == warp_target
                },
                ContainerType::Ignored => self.spec_classify(container@) is Ignored,
            },
    {
        if self.is_warp_container(container) {
            if self.validate_warp_container(container) {
                let target_network = self.extract_network_preference(container);
                return ContainerType::WarpContainer(
                    WarpContainerInfo {
                        container: clone_container_info(container),
                        target_network,
                    },
                );
            }
            return ContainerType::Ignored;
        }
        if self.is_target_container(container) && container.networks.len() > 0 {
            if let Some(warp_target) = self.extract_warp_target(container) {
                return ContainerType::TargetContainer(
                    TargetContainerInfo { container: clone_container_info(container), warp_target },
                );
            }
        }
        ContainerType::Ignored
    }
}

/// Warp exclusivity: a container whose name matches the warp pattern is never
/// classified as a target, whatever its labels.
pub proof fn lemma_warp_exclusivity(k: DefaultContainerClassifier, c: ContainerInfoV)
    requires
        k.name_matches(c.name),
    ensures
        !(k.spec_classify(c) is Target),
{
}

} // verus!
