//! The kinds of prompt-enhancement provider.
use vstd::prelude::*;

use crate::text::{eq_lit, keyword, lemma_keyword_fixed, spec_keyword};

verus! {

/// Which service enhances prompts.
#[derive(Clone, Copy, Debug, PartialEq, Eq, Structural)]
pub enum EnhanceProviderKind {
    Remote,
    Codex,
}

impl EnhanceProviderKind {
    /// The stable configuration name.
    pub open spec fn spec_name(self) -> Seq<char> {
        match self {
            EnhanceProviderKind::Remote => "remote"@,
            EnhanceProviderKind::Codex => "codex"@,
        }
    }

    /// What `parse` accepts: the trimmed, ASCII-lowercased value names a kind.
    pub open spec fn spec_parse(value: Seq<char>) -> Option<Self> {
        let k = spec_keyword(value);
        if k == "remote"@ {
            Some(EnhanceProviderKind::Remote)
        } else if k == "codex"@ {
            Some(EnhanceProviderKind::Codex)
        } else {
            None
        }
    }

    /// Parses a configuration value (surrounding whitespace and ASCII case are ignored).
    pub fn parse(value: &str) -> (r: Option<Self>)
        ensures
            r == Self::spec_parse(value@),
    {
        let k = keyword(value);
        if eq_lit(&k, "remote") {
            Some(EnhanceProviderKind::Remote)
        } else if eq_lit(&k, "codex") {
            Some(EnhanceProviderKind::Codex)
        } else {
            None
        }
    }

    /// The stable name, for logs and configuration.
    pub fn as_str(&self) -> (s: &'static str)
        ensures
            s@ == self.spec_name(),
    {
        match self {
            EnhanceProviderKind::Remote => "remote",
            EnhanceProviderKind::Codex => "codex",
        }
    }
}

/// Parsing the stable name of a provider kind gives the kind back.
pub proof fn law_enhance_provider_name_round_trip(k: EnhanceProviderKind)
    ensures
        EnhanceProviderKind::spec_parse(k.spec_name()) == Some(k),
{
    reveal_strlit("remote");
    reveal_strlit("codex");
    lemma_keyword_fixed(k.spec_name());
}

} // verus!
