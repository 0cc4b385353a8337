//! Indexing and retrieval: provider selection and the local/remote back ends.
use vstd::prelude::*;

use crate::text::{eq_lit, keyword, lemma_keyword_fixed, spec_keyword};

pub mod local_search;
pub mod query_terms;
pub mod symbols;
pub mod candidates;
pub mod local_store;
pub mod local_cache;
pub mod search_flow;
pub mod matching;
pub mod merging;
pub mod summary;
pub mod manager;

verus! {

/// Back end of `search_context`.
#[derive(Clone, Copy, Debug, PartialEq, Eq, Structural)]
pub enum SearchProviderKind {
    Remote,
    Local,
}

impl SearchProviderKind {
    /// The stable configuration name.
    pub open spec fn spec_name(self) -> Seq<char> {
        match self {
            SearchProviderKind::Remote => "remote"@,
            SearchProviderKind::Local => "local"@,
        }
    }

    /// What `parse` accepts: the trimmed, ASCII-lowercased value names a kind.
    pub open spec fn spec_parse(value: Seq<char>) -> Option<Self> {
        let k = spec_keyword(value);
        if k == "remote"@ {
            Some(SearchProviderKind::Remote)
        } else if k == "local"@ {
            Some(SearchProviderKind::Local)
        } else {
            None
        }
    }

    /// Parses a configuration value (surrounding whitespace and ASCII case are ignored).
    pub fn parse(value: &str) -> (r: Option<Self>)
        ensures
            r == Self::spec_parse(value@),
    {
        let k = keyword(value);
        if eq_lit(&k, "remote") {
            Some(SearchProviderKind::Remote)
        } else if eq_lit(&k, "local") {
            Some(SearchProviderKind::Local)
        } else {
            None
        }
    }

    /// The stable name, for logs and configuration.
    pub fn as_str(self) -> (s: &'static str)
        ensures
            s@ == self.spec_name(),
    {
        match self {
            SearchProviderKind::Remote => "remote",
            SearchProviderKind::Local => "local",
        }
    }
}

/// Answer mode of the local search.
#[derive(Clone, Copy, Debug, PartialEq, Eq, Structural)]
pub enum LocalSummaryMode {
    Gpt,
    LocalFallbackOnly,
}

impl LocalSummaryMode {
    pub open spec fn spec_name(self) -> Seq<char> {
        match self {
            LocalSummaryMode::Gpt => "gpt"@,
            LocalSummaryMode::LocalFallbackOnly => "local_fallback_only"@,
        }
    }

    pub open spec fn spec_parse(value: Seq<char>) -> Option<Self> {
        let k = spec_keyword(value);
        if k == "gpt"@ {
            Some(LocalSummaryMode::Gpt)
        } else if k == "local_fallback_only"@ {
            Some(LocalSummaryMode::LocalFallbackOnly)
        } else {
            None
        }
    }

    /// Parses a configuration value (surrounding whitespace and ASCII case are ignored).
    pub fn parse(value: &str) -> (r: Option<Self>)
        ensures
            r == Self::spec_parse(value@),
    {
        let k = keyword(value);
        if eq_lit(&k, "gpt") {
            Some(LocalSummaryMode::Gpt)
        } else if eq_lit(&k, "local_fallback_only") {
            Some(LocalSummaryMode::LocalFallbackOnly)
        } else {
            None
        }
    }

    /// The stable name, for logs and configuration.
    pub fn as_str(self) -> (s: &'static str)
        ensures
            s@ == self.spec_name(),
    {
        match self {
            LocalSummaryMode::Gpt => "gpt",
            LocalSummaryMode::LocalFallbackOnly => "local_fallback_only",
        }
    }
}

/// Rebuild policy of the local index.
#[derive(Clone, Copy, Debug, PartialEq, Eq, Structural)]
pub enum LocalIndexRebuildMode {
    Auto,
    ForceFull,
}

impl LocalIndexRebuildMode {
    pub open spec fn spec_name(self) -> Seq<char> {
        match self {
            LocalIndexRebuildMode::Auto => "auto"@,
            LocalIndexRebuildMode::ForceFull => "force_full"@,
        }
    }

    pub open spec fn spec_parse(value: Seq<char>) -> Option<Self> {
        let k = spec_keyword(value);
        if k == "auto"@ {
            Some(LocalIndexRebuildMode::Auto)
        } else if k == "force_full"@ {
            Some(LocalIndexRebuildMode::ForceFull)
        } else {
            None
        }
    }

    /// Parses a configuration value (surrounding whitespace and ASCII case are ignored).
    pub fn parse(value: &str) -> (r: Option<Self>)
        ensures
            r == Self::spec_parse(value@),
    {
        let k = keyword(value);
        if eq_lit(&k, "auto") {
            Some(LocalIndexRebuildMode::Auto)
        } else if eq_lit(&k, "force_full") {
            Some(LocalIndexRebuildMode::ForceFull)
        } else {
            None
        }
    }

    /// The stable name, for logs and configuration.
    pub fn as_str(self) -> (s: &'static str)
        ensures
            s@ == self.spec_name(),
    {
        match self {
            LocalIndexRebuildMode::Auto => "auto",
            LocalIndexRebuildMode::ForceFull => "force_full",
        }
    }
}

/// GPT re-ranking policy of the local search.
#[derive(Clone, Copy, Debug, PartialEq, Eq, Structural)]
pub enum LocalRerankMode {
    Off,
    BroadOnly,
}

impl LocalRerankMode {
    pub open spec fn spec_name(self) -> Seq<char> {
        match self {
            LocalRerankMode::Off => "off"@,
            LocalRerankMode::BroadOnly => "broad_only"@,
        }
    }

    pub open spec fn spec_parse(value: Seq<char>) -> Option<Self> {
        let k = spec_keyword(value);
        if k == "off"@ {
            Some(LocalRerankMode::Off)
        } else if k == "broad_only"@ {
            Some(LocalRerankMode::BroadOnly)
        } else {
            None
        }
    }

    /// Parses a configuration value (surrounding whitespace and ASCII case are ignored).
    pub fn parse(value: &str) -> (r: Option<Self>)
        ensures
            r == Self::spec_parse(value@),
    {
        let k = keyword(value);
        if eq_lit(&k, "off") {
            Some(LocalRerankMode::Off)
        } else if eq_lit(&k, "broad_only") {
            Some(LocalRerankMode::BroadOnly)
        } else {
            None
        }
    }

    /// The stable name, for logs and configuration.
    pub fn as_str(self) -> (s: &'static str)
        ensures
            s@ == self.spec_name(),
    {
        match self {
            LocalRerankMode::Off => "off",
            LocalRerankMode::BroadOnly => "broad_only",
        }
    }
}

/// Parsing the stable name of a search provider gives the provider back.
pub proof fn law_search_provider_name_round_trip(k: SearchProviderKind)
    ensures
        SearchProviderKind::spec_parse(k.spec_name()) == Some(k),
{
    reveal_strlit("remote");
    reveal_strlit("local");
    lemma_keyword_fixed(k.spec_name());
}

/// Parsing the stable name of a summary mode gives the mode back.
pub proof fn law_summary_mode_name_round_trip(k: LocalSummaryMode)
    ensures
        LocalSummaryMode::spec_parse(k.spec_name()) == Some(k),
{
    reveal_strlit("gpt");
    reveal_strlit("local_fallback_only");
    lemma_keyword_fixed(k.spec_name());
}

/// Parsing the stable name of a rebuild mode gives the mode back.
pub proof fn law_rebuild_mode_name_round_trip(k: LocalIndexRebuildMode)
    ensures
        LocalIndexRebuildMode::spec_parse(k.spec_name()) == Some(k),
{
    reveal_strlit("auto");
    reveal_strlit("force_full");
    lemma_keyword_fixed(k.spec_name());
}

/// Parsing the stable name of a rerank mode gives the mode back.
pub proof fn law_rerank_mode_name_round_trip(k: LocalRerankMode)
    ensures
        LocalRerankMode::spec_parse(k.spec_name()) == Some(k),
{
    reveal_strlit("off");
    reveal_strlit("broad_only");
    lemma_keyword_fixed(k.spec_name());
}

} // verus!
