//! Run-time configuration: command line, configuration files, environment and defaults, in
//! that order of priority.
use vstd::prelude::*;

use crate::enhancer::codex_provider::{spec_trim_end_slashes, trim_end_slashes};
use crate::enhancer::provider::EnhanceProviderKind;
use crate::index::{LocalIndexRebuildMode, LocalRerankMode, LocalSummaryMode, SearchProviderKind};
use crate::text::{
    push_lit, append_chars, chars_eq, copy_chars, eq_lit, keyword, lit, parse_decimal, slice_chars,
    spec_keyword, spec_parse_nat, spec_split, spec_starts_with, spec_trim, split_char,
    starts_with, string_from_chars, string_views, to_chars, to_strings, trim, views,
};

verus! {

/// Settings read from a `config.json` (user level, then project level); every field is
/// optional and an absent one leaves the decision to the next source.
pub struct FileConfig {
    pub base_url: Option<String>,
    pub token: Option<String>,
    pub batch_size: Option<usize>,
    pub max_lines_per_blob: Option<usize>,
    pub text_extensions: Option<Vec<String>>,
    pub exclude_patterns: Option<Vec<String>>,
    pub enable_log: Option<bool>,
    pub search_provider: Option<String>,
    pub enhance_provider: Option<String>,
    pub codex_api_base: Option<String>,
    pub codex_api_key: Option<String>,
    pub codex_model: Option<String>,
    pub codex_reasoning_effort: Option<String>,
    pub debug: Option<bool>,
    pub debug_verbose: Option<bool>,
    pub debug_file: Option<String>,
    pub local_summary_mode: Option<String>,
    pub local_index_rebuild: Option<String>,
    pub local_rerank_mode: Option<String>,
    pub local_rerank_pool_size: Option<usize>,
    pub local_rerank_timeout_sec: Option<u64>,
    pub local_rerank_model: Option<String>,
    pub search_timeout_sec: Option<u64>,
    pub enhance_timeout_sec: Option<u64>,
    pub ui_timeout_sec: Option<u64>,
}

impl Default for FileConfig {
    fn default() -> (r: Self)
        ensures
            r == spec_empty_file_config(),
    {
        FileConfig {
            base_url: None,
            token: None,
            batch_size: None,
            max_lines_per_blob: None,
            text_extensions: None,
            exclude_patterns: None,
            enable_log: None,
            search_provider: None,
            enhance_provider: None,
            codex_api_base: None,
            codex_api_key: None,
            codex_model: None,
            codex_reasoning_effort: None,
            debug: None,
            debug_verbose: None,
            debug_file: None,
            local_summary_mode: None,
            local_index_rebuild: None,
            local_rerank_mode: None,
            local_rerank_pool_size: None,
            local_rerank_timeout_sec: None,
            local_rerank_model: None,
            search_timeout_sec: None,
            enhance_timeout_sec: None,
            ui_timeout_sec: None,
        }
    }
}

/// The configuration with no field set.
pub open spec fn spec_empty_file_config() -> FileConfig {
    FileConfig {
        base_url: None,
        token: None,
        batch_size: None,
        max_lines_per_blob: None,
        text_extensions: None,
        exclude_patterns: None,
        enable_log: None,
        search_provider: None,
        enhance_provider: None,
        codex_api_base: None,
        codex_api_key: None,
        codex_model: None,
        codex_reasoning_effort: None,
        debug: None,
        debug_verbose: None,
        debug_file: None,
        local_summary_mode: None,
        local_index_rebuild: None,
        local_rerank_mode: None,
        local_rerank_pool_size: None,
        local_rerank_timeout_sec: None,
        local_rerank_model: None,
        search_timeout_sec: None,
        enhance_timeout_sec: None,
        ui_timeout_sec: None,
    }
}

/// `higher` where it sets a field, `lower` elsewhere.
pub open spec fn spec_prefer<T>(lower: Option<T>, higher: Option<T>) -> Option<T> {
    if higher is Some {
        higher
    } else {
        lower
    }
}

/// Field by field, the value of `higher` where it has one, else that of `lower`.
pub open spec fn spec_merge(lower: FileConfig, higher: FileConfig) -> FileConfig {
    FileConfig {
        base_url: spec_prefer(lower.base_url, higher.base_url),
        token: spec_prefer(lower.token, higher.token),
        batch_size: spec_prefer(lower.batch_size, higher.batch_size),
        max_lines_per_blob: spec_prefer(lower.max_lines_per_blob, higher.max_lines_per_blob),
        text_extensions: spec_prefer(lower.text_extensions, higher.text_extensions),
        exclude_patterns: spec_prefer(lower.exclude_patterns, higher.exclude_patterns),
        enable_log: spec_prefer(lower.enable_log, higher.enable_log),
        search_provider: spec_prefer(lower.search_provider, higher.search_provider),
        enhance_provider: spec_prefer(lower.enhance_provider, higher.enhance_provider),
        codex_api_base: spec_prefer(lower.codex_api_base, higher.codex_api_base),
        codex_api_key: spec_prefer(lower.codex_api_key, higher.codex_api_key),
        codex_model: spec_prefer(lower.codex_model, higher.codex_model),
        codex_reasoning_effort: spec_prefer(lower.codex_reasoning_effort, higher.codex_reasoning_effort),
        debug: spec_prefer(lower.debug, higher.debug),
        debug_verbose: spec_prefer(lower.debug_verbose, higher.debug_verbose),
        debug_file: spec_prefer(lower.debug_file, higher.debug_file),
        local_summary_mode: spec_prefer(lower.local_summary_mode, higher.local_summary_mode),
        local_index_rebuild: spec_prefer(lower.local_index_rebuild, higher.local_index_rebuild),
        local_rerank_mode: spec_prefer(lower.local_rerank_mode, higher.local_rerank_mode),
        local_rerank_pool_size: spec_prefer(lower.local_rerank_pool_size, higher.local_rerank_pool_size),
        local_rerank_timeout_sec: spec_prefer(lower.local_rerank_timeout_sec, higher.local_rerank_timeout_sec),
        local_rerank_model: spec_prefer(lower.local_rerank_model, higher.local_rerank_model),
        search_timeout_sec: spec_prefer(lower.search_timeout_sec, higher.search_timeout_sec),
        enhance_timeout_sec: spec_prefer(lower.enhance_timeout_sec, higher.enhance_timeout_sec),
        ui_timeout_sec: spec_prefer(lower.ui_timeout_sec, higher.ui_timeout_sec),
    }
}

/// Replaces `current` by `higher_priority` when that holds a value.
pub fn merge_option<T>(current: &mut Option<T>, higher_priority: Option<T>)
    ensures
        *final(current) == spec_prefer(*old(current), higher_priority),
{
    if higher_priority.is_some() {
        *current = higher_priority;
    }
}

impl FileConfig {
    /// Overlays a configuration of higher priority: each field it sets wins.
    pub fn merge_from(&mut self, higher_priority: FileConfig)
        ensures
            *final(self) == spec_merge(*old(self), higher_priority),
    {
        merge_option(&mut self.base_url, higher_priority.base_url);
        merge_option(&mut self.token, higher_priority.token);
        merge_option(&mut self.batch_size, higher_priority.batch_size);
        merge_option(&mut self.max_lines_per_blob, higher_priority.max_lines_per_blob);
        merge_option(&mut self.text_extensions, higher_priority.text_extensions);
        merge_option(&mut self.exclude_patterns, higher_priority.exclude_patterns);
        merge_option(&mut self.enable_log, higher_priority.enable_log);
        merge_option(&mut self.search_provider, higher_priority.search_provider);
        merge_option(&mut self.enhance_provider, higher_priority.enhance_provider);
        merge_option(&mut self.codex_api_base, higher_priority.codex_api_base);
        merge_option(&mut self.codex_api_key, higher_priority.codex_api_key);
        merge_option(&mut self.codex_model, higher_priority.codex_model);
        merge_option(&mut self.codex_reasoning_effort, higher_priority.codex_reasoning_effort);
        merge_option(&mut self.debug, higher_priority.debug);
        merge_option(&mut self.debug_verbose, higher_priority.debug_verbose);
        merge_option(&mut self.debug_file, higher_priority.debug_file);
        merge_option(&mut self.local_summary_mode, higher_priority.local_summary_mode);
        merge_option(&mut self.local_index_rebuild, higher_priority.local_index_rebuild);
        merge_option(&mut self.local_rerank_mode, higher_priority.local_rerank_mode);
        merge_option(&mut self.local_rerank_pool_size, higher_priority.local_rerank_pool_size);
        merge_option(&mut self.local_rerank_timeout_sec, higher_priority.local_rerank_timeout_sec);
        merge_option(&mut self.local_rerank_model, higher_priority.local_rerank_model);
        merge_option(&mut self.search_timeout_sec, higher_priority.search_timeout_sec);
        merge_option(&mut self.enhance_timeout_sec, higher_priority.enhance_timeout_sec);
        merge_option(&mut self.ui_timeout_sec, higher_priority.ui_timeout_sec);
    }
}

/// The command line, read leniently: a flag without its value is ignored, an unparsable
/// number is treated as absent.
pub struct ParsedArgs {
    pub project_root_path: Option<String>,
    pub base_url: Option<String>,
    pub token: Option<String>,
    pub batch_size: Option<usize>,
    pub max_lines_per_blob: Option<usize>,
    pub enable_log: Option<bool>,
    pub search_provider: Option<String>,
    pub enhance_provider: Option<String>,
    pub codex_api_base: Option<String>,
    pub codex_api_key: Option<String>,
    pub codex_model: Option<String>,
    pub codex_reasoning_effort: Option<String>,
    pub debug: Option<bool>,
    pub debug_verbose: Option<bool>,
    pub debug_file: Option<String>,
    pub local_summary_mode: Option<String>,
    pub local_index_rebuild: Option<String>,
    pub local_rerank_mode: Option<String>,
    pub local_rerank_pool_size: Option<usize>,
    pub local_rerank_timeout_sec: Option<u64>,
    pub local_rerank_model: Option<String>,
    pub search_timeout_sec: Option<u64>,
    pub enhance_timeout_sec: Option<u64>,
    pub ui_timeout_sec: Option<u64>,
}

/// Command-line arguments with nothing set.
pub open spec fn spec_empty_args() -> ParsedArgs {
    ParsedArgs {
        project_root_path: None,
        base_url: None,
        token: None,
        batch_size: None,
        max_lines_per_blob: None,
        enable_log: None,
        search_provider: None,
        enhance_provider: None,
        codex_api_base: None,
        codex_api_key: None,
        codex_model: None,
        codex_reasoning_effort: None,
        debug: None,
        debug_verbose: None,
        debug_file: None,
        local_summary_mode: None,
        local_index_rebuild: None,
        local_rerank_mode: None,
        local_rerank_pool_size: None,
        local_rerank_timeout_sec: None,
        local_rerank_model: None,
        search_timeout_sec: None,
        enhance_timeout_sec: None,
        ui_timeout_sec: None,
    }
}

/// Flags that take no value.
pub open spec fn spec_switch_flag(a: Seq<char>) -> bool {
    a == "--enable-log"@ || a == "--debug"@ || a == "--debug-verbose"@
}

/// Flags followed by a value.
pub open spec fn spec_value_flag(a: Seq<char>) -> bool {
    a == "--project-root"@ || a == "--project-root-path"@
        || a == "--base-url"@
        || a == "--token"@
        || a == "--search-provider"@
        || a == "--provider"@
        || a == "--codex-api-base"@
        || a == "--codex-api-key"@
        || a == "--codex-model"@
        || a == "--codex-reasoning-effort"@
        || a == "--debug-file"@
        || a == "--local-summary-mode"@
        || a == "--local-index-rebuild"@
        || a == "--local-rerank-mode"@
        || a == "--local-rerank-model"@
        || a == "--batch-size"@ || a == "--max-lines-per-blob"@ || a == "--local-rerank-pool-size"@ || a == "--local-rerank-timeout-sec"@ || a == "--search-timeout-sec"@ || a == "--enhance-timeout-sec"@ || a == "--ui-timeout-sec"@
}

/// A number flag's value: trimmed and read as `str::parse` reads an unsigned integer no larger
/// than `max`; `None` when it is not one.
pub open spec fn spec_parse_bounded(v: Seq<char>, max: int) -> Option<nat> {
    match spec_parse_nat(spec_trim(v)) {
        Some(n) => if n <= max {
            Some(n)
        } else {
            None
        },
        None => None,
    }
}

pub open spec fn spec_parse_usize(v: Seq<char>) -> Option<usize> {
    match spec_parse_bounded(v, usize::MAX as int) {
        Some(n) => Some(n as usize),
        None => None,
    }
}

pub open spec fn spec_parse_u64(v: Seq<char>) -> Option<u64> {
    match spec_parse_bounded(v, u64::MAX as int) {
        Some(n) => Some(n as u64),
        None => None,
    }
}

/// The arguments after a switch.
pub open spec fn spec_with_switch(acc: ParsedArgs, flag: Seq<char>) -> ParsedArgs {
    if flag == "--enable-log"@ {
        ParsedArgs { enable_log: Some(true), ..acc }
    } else if flag == "--debug"@ {
        ParsedArgs { debug: Some(true), ..acc }
    } else if flag == "--debug-verbose"@ {
        ParsedArgs { debug_verbose: Some(true), ..acc }
    } else {
        acc
    }
}

/// The arguments after a flag with its value.
pub open spec fn spec_with_value(acc: ParsedArgs, flag: Seq<char>, value: String) -> ParsedArgs {
    if flag == "--project-root"@ || flag == "--project-root-path"@ {
        ParsedArgs { project_root_path: Some(value), ..acc }
    } else if flag == "--base-url"@ {
        ParsedArgs { base_url: Some(value), ..acc }
    } else if flag == "--token"@ {
        ParsedArgs { token: Some(value), ..acc }
    } else if flag == "--search-provider"@ {
        ParsedArgs { search_provider: Some(value), ..acc }
    } else if flag == "--provider"@ {
        ParsedArgs { enhance_provider: Some(value), ..acc }
    } else if flag == "--codex-api-base"@ {
        ParsedArgs { codex_api_base: Some(value), ..acc }
    } else if flag == "--codex-api-key"@ {
        ParsedArgs { codex_api_key: Some(value), ..acc }
    } else if flag == "--codex-model"@ {
        ParsedArgs { codex_model: Some(value), ..acc }
    } else if flag == "--codex-reasoning-effort"@ {
        ParsedArgs { codex_reasoning_effort: Some(value), ..acc }
    } else if flag == "--debug-file"@ {
        ParsedArgs { debug_file: Some(value), ..acc }
    } else if flag == "--local-summary-mode"@ {
        ParsedArgs { local_summary_mode: Some(value), ..acc }
    } else if flag == "--local-index-rebuild"@ {
        ParsedArgs { local_index_rebuild: Some(value), ..acc }
    } else if flag == "--local-rerank-mode"@ {
        ParsedArgs { local_rerank_mode: Some(value), ..acc }
    } else if flag == "--local-rerank-model"@ {
        ParsedArgs { local_rerank_model: Some(value), ..acc }
    } else if flag == "--batch-size"@ {
        ParsedArgs { batch_size: spec_parse_usize(value@), ..acc }
    } else if flag == "--max-lines-per-blob"@ {
        ParsedArgs { max_lines_per_blob: spec_parse_usize(value@), ..acc }
    } else if flag == "--local-rerank-pool-size"@ {
        ParsedArgs { local_rerank_pool_size: spec_parse_usize(value@), ..acc }
    } else if flag == "--local-rerank-timeout-sec"@ {
        ParsedArgs { local_rerank_timeout_sec: spec_parse_u64(value@), ..acc }
    } else if flag == "--search-timeout-sec"@ {
        ParsedArgs { search_timeout_sec: spec_parse_u64(value@), ..acc }
    } else if flag == "--enhance-timeout-sec"@ {
        ParsedArgs { enhance_timeout_sec: spec_parse_u64(value@), ..acc }
    } else if flag == "--ui-timeout-sec"@ {
        ParsedArgs { ui_timeout_sec: spec_parse_u64(value@), ..acc }
    } else {
        acc
    }
}

/// The arguments from position `i` on, read into `acc`.
pub open spec fn spec_parse_args_from(args: Seq<String>, i: int, acc: ParsedArgs) -> ParsedArgs
    decreases args.len() - i,
{
    if i < 0 || i >= args.len() {
        acc
    } else if spec_switch_flag(args[i]@) {
        spec_parse_args_from(args, i + 1, spec_with_switch(acc, args[i]@))
    } else if spec_value_flag(args[i]@) {
        if i + 1 < args.len() {
            spec_parse_args_from(args, i + 2, spec_with_value(acc, args[i]@, args[i + 1]))
        } else {
            acc
        }
    } else {
        spec_parse_args_from(args, i + 1, acc)
    }
}

pub open spec fn spec_parse_args(args: Seq<String>) -> ParsedArgs {
    spec_parse_args_from(args, 0, spec_empty_args())
}

fn is_switch_flag(a: &Vec<char>) -> (b: bool)
    ensures
        b == spec_switch_flag(a@),
{
    eq_lit(a, "--enable-log") || eq_lit(a, "--debug") || eq_lit(a, "--debug-verbose")
}

fn is_value_flag(a: &Vec<char>) -> (b: bool)
    ensures
        b == spec_value_flag(a@),
{
    eq_lit(a, "--project-root") || eq_lit(a, "--project-root-path")
        || eq_lit(a, "--base-url")
        || eq_lit(a, "--token")
        || eq_lit(a, "--search-provider")
        || eq_lit(a, "--provider")
        || eq_lit(a, "--codex-api-base")
        || eq_lit(a, "--codex-api-key")
        || eq_lit(a, "--codex-model")
        || eq_lit(a, "--codex-reasoning-effort")
        || eq_lit(a, "--debug-file")
        || eq_lit(a, "--local-summary-mode")
        || eq_lit(a, "--local-index-rebuild")
        || eq_lit(a, "--local-rerank-mode")
        || eq_lit(a, "--local-rerank-model")
        || eq_lit(a, "--batch-size") || eq_lit(a, "--max-lines-per-blob") || eq_lit(a, "--local-rerank-pool-size") || eq_lit(a, "--local-rerank-timeout-sec") || eq_lit(a, "--search-timeout-sec") || eq_lit(a, "--enhance-timeout-sec") || eq_lit(a, "--ui-timeout-sec")
}

fn parse_usize_value(v: &String) -> (r: Option<usize>)
    ensures
        r == spec_parse_usize(v@),
{
    let c = to_chars(v.as_str());
    let t = trim(&c);
    match parse_decimal(&t, usize::MAX as u64) {
        Some(n) => Some(n as usize),
        None => None,
    }
}

fn parse_u64_value(v: &String) -> (r: Option<u64>)
    ensures
        r == spec_parse_u64(v@),
{
    let c = to_chars(v.as_str());
    let t = trim(&c);
    parse_decimal(&t, u64::MAX)
}

fn apply_switch(acc: &mut ParsedArgs, flag: &Vec<char>)
    ensures
        *final(acc) == spec_with_switch(*old(acc), flag@),
{
    if eq_lit(flag, "--enable-log") {
        acc.enable_log = Some(true);
    } else if eq_lit(flag, "--debug") {
        acc.debug = Some(true);
    } else if eq_lit(flag, "--debug-verbose") {
        acc.debug_verbose = Some(true);
    }
}

fn apply_value(acc: &mut ParsedArgs, flag: &Vec<char>, value: &String)
    ensures
        *final(acc) == spec_with_value(*old(acc), flag@, *value),
{
    if eq_lit(flag, "--project-root") || eq_lit(flag, "--project-root-path") {
        acc.project_root_path = Some(value.clone());
    } else if eq_lit(flag, "--base-url") {
        acc.base_url = Some(value.clone());
    } else if eq_lit(flag, "--token") {
        acc.token = Some(value.clone());
    } else if eq_lit(flag, "--search-provider") {
        acc.search_provider = Some(value.clone());
    } else if eq_lit(flag, "--provider") {
        acc.enhance_provider = Some(value.clone());
    } else if eq_lit(flag, "--codex-api-base") {
        acc.codex_api_base = Some(value.clone());
    } else if eq_lit(flag, "--codex-api-key") {
        acc.codex_api_key = Some(value.clone());
    } else if eq_lit(flag, "--codex-model") {
        acc.codex_model = Some(value.clone());
    } else if eq_lit(flag, "--codex-reasoning-effort") {
        acc.codex_reasoning_effort = Some(value.clone());
    } else if eq_lit(flag, "--debug-file") {
        acc.debug_file = Some(value.clone());
    } else if eq_lit(flag, "--local-summary-mode") {
        acc.local_summary_mode = Some(value.clone());
    } else if eq_lit(flag, "--local-index-rebuild") {
        acc.local_index_rebuild = Some(value.clone());
    } else if eq_lit(flag, "--local-rerank-mode") {
        acc.local_rerank_mode = Some(value.clone());
    } else if eq_lit(flag, "--local-rerank-model") {
        acc.local_rerank_model = Some(value.clone());
    } else if eq_lit(flag, "--batch-size") {
        acc.batch_size = parse_usize_value(value);
    } else if eq_lit(flag, "--max-lines-per-blob") {
        acc.max_lines_per_blob = parse_usize_value(value);
    } else if eq_lit(flag, "--local-rerank-pool-size") {
        acc.local_rerank_pool_size = parse_usize_value(value);
    } else if eq_lit(flag, "--local-rerank-timeout-sec") {
        acc.local_rerank_timeout_sec = parse_u64_value(value);
    } else if eq_lit(flag, "--search-timeout-sec") {
        acc.search_timeout_sec = parse_u64_value(value);
    } else if eq_lit(flag, "--enhance-timeout-sec") {
        acc.enhance_timeout_sec = parse_u64_value(value);
    } else if eq_lit(flag, "--ui-timeout-sec") {
        acc.ui_timeout_sec = parse_u64_value(value);
    }
}

impl ParsedArgs {
    /// Arguments with nothing set.
    pub fn empty() -> (r: Self)
        ensures
            r == spec_empty_args(),
    {
        ParsedArgs {
            project_root_path: None,
            base_url: None,
            token: None,
            batch_size: None,
            max_lines_per_blob: None,
            enable_log: None,
            search_provider: None,
            enhance_provider: None,
            codex_api_base: None,
            codex_api_key: None,
            codex_model: None,
            codex_reasoning_effort: None,
            debug: None,
            debug_verbose: None,
            debug_file: None,
            local_summary_mode: None,
            local_index_rebuild: None,
            local_rerank_mode: None,
            local_rerank_pool_size: None,
            local_rerank_timeout_sec: None,
            local_rerank_model: None,
            search_timeout_sec: None,
            enhance_timeout_sec: None,
            ui_timeout_sec: None,
        }
    }
}

/// Reads the command-line arguments (without the program name). Unknown arguments are
/// skipped; a value flag takes the next argument whatever it is.
pub fn parse_args(args: &Vec<String>) -> (r: ParsedArgs)
    ensures
        r == spec_parse_args(args@),
{
    let mut result = ParsedArgs::empty();
    let mut i: usize = 0;
    while i < args.len()
        invariant
            i <= args.len() + 1,
            spec_parse_args(args@) == spec_parse_args_from(args@, i as int, result),
        decreases args.len() + 1 - i,
    {
        let a = to_chars(args[i].as_str());
        if is_switch_flag(&a) {
            apply_switch(&mut result, &a);
            i += 1;
        } else if is_value_flag(&a) {
            if i + 1 < args.len() {
                apply_value(&mut result, &a, &args[i + 1]);
                i += 2;
            } else {
                return result;
            }
        } else {
            i += 1;
        }
    }
    result
}

/// The first candidate that is not blank, trimmed.
pub open spec fn spec_first_nonblank(
    cli: Option<Seq<char>>,
    file: Option<Seq<char>>,
    env: Option<Seq<char>>,
) -> Option<Seq<char>> {
    if cli is Some && spec_trim(cli->0).len() > 0 {
        Some(spec_trim(cli->0))
    } else if file is Some && spec_trim(file->0).len() > 0 {
        Some(spec_trim(file->0))
    } else if env is Some && spec_trim(env->0).len() > 0 {
        Some(spec_trim(env->0))
    } else {
        None
    }
}

pub open spec fn spec_opt_str(o: Option<&str>) -> Option<Seq<char>> {
    match o {
        Some(s) => Some(s@),
        None => None,
    }
}

pub open spec fn spec_opt_string(o: Option<String>) -> Option<Seq<char>> {
    match o {
        Some(s) => Some(s@),
        None => None,
    }
}

fn nonblank_trimmed(v: Option<&str>) -> (r: Option<Vec<char>>)
    ensures
        r matches Some(t) ==> v matches Some(s) && t@ == spec_trim(s@) && t@.len() > 0,
        r is None ==> !(v matches Some(s) && spec_trim(s@).len() > 0),
{
    match v {
        Some(s) => {
            let c = to_chars(s);
            let t = trim(&c);
            if t.len() > 0 {
                Some(t)
            } else {
                None
            }
        },
        None => None,
    }
}

/// A string setting from the command line, the configuration file or the environment, in
/// that order of priority, trimmed; blank values count as absent.
pub fn resolve_optional_string(
    cli_value: Option<String>,
    file_value: Option<&str>,
    env_value: Option<&str>,
) -> (r: Option<String>)
    ensures
        spec_opt_string(r) == spec_first_nonblank(
            spec_opt_string(cli_value),
            spec_opt_str(file_value),
            spec_opt_str(env_value),
        ),
{
    let cli = match &cli_value {
        Some(s) => nonblank_trimmed(Some(s.as_str())),
        None => None,
    };
    if let Some(t) = cli {
        return Some(string_from_chars(t.as_slice()));
    }
    if let Some(t) = nonblank_trimmed(file_value) {
        return Some(string_from_chars(t.as_slice()));
    }
    if let Some(t) = nonblank_trimmed(env_value) {
        return Some(string_from_chars(t.as_slice()));
    }
    None
}

/// Like `resolve_optional_string`, with `default` when no source gives a value.
pub fn resolve_string(
    cli_value: Option<String>,
    file_value: Option<&str>,
    env_value: Option<&str>,
    default: &str,
) -> (r: String)
    ensures
        r@ == match spec_first_nonblank(
            spec_opt_string(cli_value),
            spec_opt_str(file_value),
            spec_opt_str(env_value),
        ) {
            Some(v) => v,
            None => default@,
        },
{
    match resolve_optional_string(cli_value, file_value, env_value) {
        Some(v) => v,
        None => default.to_owned(),
    }
}

/// The first candidate inside `min..=max`: command line, then file, then the environment
/// value read as an unsigned integer.
pub open spec fn spec_resolve_number(
    cli: Option<nat>,
    file: Option<nat>,
    env: Option<Seq<char>>,
    min: int,
    max: int,
    limit: int,
) -> Option<nat> {
    if cli matches Some(c) && min <= c <= max {
        cli
    } else if file matches Some(f) && min <= f <= max {
        file
    } else if env is Some && spec_parse_bounded(env->0, limit) is Some && min <= spec_parse_bounded(
        env->0,
        limit,
    )->0 <= max {
        spec_parse_bounded(env->0, limit)
    } else {
        None
    }
}

/// A numeric setting follows the precedence command line > configuration file > environment
/// > default: a command-line value inside `min..=max` wins; otherwise a file value inside the
/// range wins whatever the environment holds; the environment is read only when neither is
/// usable; and whatever is chosen lies inside the range.
pub proof fn law_number_precedence(
    cli: Option<nat>,
    file: Option<nat>,
    env: Option<Seq<char>>,
    min: int,
    max: int,
    limit: int,
)
    ensures
        (cli matches Some(c) && min <= c <= max) ==> spec_resolve_number(cli, file, env, min, max, limit)
            == cli,
        !(cli matches Some(c) && min <= c <= max) && (file matches Some(f) && min <= f <= max)
            ==> spec_resolve_number(cli, file, env, min, max, limit) == file,
        forall|e2: Option<Seq<char>>|
            (file matches Some(f) && min <= f <= max) ==> #[trigger] spec_resolve_number(
                cli,
                file,
                e2,
                min,
                max,
                limit,
            ) == spec_resolve_number(cli, file, env, min, max, limit),
        spec_resolve_number(cli, file, env, min, max, limit) matches Some(v) ==> min <= v <= max,
        env is None && !(cli matches Some(c) && min <= c <= max) && !(file matches Some(f) && min
            <= f <= max) ==> spec_resolve_number(cli, file, env, min, max, limit) is None,
{
}

pub open spec fn spec_opt_u64(o: Option<u64>) -> Option<nat> {
    match o {
        Some(v) => Some(v as nat),
        None => None,
    }
}

pub open spec fn spec_opt_usize(o: Option<usize>) -> Option<nat> {
    match o {
        Some(v) => Some(v as nat),
        None => None,
    }
}

/// A `u64` setting in `min..=max` from the first source that gives one, if any.
pub fn resolve_u64_override(
    cli_value: Option<u64>,
    file_value: Option<u64>,
    env_value: Option<&str>,
    min: u64,
    max: u64,
) -> (r: Option<u64>)
    ensures
        spec_opt_u64(r) == spec_resolve_number(
            spec_opt_u64(cli_value),
            spec_opt_u64(file_value),
            spec_opt_str(env_value),
            min as int,
            max as int,
            u64::MAX as int,
        ),
{
    if let Some(v) = cli_value {
        if v >= min && v <= max {
            return Some(v);
        }
    }
    if let Some(v) = file_value {
        if v >= min && v <= max {
            return Some(v);
        }
    }
    if let Some(e) = env_value {
        let c = to_chars(e);
        let t = trim(&c);
        if let Some(v) = parse_decimal(&t, u64::MAX) {
            if v >= min && v <= max {
                return Some(v);
            }
        }
    }
    None
}

/// A `u64` setting in `min..=max`, or `default`.
pub fn resolve_u64(
    cli_value: Option<u64>,
    file_value: Option<u64>,
    env_value: Option<&str>,
    default: u64,
    min: u64,
    max: u64,
) -> (r: u64)
    ensures
        r == match spec_resolve_number(
            spec_opt_u64(cli_value),
            spec_opt_u64(file_value),
            spec_opt_str(env_value),
            min as int,
            max as int,
            u64::MAX as int,
        ) {
            Some(v) => v,
            None => default as nat,
        },
{
    match resolve_u64_override(cli_value, file_value, env_value, min, max) {
        Some(v) => v,
        None => default,
    }
}

/// A `usize` setting in `min..=max`, or `default`.
pub fn resolve_usize(
    cli_value: Option<usize>,
    file_value: Option<usize>,
    env_value: Option<&str>,
    default: usize,
    min: usize,
    max: usize,
) -> (r: usize)
    ensures
        r == match spec_resolve_number(
            spec_opt_usize(cli_value),
            spec_opt_usize(file_value),
            spec_opt_str(env_value),
            min as int,
            max as int,
            usize::MAX as int,
        ) {
            Some(v) => v,
            None => default as nat,
        },
{
    if let Some(v) = cli_value {
        if v >= min && v <= max {
            return v;
        }
    }
    if let Some(v) = file_value {
        if v >= min && v <= max {
            return v;
        }
    }
    if let Some(e) = env_value {
        let c = to_chars(e);
        let t = trim(&c);
        if let Some(v) = parse_decimal(&t, usize::MAX as u64) {
            if v >= min as u64 && v <= max as u64 {
                return v as usize;
            }
        }
    }
    default
}

/// An environment value read as a switch: `1`, `true`, `yes` or `on` (trimmed, any ASCII
/// case) is on, anything else off.
pub open spec fn spec_env_switch(e: Seq<char>) -> bool {
    let k = spec_keyword(e);
    k == "1"@ || k == "true"@ || k == "yes"@ || k == "on"@
}

/// A switch from the command line, the file, or the environment (see `spec_env_switch`);
/// `default` only when none of them is set.
pub fn resolve_bool(
    cli_value: Option<bool>,
    file_value: Option<bool>,
    env_value: Option<&str>,
    default: bool,
) -> (r: bool)
    ensures
        r == match (cli_value, file_value, env_value) {
            (Some(c), _, _) => c,
            (None, Some(f), _) => f,
            (None, None, Some(e)) => spec_env_switch(e@),
            (None, None, None) => default,
        },
{
    if let Some(v) = cli_value {
        return v;
    }
    if let Some(v) = file_value {
        return v;
    }
    match env_value {
        Some(e) => {
            let k = keyword(e);
            eq_lit(&k, "1") || eq_lit(&k, "true") || eq_lit(&k, "yes") || eq_lit(&k, "on")
        },
        None => default,
    }
}

pub open spec fn spec_valid_reasoning_effort(value: Seq<char>) -> bool {
    let k = spec_keyword(value);
    k == "low"@ || k == "medium"@ || k == "high"@
}

/// Accepts `low`, `medium` or `high` (trimmed, any ASCII case).
pub fn validate_codex_reasoning_effort(value: &str) -> (r: Result<(), String>)
    ensures
        r is Ok <==> spec_valid_reasoning_effort(value@),
        r matches Err(e) ==> e@ == "Invalid codex reasoning effort: "@ + value@
            + " (expected low|medium|high)"@,
{
    let k = keyword(value);
    if eq_lit(&k, "low") || eq_lit(&k, "medium") || eq_lit(&k, "high") {
        return Ok(());
    }
    let mut m = lit("Invalid codex reasoning effort: ");
    let v = to_chars(value);
    append_chars(&mut m, &v);
    let tail = lit(" (expected low|medium|high)");
    append_chars(&mut m, &tail);
    Err(string_from_chars(m.as_slice()))
}

/// The trimmed, non-empty items among the first `k`.
pub open spec fn spec_nonblank_items(items: Seq<Seq<char>>, k: int) -> Seq<Seq<char>>
    decreases k,
{
    if k <= 0 {
        Seq::empty()
    } else {
        spec_nonblank_items(items, k - 1) + if spec_trim(items[k - 1]).len() > 0 {
            seq![spec_trim(items[k - 1])]
        } else {
            Seq::empty()
        }
    }
}

fn nonblank_items(items: &Vec<Vec<char>>) -> (r: Vec<String>)
    ensures
        string_views(r@) == spec_nonblank_items(views(items@), items@.len() as int),
{
    let ghost iv = views(items@);
    let mut r: Vec<String> = Vec::new();
    let mut i: usize = 0;
    while i < items.len()
        invariant
            i <= items.len(),
            iv == views(items@),
            string_views(r@) == spec_nonblank_items(iv, i as int),
        decreases items.len() - i,
    {
        let t = trim(&items[i]);
        let ghost pre = r@;
        if t.len() > 0 {
            r.push(string_from_chars(t.as_slice()));
            proof {
                assert(string_views(r@) =~= string_views(pre).push(t@));
            }
        }
        proof {
            assert(string_views(r@) =~= spec_nonblank_items(iv, i + 1));
        }
        i += 1;
    }
    r
}

/// `c` separates list items: `;` or `,`.
pub open spec fn spec_is_list_separator(c: char) -> bool {
    c == ';' || c == ','
}

/// The pieces of `raw` between separators (`str::split` with two separator characters).
pub open spec fn spec_split_list(raw: Seq<char>) -> Seq<Seq<char>> {
    spec_split(raw.map_values(|c: char| if spec_is_list_separator(c) { ';' } else { c }), ';')
}

/// Splits a list at `;` and `,`, trims the items and drops empty ones.
pub fn parse_string_list(raw: &str) -> (r: Vec<String>)
    ensures
        string_views(r@) == spec_nonblank_items(
            spec_split_list(raw@),
            spec_split_list(raw@).len() as int,
        ),
{
    let c = to_chars(raw);
    let mut unified: Vec<char> = Vec::new();
    let mut i: usize = 0;
    while i < c.len()
        invariant
            i <= c.len(),
            unified@ =~= c@.take(i as int).map_values(
                |c: char| if spec_is_list_separator(c) { ';' } else { c },
            ),
        decreases c.len() - i,
    {
        let ch = c[i];
        unified.push(if ch == ';' || ch == ',' { ';' } else { ch });
        i += 1;
    }
    proof {
        assert(c@.take(c@.len() as int) =~= c@);
    }
    let parts = split_char(&unified, ';');
    nonblank_items(&parts)
}

/// Trims every item and drops the empty ones.
pub fn normalize_string_list(values: Vec<String>) -> (r: Vec<String>)
    ensures
        string_views(r@) == spec_nonblank_items(string_views(values@), values@.len() as int),
{
    let mut items: Vec<Vec<char>> = Vec::new();
    let mut i: usize = 0;
    while i < values.len()
        invariant
            i <= values.len(),
            views(items@) =~= string_views(values@).take(i as int),
        decreases values.len() - i,
    {
        let ghost pre = items@;
        items.push(to_chars(values[i].as_str()));
        proof {
            assert(views(items@) =~= views(pre).push(values@[i as int]@));
            assert(string_views(values@).take(i + 1) =~= string_views(values@).take(i as int).push(
                values@[i as int]@,
            ));
        }
        i += 1;
    }
    proof {
        assert(string_views(values@).take(values@.len() as int) =~= string_views(values@));
    }
    nonblank_items(&items)
}

/// A file extension in the form the index compares: trimmed, ASCII-lowercased, with a
/// leading dot.
pub open spec fn spec_extension_form(v: Seq<char>) -> Seq<char> {
    let k = spec_keyword(v);
    if k.len() > 0 && k[0] == '.' {
        k
    } else {
        seq!['.'] + k
    }
}

/// `x` is the extension form of a non-blank item of `values`.
pub open spec fn spec_is_extension_of(values: Seq<Seq<char>>, x: Seq<char>) -> bool {
    exists|i: int|
        0 <= i < values.len() && spec_keyword(values[i]).len() > 0 && x == spec_extension_form(
            #[trigger] values[i],
        )
}

/// Every item occurs once.
pub open spec fn spec_no_duplicates(v: Seq<Seq<char>>) -> bool {
    forall|a: int, b: int| 0 <= a < b < v.len() ==> #[trigger] v[a] != #[trigger] v[b]
}

proof fn lemma_extension_step(vv: Seq<Seq<char>>, i: int, x: Seq<char>)
    requires
        0 <= i < vv.len(),
    ensures
        spec_is_extension_of(vv.take(i + 1), x) <==> (spec_is_extension_of(vv.take(i), x) || (
        spec_keyword(vv[i]).len() > 0 && x == spec_extension_form(vv[i]))),
{
    let t0 = vv.take(i);
    let t1 = vv.take(i + 1);
    if spec_is_extension_of(t1, x) {
        let w = choose|w: int|
            0 <= w < t1.len() && spec_keyword(t1[w]).len() > 0 && x == spec_extension_form(
                #[trigger] t1[w],
            );
        if w < i {
            assert(t0[w] == t1[w]);
            assert(spec_extension_form(t0[w]) == x);
        } else {
            assert(t1[w] == vv[i]);
        }
    }
    if spec_is_extension_of(t0, x) {
        let w = choose|w: int|
            0 <= w < t0.len() && spec_keyword(t0[w]).len() > 0 && x == spec_extension_form(
                #[trigger] t0[w],
            );
        assert(t1[w] == t0[w]);
        assert(spec_extension_form(t1[w]) == x);
    }
    if spec_keyword(vv[i]).len() > 0 && x == spec_extension_form(vv[i]) {
        assert(t1[i] == vv[i]);
        assert(spec_extension_form(t1[i]) == x);
    }
}

/// The set of extensions named by `values`: each trimmed, lowercased and given a leading dot,
/// blank ones dropped, each once.
pub fn normalize_extensions(values: Vec<String>) -> (r: Vec<String>)
    ensures
        spec_no_duplicates(string_views(r@)),
        forall|x: Seq<char>| #[trigger]
            string_views(r@).contains(x) <==> spec_is_extension_of(string_views(values@), x),
{
    let ghost vv = string_views(values@);
    let mut out: Vec<Vec<char>> = Vec::new();
    let mut i: usize = 0;
    while i < values.len()
        invariant
            i <= values.len(),
            vv == string_views(values@),
            spec_no_duplicates(views(out@)),
            forall|x: Seq<char>| #[trigger]
                views(out@).contains(x) <==> spec_is_extension_of(vv.take(i as int), x),
        decreases values.len() - i,
    {
        let k = keyword(values[i].as_str());
        let ghost before = views(out@);
        if k.len() > 0 {
            let e = if k[0] == '.' {
                k
            } else {
                let mut d: Vec<char> = Vec::new();
                d.push('.');
                append_chars(&mut d, &k);
                d
            };
            let ghost ev = e@;
            proof {
                assert(ev == spec_extension_form(vv[i as int]));
            }
            push_unique(&mut out, e);
            proof {
                assert forall|x: Seq<char>| #[trigger]
                    views(out@).contains(x) <==> spec_is_extension_of(vv.take(i + 1), x) by {
                    lemma_extension_step(vv, i as int, x);
                }
            }
        } else {
            proof {
                assert forall|x: Seq<char>| #[trigger]
                    views(out@).contains(x) <==> spec_is_extension_of(vv.take(i + 1), x) by {
                    lemma_extension_step(vv, i as int, x);
                }
            }
        }
        i += 1;
    }
    proof {
        assert(vv.take(values@.len() as int) =~= vv);
    }
    to_strings(&out)
}

/// File extensions indexed when the configuration names none.
pub open spec fn spec_default_text_extensions() -> Seq<Seq<char>> {
    Seq::empty()
        .push(".py"@)
        .push(".js"@)
        .push(".ts"@)
        .push(".jsx"@)
        .push(".tsx"@)
        .push(".mjs"@)
        .push(".cjs"@)
        .push(".java"@)
        .push(".go"@)
        .push(".rs"@)
        .push(".cpp"@)
        .push(".c"@)
        .push(".cc"@)
        .push(".h"@)
        .push(".hpp"@)
        .push(".hxx"@)
        .push(".cs"@)
        .push(".rb"@)
        .push(".php"@)
        .push(".swift"@)
        .push(".kt"@)
        .push(".kts"@)
        .push(".scala"@)
        .push(".clj"@)
        .push(".cljs"@)
        .push(".lua"@)
        .push(".dart"@)
        .push(".m"@)
        .push(".mm"@)
        .push(".pl"@)
        .push(".pm"@)
        .push(".r"@)
        .push(".R"@)
        .push(".jl"@)
        .push(".ex"@)
        .push(".exs"@)
        .push(".erl"@)
        .push(".hs"@)
        .push(".zig"@)
        .push(".v"@)
        .push(".nim"@)
        .push(".f90"@)
        .push(".f95"@)
        .push(".groovy"@)
        .push(".gradle"@)
        .push(".sol"@)
        .push(".move"@)
        .push(".md"@)
        .push(".mdx"@)
        .push(".txt"@)
        .push(".json"@)
        .push(".jsonc"@)
        .push(".json5"@)
        .push(".yaml"@)
        .push(".yml"@)
        .push(".toml"@)
        .push(".xml"@)
        .push(".ini"@)
        .push(".conf"@)
        .push(".cfg"@)
        .push(".properties"@)
        .push(".env.example"@)
        .push(".editorconfig"@)
        .push(".html"@)
        .push(".htm"@)
        .push(".css"@)
        .push(".scss"@)
        .push(".sass"@)
        .push(".less"@)
        .push(".styl"@)
        .push(".vue"@)
        .push(".svelte"@)
        .push(".astro"@)
        .push(".ejs"@)
        .push(".hbs"@)
        .push(".pug"@)
        .push(".jade"@)
        .push(".jinja"@)
        .push(".jinja2"@)
        .push(".erb"@)
        .push(".liquid"@)
        .push(".twig"@)
        .push(".mustache"@)
        .push(".njk"@)
        .push(".sql"@)
        .push(".sh"@)
        .push(".bash"@)
        .push(".zsh"@)
        .push(".fish"@)
        .push(".ps1"@)
        .push(".psm1"@)
        .push(".bat"@)
        .push(".cmd"@)
        .push(".makefile"@)
        .push(".mk"@)
        .push(".cmake"@)
        .push(".graphql"@)
        .push(".gql"@)
        .push(".proto"@)
        .push(".prisma"@)
        .push(".csv"@)
        .push(".tsv"@)
        .push(".rst"@)
        .push(".adoc"@)
        .push(".tex"@)
        .push(".org"@)
        .push(".dockerfile"@)
        .push(".containerfile"@)
        .push(".vim"@)
        .push(".el"@)
        .push(".rkt"@)
}

/// Paths and file patterns left out of the index when the configuration names none.
pub open spec fn spec_default_exclude_patterns() -> Seq<Seq<char>> {
    Seq::empty()
        .push(".venv"@)
        .push("venv"@)
        .push(".env"@)
        .push("env"@)
        .push("node_modules"@)
        .push("vendor"@)
        .push(".pnpm"@)
        .push(".yarn"@)
        .push("bower_components"@)
        .push(".git"@)
        .push(".svn"@)
        .push(".hg"@)
        .push(".gitmodules"@)
        .push("__pycache__"@)
        .push(".pytest_cache"@)
        .push(".mypy_cache"@)
        .push(".tox"@)
        .push(".eggs"@)
        .push("*.egg-info"@)
        .push(".ruff_cache"@)
        .push("dist"@)
        .push("build"@)
        .push("target"@)
        .push("out"@)
        .push("bin"@)
        .push("obj"@)
        .push(".next"@)
        .push(".nuxt"@)
        .push(".output"@)
        .push(".vercel"@)
        .push(".netlify"@)
        .push(".turbo"@)
        .push(".parcel-cache"@)
        .push(".cache"@)
        .push(".temp"@)
        .push(".tmp"@)
        .push("coverage"@)
        .push(".nyc_output"@)
        .push("htmlcov"@)
        .push(".idea"@)
        .push(".vscode"@)
        .push(".vs"@)
        .push("*.swp"@)
        .push("*.swo"@)
        .push(".DS_Store"@)
        .push("Thumbs.db"@)
        .push("desktop.ini"@)
        .push("*.pyc"@)
        .push("*.pyo"@)
        .push("*.pyd"@)
        .push("*.so"@)
        .push("*.dll"@)
        .push("*.dylib"@)
        .push("*.exe"@)
        .push("*.o"@)
        .push("*.obj"@)
        .push("*.class"@)
        .push("*.jar"@)
        .push("*.war"@)
        .push("*.min.js"@)
        .push("*.min.css"@)
        .push("*.bundle.js"@)
        .push("*.chunk.js"@)
        .push("*.map"@)
        .push("*.gz"@)
        .push("*.zip"@)
        .push("*.tar"@)
        .push("*.rar"@)
        .push("package-lock.json"@)
        .push("yarn.lock"@)
        .push("pnpm-lock.yaml"@)
        .push("Gemfile.lock"@)
        .push("poetry.lock"@)
        .push("Cargo.lock"@)
        .push("composer.lock"@)
        .push("*.log"@)
        .push("logs"@)
        .push("tmp"@)
        .push("temp"@)
        .push("*.png"@)
        .push("*.jpg"@)
        .push("*.jpeg"@)
        .push("*.gif"@)
        .push("*.ico"@)
        .push("*.svg"@)
        .push("*.mp3"@)
        .push("*.mp4"@)
        .push("*.wav"@)
        .push("*.avi"@)
        .push("*.mov"@)
        .push("*.pdf"@)
        .push("*.doc"@)
        .push("*.docx"@)
        .push("*.xls"@)
        .push("*.xlsx"@)
        .push("*.woff"@)
        .push("*.woff2"@)
        .push("*.ttf"@)
        .push("*.eot"@)
        .push("*.otf"@)
        .push("*.db"@)
        .push("*.sqlite"@)
        .push("*.sqlite3"@)
        .push(".ace-tool"@)
}

fn default_extension_list() -> (r: Vec<Vec<char>>)
    ensures
        views(r@) == spec_default_text_extensions(),
{
    let mut r: Vec<Vec<char>> = Vec::new();
    proof {
        assert(views(r@) =~= Seq::<Seq<char>>::empty());
    }
    push_lit(&mut r, ".py");
    push_lit(&mut r, ".js");
    push_lit(&mut r, ".ts");
    push_lit(&mut r, ".jsx");
    push_lit(&mut r, ".tsx");
    push_lit(&mut r, ".mjs");
    push_lit(&mut r, ".cjs");
    push_lit(&mut r, ".java");
    push_lit(&mut r, ".go");
    push_lit(&mut r, ".rs");
    push_lit(&mut r, ".cpp");
    push_lit(&mut r, ".c");
    push_lit(&mut r, ".cc");
    push_lit(&mut r, ".h");
    push_lit(&mut r, ".hpp");
    push_lit(&mut r, ".hxx");
    push_lit(&mut r, ".cs");
    push_lit(&mut r, ".rb");
    push_lit(&mut r, ".php");
    push_lit(&mut r, ".swift");
    push_lit(&mut r, ".kt");
    push_lit(&mut r, ".kts");
    push_lit(&mut r, ".scala");
    push_lit(&mut r, ".clj");
    push_lit(&mut r, ".cljs");
    push_lit(&mut r, ".lua");
    push_lit(&mut r, ".dart");
    push_lit(&mut r, ".m");
    push_lit(&mut r, ".mm");
    push_lit(&mut r, ".pl");
    push_lit(&mut r, ".pm");
    push_lit(&mut r, ".r");
    push_lit(&mut r, ".R");
    push_lit(&mut r, ".jl");
    push_lit(&mut r, ".ex");
    push_lit(&mut r, ".exs");
    push_lit(&mut r, ".erl");
    push_lit(&mut r, ".hs");
    push_lit(&mut r, ".zig");
    push_lit(&mut r, ".v");
    push_lit(&mut r, ".nim");
    push_lit(&mut r, ".f90");
    push_lit(&mut r, ".f95");
    push_lit(&mut r, ".groovy");
    push_lit(&mut r, ".gradle");
    push_lit(&mut r, ".sol");
    push_lit(&mut r, ".move");
    push_lit(&mut r, ".md");
    push_lit(&mut r, ".mdx");
    push_lit(&mut r, ".txt");
    push_lit(&mut r, ".json");
    push_lit(&mut r, ".jsonc");
    push_lit(&mut r, ".json5");
    push_lit(&mut r, ".yaml");
    push_lit(&mut r, ".yml");
    push_lit(&mut r, ".toml");
    push_lit(&mut r, ".xml");
    push_lit(&mut r, ".ini");
    push_lit(&mut r, ".conf");
    push_lit(&mut r, ".cfg");
    push_lit(&mut r, ".properties");
    push_lit(&mut r, ".env.example");
    push_lit(&mut r, ".editorconfig");
    push_lit(&mut r, ".html");
    push_lit(&mut r, ".htm");
    push_lit(&mut r, ".css");
    push_lit(&mut r, ".scss");
    push_lit(&mut r, ".sass");
    push_lit(&mut r, ".less");
    push_lit(&mut r, ".styl");
    push_lit(&mut r, ".vue");
    push_lit(&mut r, ".svelte");
    push_lit(&mut r, ".astro");
    push_lit(&mut r, ".ejs");
    push_lit(&mut r, ".hbs");
    push_lit(&mut r, ".pug");
    push_lit(&mut r, ".jade");
    push_lit(&mut r, ".jinja");
    push_lit(&mut r, ".jinja2");
    push_lit(&mut r, ".erb");
    push_lit(&mut r, ".liquid");
    push_lit(&mut r, ".twig");
    push_lit(&mut r, ".mustache");
    push_lit(&mut r, ".njk");
    push_lit(&mut r, ".sql");
    push_lit(&mut r, ".sh");
    push_lit(&mut r, ".bash");
    push_lit(&mut r, ".zsh");
    push_lit(&mut r, ".fish");
    push_lit(&mut r, ".ps1");
    push_lit(&mut r, ".psm1");
    push_lit(&mut r, ".bat");
    push_lit(&mut r, ".cmd");
    push_lit(&mut r, ".makefile");
    push_lit(&mut r, ".mk");
    push_lit(&mut r, ".cmake");
    push_lit(&mut r, ".graphql");
    push_lit(&mut r, ".gql");
    push_lit(&mut r, ".proto");
    push_lit(&mut r, ".prisma");
    push_lit(&mut r, ".csv");
    push_lit(&mut r, ".tsv");
    push_lit(&mut r, ".rst");
    push_lit(&mut r, ".adoc");
    push_lit(&mut r, ".tex");
    push_lit(&mut r, ".org");
    push_lit(&mut r, ".dockerfile");
    push_lit(&mut r, ".containerfile");
    push_lit(&mut r, ".vim");
    push_lit(&mut r, ".el");
    push_lit(&mut r, ".rkt");
    proof {
        assert(views(r@) == spec_default_text_extensions());
    }
    r
}

fn default_exclude_list() -> (r: Vec<Vec<char>>)
    ensures
        views(r@) == spec_default_exclude_patterns(),
{
    let mut r: Vec<Vec<char>> = Vec::new();
    proof {
        assert(views(r@) =~= Seq::<Seq<char>>::empty());
    }
    push_lit(&mut r, ".venv");
    push_lit(&mut r, "venv");
    push_lit(&mut r, ".env");
    push_lit(&mut r, "env");
    push_lit(&mut r, "node_modules");
    push_lit(&mut r, "vendor");
    push_lit(&mut r, ".pnpm");
    push_lit(&mut r, ".yarn");
    push_lit(&mut r, "bower_components");
    push_lit(&mut r, ".git");
    push_lit(&mut r, ".svn");
    push_lit(&mut r, ".hg");
    push_lit(&mut r, ".gitmodules");
    push_lit(&mut r, "__pycache__");
    push_lit(&mut r, ".pytest_cache");
    push_lit(&mut r, ".mypy_cache");
    push_lit(&mut r, ".tox");
    push_lit(&mut r, ".eggs");
    push_lit(&mut r, "*.egg-info");
    push_lit(&mut r, ".ruff_cache");
    push_lit(&mut r, "dist");
    push_lit(&mut r, "build");
    push_lit(&mut r, "target");
    push_lit(&mut r, "out");
    push_lit(&mut r, "bin");
    push_lit(&mut r, "obj");
    push_lit(&mut r, ".next");
    push_lit(&mut r, ".nuxt");
    push_lit(&mut r, ".output");
    push_lit(&mut r, ".vercel");
    push_lit(&mut r, ".netlify");
    push_lit(&mut r, ".turbo");
    push_lit(&mut r, ".parcel-cache");
    push_lit(&mut r, ".cache");
    push_lit(&mut r, ".temp");
    push_lit(&mut r, ".tmp");
    push_lit(&mut r, "coverage");
    push_lit(&mut r, ".nyc_output");
    push_lit(&mut r, "htmlcov");
    push_lit(&mut r, ".idea");
    push_lit(&mut r, ".vscode");
    push_lit(&mut r, ".vs");
    push_lit(&mut r, "*.swp");
    push_lit(&mut r, "*.swo");
    push_lit(&mut r, ".DS_Store");
    push_lit(&mut r, "Thumbs.db");
    push_lit(&mut r, "desktop.ini");
    push_lit(&mut r, "*.pyc");
    push_lit(&mut r, "*.pyo");
    push_lit(&mut r, "*.pyd");
    push_lit(&mut r, "*.so");
    push_lit(&mut r, "*.dll");
    push_lit(&mut r, "*.dylib");
    push_lit(&mut r, "*.exe");
    push_lit(&mut r, "*.o");
    push_lit(&mut r, "*.obj");
    push_lit(&mut r, "*.class");
    push_lit(&mut r, "*.jar");
    push_lit(&mut r, "*.war");
    push_lit(&mut r, "*.min.js");
    push_lit(&mut r, "*.min.css");
    push_lit(&mut r, "*.bundle.js");
    push_lit(&mut r, "*.chunk.js");
    push_lit(&mut r, "*.map");
    push_lit(&mut r, "*.gz");
    push_lit(&mut r, "*.zip");
    push_lit(&mut r, "*.tar");
    push_lit(&mut r, "*.rar");
    push_lit(&mut r, "package-lock.json");
    push_lit(&mut r, "yarn.lock");
    push_lit(&mut r, "pnpm-lock.yaml");
    push_lit(&mut r, "Gemfile.lock");
    push_lit(&mut r, "poetry.lock");
    push_lit(&mut r, "Cargo.lock");
    push_lit(&mut r, "composer.lock");
    push_lit(&mut r, "*.log");
    push_lit(&mut r, "logs");
    push_lit(&mut r, "tmp");
    push_lit(&mut r, "temp");
    push_lit(&mut r, "*.png");
    push_lit(&mut r, "*.jpg");
    push_lit(&mut r, "*.jpeg");
    push_lit(&mut r, "*.gif");
    push_lit(&mut r, "*.ico");
    push_lit(&mut r, "*.svg");
    push_lit(&mut r, "*.mp3");
    push_lit(&mut r, "*.mp4");
    push_lit(&mut r, "*.wav");
    push_lit(&mut r, "*.avi");
    push_lit(&mut r, "*.mov");
    push_lit(&mut r, "*.pdf");
    push_lit(&mut r, "*.doc");
    push_lit(&mut r, "*.docx");
    push_lit(&mut r, "*.xls");
    push_lit(&mut r, "*.xlsx");
    push_lit(&mut r, "*.woff");
    push_lit(&mut r, "*.woff2");
    push_lit(&mut r, "*.ttf");
    push_lit(&mut r, "*.eot");
    push_lit(&mut r, "*.otf");
    push_lit(&mut r, "*.db");
    push_lit(&mut r, "*.sqlite");
    push_lit(&mut r, "*.sqlite3");
    push_lit(&mut r, ".ace-tool");
    proof {
        assert(views(r@) == spec_default_exclude_patterns());
    }
    r
}

fn push_unique(out: &mut Vec<Vec<char>>, x: Vec<char>)
    requires
        spec_no_duplicates(views(old(out)@)),
    ensures
        spec_no_duplicates(views(final(out)@)),
        forall|y: Seq<char>| #[trigger]
            views(final(out)@).contains(y) <==> (views(old(out)@).contains(y) || y == x@),
{
    let ghost before = views(out@);
    let mut j: usize = 0;
    while j < out.len() && !chars_eq(&out[j], &x)
        invariant
            j <= out.len(),
            forall|a: int| 0 <= a < j ==> (#[trigger] out@[a])@ != x@,
        decreases out.len() - j,
    {
        j += 1;
    }
    if j == out.len() {
        let ghost xv = x@;
        out.push(x);
        proof {
            let nv = views(out@);
            assert(nv =~= before.push(xv));
            assert forall|y: Seq<char>| #[trigger] nv.contains(y) <==> (before.contains(y) || y
                == xv) by {
                if nv.contains(y) {
                    let k = choose|k: int| 0 <= k < nv.len() && nv[k] == y;
                    if k < before.len() {
                        assert(before[k] == y);
                    }
                }
                if before.contains(y) {
                    let k = choose|k: int| 0 <= k < before.len() && before[k] == y;
                    assert(nv[k] == y);
                }
                if y == xv {
                    assert(nv[before.len() as int] == y);
                }
            }
        }
    } else {
        proof {
            assert(views(out@)[j as int] == x@);
        }
    }
}

/// The default extensions, each once.
pub fn default_text_extensions() -> (r: Vec<String>)
    ensures
        spec_no_duplicates(string_views(r@)),
        forall|x: Seq<char>| #[trigger]
            string_views(r@).contains(x) <==> spec_default_text_extensions().contains(x),
{
    let list = default_extension_list();
    let mut out: Vec<Vec<char>> = Vec::new();
    let mut i: usize = 0;
    while i < list.len()
        invariant
            i <= list.len(),
            views(list@) == spec_default_text_extensions(),
            spec_no_duplicates(views(out@)),
            forall|x: Seq<char>| #[trigger]
                views(out@).contains(x) <==> views(list@).take(i as int).contains(x),
        decreases list.len() - i,
    {
        push_unique(&mut out, copy_chars(&list[i]));
        proof {
            let t1 = views(list@).take(i + 1);
            assert(t1 =~= views(list@).take(i as int).push(list@[i as int]@));
            assert forall|x: Seq<char>| #[trigger]
                views(out@).contains(x) <==> t1.contains(x) by {
                if t1.contains(x) {
                    let k = choose|k: int| 0 <= k < t1.len() && t1[k] == x;
                    if k < i {
                        assert(views(list@).take(i as int)[k] == x);
                    }
                }
                if views(list@).take(i as int).contains(x) {
                    let k = choose|k: int| 0 <= k < i && views(list@).take(i as int)[k] == x;
                    assert(t1[k] == x);
                }
                if x == list@[i as int]@ {
                    assert(t1[i as int] == x);
                }
            }
        }
        i += 1;
    }
    proof {
        assert(views(list@).take(list@.len() as int) =~= views(list@));
    }
    to_strings(&out)
}

/// The default exclusion patterns, in their documented order.
pub fn default_exclude_patterns() -> (r: Vec<String>)
    ensures
        string_views(r@) == spec_default_exclude_patterns(),
{
    let list = default_exclude_list();
    to_strings(&list)
}

/// Where the indexed extensions come from: the file's list when it has one (an empty one
/// means the defaults), else the environment's list when it names at least one item, else
/// the defaults (`None`).
pub open spec fn spec_extension_source(
    file_value: Option<Seq<Seq<char>>>,
    env_value: Option<Seq<char>>,
) -> Option<Seq<Seq<char>>> {
    match file_value {
        Some(values) => if values.len() == 0 {
            None
        } else {
            Some(values)
        },
        None => match env_value {
            Some(raw) => {
                let items = spec_nonblank_items(
                    spec_split_list(raw),
                    spec_split_list(raw).len() as int,
                );
                if items.len() == 0 {
                    None
                } else {
                    Some(items)
                }
            },
            None => None,
        },
    }
}

pub open spec fn spec_opt_strings(o: Option<Vec<String>>) -> Option<Seq<Seq<char>>> {
    match o {
        Some(v) => Some(string_views(v@)),
        None => None,
    }
}

/// The set of indexed extensions (see `spec_extension_source`), each once.
pub fn resolve_text_extensions(file_value: Option<Vec<String>>, env_value: Option<&str>) -> (r:
    Vec<String>)
    ensures
        spec_no_duplicates(string_views(r@)),
        forall|x: Seq<char>| #[trigger]
            string_views(r@).contains(x) <==> match spec_extension_source(
                spec_opt_strings(file_value),
                spec_opt_str(env_value),
            ) {
                Some(values) => spec_is_extension_of(values, x),
                None => spec_default_text_extensions().contains(x),
            },
{
    match file_value {
        Some(values) => {
            if values.len() == 0 {
                return default_text_extensions();
            }
            normalize_extensions(values)
        },
        None => match env_value {
            Some(raw) => {
                let items = parse_string_list(raw);
                if items.len() == 0 {
                    default_text_extensions()
                } else {
                    normalize_extensions(items)
                }
            },
            None => default_text_extensions(),
        },
    }
}

/// A list setting: the file's list when it has a non-blank item, else the environment's when
/// it has one, else `default`; items trimmed, blank ones dropped.
pub open spec fn spec_resolve_list(
    file_value: Option<Seq<Seq<char>>>,
    env_value: Option<Seq<char>>,
    default: Seq<Seq<char>>,
) -> Seq<Seq<char>> {
    let from_file = match file_value {
        Some(values) => spec_nonblank_items(values, values.len() as int),
        None => Seq::empty(),
    };
    let from_env = match env_value {
        Some(raw) => spec_nonblank_items(spec_split_list(raw), spec_split_list(raw).len() as int),
        None => Seq::empty(),
    };
    if from_file.len() > 0 {
        from_file
    } else if from_env.len() > 0 {
        from_env
    } else {
        default
    }
}

pub fn resolve_string_list(
    file_value: Option<Vec<String>>,
    env_value: Option<&str>,
    default: Vec<String>,
) -> (r: Vec<String>)
    ensures
        string_views(r@) == spec_resolve_list(
            spec_opt_strings(file_value),
            spec_opt_str(env_value),
            string_views(default@),
        ),
{
    if let Some(values) = file_value {
        let normalized = normalize_string_list(values);
        if normalized.len() > 0 {
            return normalized;
        }
    }
    if let Some(raw) = env_value {
        let items = parse_string_list(raw);
        if items.len() > 0 {
            return items;
        }
    }
    default
}

/// An external API base: trimmed, trailing slashes removed, `https://` added unless it
/// already names `http://` or `https://`.
pub open spec fn spec_external_base_url(value: Seq<char>) -> Seq<char> {
    let t = spec_trim_end_slashes(spec_trim(value));
    if spec_starts_with(t, "http://"@) || spec_starts_with(t, "https://"@) {
        t
    } else {
        "https://"@ + t
    }
}

pub fn normalize_external_base_url(value: &str) -> (r: String)
    ensures
        r@ == spec_external_base_url(value@),
{
    let c = to_chars(value);
    let t0 = trim(&c);
    let t = trim_end_slashes(&t0);
    let http = lit("http://");
    let https = lit("https://");
    if starts_with(&t, &http) || starts_with(&t, &https) {
        return string_from_chars(t.as_slice());
    }
    let mut out = lit("https://");
    append_chars(&mut out, &t);
    string_from_chars(out.as_slice())
}

/// `https://` added unless the value starts with `http://` or `https://`.
pub open spec fn spec_base_url(value: Seq<char>) -> Seq<char> {
    if spec_starts_with(value, "http://"@) || spec_starts_with(value, "https://"@) {
        value
    } else {
        "https://"@ + value
    }
}

pub fn normalize_base_url(value: &str) -> (r: String)
    ensures
        r@ == spec_base_url(value@),
{
    let v = to_chars(value);
    let http = lit("http://");
    let https = lit("https://");
    if starts_with(&v, &http) || starts_with(&v, &https) {
        return value.to_owned();
    }
    let mut out = lit("https://");
    append_chars(&mut out, &v);
    string_from_chars(out.as_slice())
}

/// The remote base URL as used: `https://` added where no scheme is given, `http://` turned
/// into `https://`, trailing slashes removed; empty when not configured.
pub open spec fn spec_remote_base_url(resolved: Option<Seq<char>>) -> Seq<char> {
    let b1 = match resolved {
        Some(v) => spec_base_url(v),
        None => Seq::empty(),
    };
    let b2 = if spec_starts_with(b1, "http://"@) {
        "https://"@ + b1.skip(7)
    } else {
        b1
    };
    spec_trim_end_slashes(b2)
}

fn remote_base_url(resolved: Option<String>) -> (r: String)
    ensures
        r@ == spec_remote_base_url(spec_opt_string(resolved)),
{
    let b1 = match resolved {
        Some(v) => to_chars(normalize_base_url(v.as_str()).as_str()),
        None => Vec::new(),
    };
    let http = lit("http://");
    proof {
        reveal_strlit("http://");
    }
    let b2 = if starts_with(&b1, &http) {
        let mut out = lit("https://");
        let rest = slice_chars(&b1, 7, b1.len());
        append_chars(&mut out, &rest);
        proof {
            assert(rest@ =~= b1@.skip(7));
        }
        out
    } else {
        b1
    };
    let r = trim_end_slashes(&b2);
    string_from_chars(r.as_slice())
}

/// The run-time configuration: command line over configuration files over environment over
/// built-in defaults.
pub struct Config {
    pub base_url: String,
    pub token: String,
    pub batch_size: usize,
    pub max_lines_per_blob: usize,
    /// Indexed file extensions, each once.
    pub text_extensions: Vec<String>,
    pub exclude_patterns: Vec<String>,
    pub enable_log: bool,
    pub search_provider: String,
    pub enhance_provider: String,
    pub codex_api_base: String,
    pub codex_api_key: String,
    pub codex_model: String,
    pub codex_reasoning_effort: String,
    pub debug: bool,
    pub debug_verbose: bool,
    pub debug_file: String,
    pub local_summary_mode: String,
    pub local_index_rebuild: String,
    pub local_rerank_mode: String,
    pub local_rerank_pool_size: usize,
    pub local_rerank_timeout_sec: u64,
    pub local_rerank_model: String,
    pub search_timeout_sec: u64,
    pub enhance_timeout_sec: u64,
    /// Whether the enhancement timeout was set by some source rather than defaulted.
    pub enhance_timeout_explicit: bool,
    pub ui_timeout_sec: u64,
}

/// A string setting resolved from its three sources, or `default`.
pub open spec fn spec_resolve_str(
    cli: Option<String>,
    file: Option<String>,
    env: Option<String>,
    default: Seq<char>,
) -> Seq<char> {
    match spec_first_nonblank(spec_opt_string(cli), spec_opt_string(file), spec_opt_string(env)) {
        Some(v) => v,
        None => default,
    }
}

/// Why the configuration is refused, checked in this order; `None` when it is accepted.
pub open spec fn spec_config_error(args: ParsedArgs, file: FileConfig, env: EnvValues) -> Option<
    Seq<char>,
> {
    let sp = spec_resolve_str(args.search_provider, file.search_provider, env.search_provider, "local"@);
    let ep = spec_resolve_str(args.enhance_provider, file.enhance_provider, env.enhance_provider, "remote"@);
    let effort = spec_resolve_str(
        args.codex_reasoning_effort,
        file.codex_reasoning_effort,
        env.codex_reasoning_effort,
        "low"@,
    );
    let sm = spec_resolve_str(args.local_summary_mode, file.local_summary_mode, env.local_summary_mode, "local_fallback_only"@);
    let rb = spec_resolve_str(args.local_index_rebuild, file.local_index_rebuild, env.local_index_rebuild, "auto"@);
    let rr = spec_resolve_str(args.local_rerank_mode, file.local_rerank_mode, env.local_rerank_mode, "off"@);
    if SearchProviderKind::spec_parse(sp) is None {
        Some("Invalid search provider: "@ + sp + " (expected remote|local)"@)
    } else if EnhanceProviderKind::spec_parse(ep) is None {
        Some("Invalid provider: "@ + ep + " (expected remote|codex)"@)
    } else if !spec_valid_reasoning_effort(effort) {
        Some("Invalid codex reasoning effort: "@ + effort + " (expected low|medium|high)"@)
    } else if LocalSummaryMode::spec_parse(sm) is None {
        Some("Invalid local summary mode: "@ + sm + " (expected gpt|local_fallback_only)"@)
    } else if LocalIndexRebuildMode::spec_parse(rb) is None {
        Some("Invalid local index rebuild mode: "@ + rb + " (expected auto|force_full)"@)
    } else if LocalRerankMode::spec_parse(rr) is None {
        Some("Invalid local rerank mode: "@ + rr + " (expected off|broad_only)"@)
    } else {
        None
    }
}

pub open spec fn spec_usize_setting(
    cli: Option<usize>,
    file: Option<usize>,
    env: Option<String>,
    default: usize,
    min: usize,
    max: usize,
) -> nat {
    match spec_resolve_number(
        spec_opt_usize(cli),
        spec_opt_usize(file),
        spec_opt_string(env),
        min as int,
        max as int,
        usize::MAX as int,
    ) {
        Some(v) => v,
        None => default as nat,
    }
}

pub open spec fn spec_u64_setting(
    cli: Option<u64>,
    file: Option<u64>,
    env: Option<String>,
    default: u64,
    min: u64,
    max: u64,
) -> nat {
    match spec_resolve_number(
        spec_opt_u64(cli),
        spec_opt_u64(file),
        spec_opt_string(env),
        min as int,
        max as int,
        u64::MAX as int,
    ) {
        Some(v) => v,
        None => default as nat,
    }
}

pub open spec fn spec_bool_setting(
    cli: Option<bool>,
    file: Option<bool>,
    env: Option<String>,
    default: bool,
) -> bool {
    match (cli, file, env) {
        (Some(c), _, _) => c,
        (None, Some(f), _) => f,
        (None, None, Some(e)) => spec_env_switch(e@),
        (None, None, None) => default,
    }
}

fn env_str(e: &Option<String>) -> (r: Option<&str>)
    ensures
        spec_opt_str(r) == spec_opt_string(*e),
{
    match e {
        Some(s) => Some(s.as_str()),
        None => None,
    }
}

fn file_str(e: &Option<String>) -> (r: Option<&str>)
    ensures
        spec_opt_str(r) == spec_opt_string(*e),
{
    match e {
        Some(s) => Some(s.as_str()),
        None => None,
    }
}

/// The `ACE_TOOL_*` environment variables the configuration reads, one field per variable
/// (`ACE_TOOL_` and the field name in upper case); `None` where a variable is unset.
pub struct EnvValues {
    pub search_provider: Option<String>,
    pub base_url: Option<String>,
    pub token: Option<String>,
    pub batch_size: Option<String>,
    pub max_lines_per_blob: Option<String>,
    pub text_extensions: Option<String>,
    pub exclude_patterns: Option<String>,
    pub enhance_provider: Option<String>,
    pub codex_api_base: Option<String>,
    pub codex_api_key: Option<String>,
    pub codex_model: Option<String>,
    pub codex_reasoning_effort: Option<String>,
    pub debug: Option<String>,
    pub debug_verbose: Option<String>,
    pub debug_file: Option<String>,
    pub local_summary_mode: Option<String>,
    pub local_index_rebuild: Option<String>,
    pub local_rerank_mode: Option<String>,
    pub local_rerank_pool_size: Option<String>,
    pub local_rerank_timeout_sec: Option<String>,
    pub local_rerank_model: Option<String>,
    pub search_timeout_sec: Option<String>,
    pub enhance_timeout_sec: Option<String>,
    pub enable_log: Option<String>,
    pub ui_timeout_sec: Option<String>,
}

impl EnvValues {
    /// No variable set.
    pub fn none() -> (r: Self)
        ensures
            r.search_provider is None,
            r.base_url is None,
            r.token is None,
            r.batch_size is None,
            r.max_lines_per_blob is None,
            r.text_extensions is None,
            r.exclude_patterns is None,
            r.enhance_provider is None,
            r.codex_api_base is None,
            r.codex_api_key is None,
            r.codex_model is None,
            r.codex_reasoning_effort is None,
            r.debug is None,
            r.debug_verbose is None,
            r.debug_file is None,
            r.local_summary_mode is None,
            r.local_index_rebuild is None,
            r.local_rerank_mode is None,
            r.local_rerank_pool_size is None,
            r.local_rerank_timeout_sec is None,
            r.local_rerank_model is None,
            r.search_timeout_sec is None,
            r.enhance_timeout_sec is None,
            r.enable_log is None,
            r.ui_timeout_sec is None,
    {
        EnvValues {
            search_provider: None,
            base_url: None,
            token: None,
            batch_size: None,
            max_lines_per_blob: None,
            text_extensions: None,
            exclude_patterns: None,
            enhance_provider: None,
            codex_api_base: None,
            codex_api_key: None,
            codex_model: None,
            codex_reasoning_effort: None,
            debug: None,
            debug_verbose: None,
            debug_file: None,
            local_summary_mode: None,
            local_index_rebuild: None,
            local_rerank_mode: None,
            local_rerank_pool_size: None,
            local_rerank_timeout_sec: None,
            local_rerank_model: None,
            search_timeout_sec: None,
            enhance_timeout_sec: None,
            enable_log: None,
            ui_timeout_sec: None,
        }
    }
}

/// Builds the run-time configuration from the command line, the merged configuration files
/// and the environment (see `spec_config_error` for when it is refused).
#[verifier::rlimit(80)]
#[verifier::spinoff_prover]
pub fn resolve_config(args: ParsedArgs, file: FileConfig, env: &EnvValues) -> (r: Result<
    Config,
    String,
>)
    ensures
        match spec_config_error(args, file, *env) {
            Some(m) => r matches Err(e) && e@ == m,
            None => r matches Ok(c) && {
                &&& c.base_url@ == spec_remote_base_url(
                    spec_first_nonblank(
                        spec_opt_string(args.base_url),
                        spec_opt_string(file.base_url),
                        spec_opt_string(env.base_url),
                    ),
                )
                &&& c.token@ == spec_resolve_str(args.token, file.token, env.token, Seq::empty())
                &&& c.batch_size == spec_usize_setting(
                    args.batch_size,
                    file.batch_size,
                    env.batch_size,
                    10,
                    1,
                    100,
                )
                &&& c.max_lines_per_blob == spec_usize_setting(
                    args.max_lines_per_blob,
                    file.max_lines_per_blob,
                    env.max_lines_per_blob,
                    800,
                    50,
                    5000,
                )
                &&& spec_no_duplicates(string_views(c.text_extensions@))
                &&& forall|x: Seq<char>| #[trigger]
                    string_views(c.text_extensions@).contains(x) <==> match spec_extension_source(
                        spec_opt_strings(file.text_extensions),
                        spec_opt_string(env.text_extensions),
                    ) {
                        Some(values) => spec_is_extension_of(values, x),
                        None => spec_default_text_extensions().contains(x),
                    }
                &&& string_views(c.exclude_patterns@) == spec_resolve_list(
                    spec_opt_strings(file.exclude_patterns),
                    spec_opt_string(env.exclude_patterns),
                    spec_default_exclude_patterns(),
                )
                &&& c.enable_log == spec_bool_setting(
                    args.enable_log,
                    file.enable_log,
                    env.enable_log,
                    false,
                )
                &&& (SearchProviderKind::spec_parse(
                    spec_resolve_str(args.search_provider, file.search_provider, env.search_provider, "local"@),
                ) matches Some(k) && c.search_provider@ == k.spec_name())
                &&& (EnhanceProviderKind::spec_parse(
                    spec_resolve_str(args.enhance_provider, file.enhance_provider, env.enhance_provider, "remote"@),
                ) matches Some(k) && c.enhance_provider@ == k.spec_name())
                &&& c.codex_api_base@ == match spec_first_nonblank(
                    spec_opt_string(args.codex_api_base),
                    spec_opt_string(file.codex_api_base),
                    spec_opt_string(env.codex_api_base),
                ) {
                    Some(v) => spec_external_base_url(v),
                    None => Seq::empty(),
                }
                &&& c.codex_api_key@ == spec_resolve_str(
                    args.codex_api_key,
                    file.codex_api_key,
                    env.codex_api_key,
                    Seq::empty(),
                )
                &&& c.codex_model@ == spec_resolve_str(args.codex_model, file.codex_model, env.codex_model, "gpt-5.4"@)
                &&& c.codex_reasoning_effort@ == spec_resolve_str(
                    args.codex_reasoning_effort,
                    file.codex_reasoning_effort,
                    env.codex_reasoning_effort,
                    "low"@,
                )
                &&& c.debug == spec_bool_setting(args.debug, file.debug, env.debug, false)
                &&& c.debug_verbose == spec_bool_setting(
                    args.debug_verbose,
                    file.debug_verbose,
                    env.debug_verbose,
                    false,
                )
                &&& c.debug_file@ == spec_resolve_str(args.debug_file, file.debug_file, env.debug_file, Seq::empty())
                &&& (LocalSummaryMode::spec_parse(
                    spec_resolve_str(args.local_summary_mode, file.local_summary_mode, env.local_summary_mode, "local_fallback_only"@),
                ) matches Some(k) && c.local_summary_mode@ == k.spec_name())
                &&& (LocalIndexRebuildMode::spec_parse(
                    spec_resolve_str(args.local_index_rebuild, file.local_index_rebuild, env.local_index_rebuild, "auto"@),
                ) matches Some(k) && c.local_index_rebuild@ == k.spec_name())
                &&& (LocalRerankMode::spec_parse(
                    spec_resolve_str(args.local_rerank_mode, file.local_rerank_mode, env.local_rerank_mode, "off"@),
                ) matches Some(k) && c.local_rerank_mode@ == k.spec_name())
                &&& c.local_rerank_pool_size == spec_usize_setting(
                    args.local_rerank_pool_size,
                    file.local_rerank_pool_size,
                    env.local_rerank_pool_size,
                    12,
                    4,
                    32,
                )
                &&& c.local_rerank_timeout_sec == spec_u64_setting(
                    args.local_rerank_timeout_sec,
                    file.local_rerank_timeout_sec,
                    env.local_rerank_timeout_sec,
                    10,
                    3,
                    120,
                )
                &&& c.local_rerank_model@ == spec_resolve_str(
                    args.local_rerank_model,
                    file.local_rerank_model,
                    env.local_rerank_model,
                    spec_resolve_str(args.codex_model, file.codex_model, env.codex_model, "gpt-5.4"@),
                )
                &&& c.search_timeout_sec == spec_u64_setting(
                    args.search_timeout_sec,
                    file.search_timeout_sec,
                    env.search_timeout_sec,
                    50,
                    10,
                    300,
                )
                &&& spec_opt_u64(if c.enhance_timeout_explicit { Some(c.enhance_timeout_sec) } else { None }) == spec_resolve_number(
                    spec_opt_u64(args.enhance_timeout_sec),
                    spec_opt_u64(file.enhance_timeout_sec),
                    spec_opt_string(env.enhance_timeout_sec),
                    10,
                    600,
                    u64::MAX as int,
                )
                &&& !c.enhance_timeout_explicit ==> c.enhance_timeout_sec == 90
                &&& c.ui_timeout_sec == spec_u64_setting(
                    args.ui_timeout_sec,
                    file.ui_timeout_sec,
                    env.ui_timeout_sec,
                    480,
                    30,
                    3600,
                )
            },
        },
{
    proof {
        reveal_strlit("");
    }
    let search_provider_name = resolve_string(
        args.search_provider,
        file_str(&file.search_provider),
        env_str(&env.search_provider),
        "local",
    );
    let search_provider_kind = match SearchProviderKind::parse(search_provider_name.as_str()) {
        Some(k) => k,
        None => {
            let mut m = lit("Invalid search provider: ");
            append_chars(&mut m, &to_chars(search_provider_name.as_str()));
            append_chars(&mut m, &lit(" (expected remote|local)"));
            return Err(string_from_chars(m.as_slice()));
        },
    };
    let base_resolved = resolve_optional_string(
        args.base_url,
        file_str(&file.base_url),
        env_str(&env.base_url),
    );
    let token = resolve_string(args.token, file_str(&file.token), env_str(&env.token), "");
    let batch_size = resolve_usize(
        args.batch_size,
        file.batch_size,
        env_str(&env.batch_size),
        10,
        1,
        100,
    );
    let max_lines_per_blob = resolve_usize(
        args.max_lines_per_blob,
        file.max_lines_per_blob,
        env_str(&env.max_lines_per_blob),
        800,
        50,
        5000,
    );
    let text_extensions = resolve_text_extensions(
        file.text_extensions,
        env_str(&env.text_extensions),
    );
    let exclude_patterns = resolve_string_list(
        file.exclude_patterns,
        env_str(&env.exclude_patterns),
        default_exclude_patterns(),
    );
    let provider_name = resolve_string(
        args.enhance_provider,
        file_str(&file.enhance_provider),
        env_str(&env.enhance_provider),
        "remote",
    );
    let provider_kind = match EnhanceProviderKind::parse(provider_name.as_str()) {
        Some(k) => k,
        None => {
            let mut m = lit("Invalid provider: ");
            append_chars(&mut m, &to_chars(provider_name.as_str()));
            append_chars(&mut m, &lit(" (expected remote|codex)"));
            return Err(string_from_chars(m.as_slice()));
        },
    };
    let base_url = remote_base_url(base_resolved);
    let codex_api_base = match resolve_optional_string(
        args.codex_api_base,
        file_str(&file.codex_api_base),
        env_str(&env.codex_api_base),
    ) {
        Some(v) => normalize_external_base_url(v.as_str()),
        None => String::new(),
    };
    let codex_api_key = resolve_string(
        args.codex_api_key,
        file_str(&file.codex_api_key),
        env_str(&env.codex_api_key),
        "",
    );
    let codex_model = resolve_string(
        args.codex_model,
        file_str(&file.codex_model),
        env_str(&env.codex_model),
        "gpt-5.4",
    );
    let codex_reasoning_effort = resolve_string(
        args.codex_reasoning_effort,
        file_str(&file.codex_reasoning_effort),
        env_str(&env.codex_reasoning_effort),
        "low",
    );
    match validate_codex_reasoning_effort(codex_reasoning_effort.as_str()) {
        Ok(()) => {},
        Err(e) => {
            return Err(e);
        },
    }
    let debug = resolve_bool(args.debug, file.debug, env_str(&env.debug), false);
    let debug_verbose = resolve_bool(
        args.debug_verbose,
        file.debug_verbose,
        env_str(&env.debug_verbose),
        false,
    );
    let debug_file = resolve_string(
        args.debug_file,
        file_str(&file.debug_file),
        env_str(&env.debug_file),
        "",
    );
    let summary_name = resolve_string(
        args.local_summary_mode,
        file_str(&file.local_summary_mode),
        env_str(&env.local_summary_mode),
        "local_fallback_only",
    );
    let local_summary_mode = match LocalSummaryMode::parse(summary_name.as_str()) {
        Some(k) => k,
        None => {
            let mut m = lit("Invalid local summary mode: ");
            append_chars(&mut m, &to_chars(summary_name.as_str()));
            append_chars(&mut m, &lit(" (expected gpt|local_fallback_only)"));
            return Err(string_from_chars(m.as_slice()));
        },
    };
    let rebuild_name = resolve_string(
        args.local_index_rebuild,
        file_str(&file.local_index_rebuild),
        env_str(&env.local_index_rebuild),
        "auto",
    );
    let local_index_rebuild = match LocalIndexRebuildMode::parse(rebuild_name.as_str()) {
        Some(k) => k,
        None => {
            let mut m = lit("Invalid local index rebuild mode: ");
            append_chars(&mut m, &to_chars(rebuild_name.as_str()));
            append_chars(&mut m, &lit(" (expected auto|force_full)"));
            return Err(string_from_chars(m.as_slice()));
        },
    };
    let rerank_name = resolve_string(
        args.local_rerank_mode,
        file_str(&file.local_rerank_mode),
        env_str(&env.local_rerank_mode),
        "off",
    );
    let local_rerank_mode = match LocalRerankMode::parse(rerank_name.as_str()) {
        Some(k) => k,
        None => {
            let mut m = lit("Invalid local rerank mode: ");
            append_chars(&mut m, &to_chars(rerank_name.as_str()));
            append_chars(&mut m, &lit(" (expected off|broad_only)"));
            return Err(string_from_chars(m.as_slice()));
        },
    };
    let local_rerank_pool_size = resolve_usize(
        args.local_rerank_pool_size,
        file.local_rerank_pool_size,
        env_str(&env.local_rerank_pool_size),
        12,
        4,
        32,
    );
    let local_rerank_timeout_sec = resolve_u64(
        args.local_rerank_timeout_sec,
        file.local_rerank_timeout_sec,
        env_str(&env.local_rerank_timeout_sec),
        10,
        3,
        120,
    );
    let local_rerank_model = resolve_string(
        args.local_rerank_model,
        file_str(&file.local_rerank_model),
        env_str(&env.local_rerank_model),
        codex_model.as_str(),
    );
    let search_timeout_sec = resolve_u64(
        args.search_timeout_sec,
        file.search_timeout_sec,
        env_str(&env.search_timeout_sec),
        50,
        10,
        300,
    );
    let enhance_override = resolve_u64_override(
        args.enhance_timeout_sec,
        file.enhance_timeout_sec,
        env_str(&env.enhance_timeout_sec),
        10,
        600,
    );
    let enable_log = resolve_bool(args.enable_log, file.enable_log, env_str(&env.enable_log), false);
    let ui_timeout_sec = resolve_u64(
        args.ui_timeout_sec,
        file.ui_timeout_sec,
        env_str(&env.ui_timeout_sec),
        480,
        30,
        3600,
    );
    Ok(
        Config {
            base_url,
            token,
            batch_size,
            max_lines_per_blob,
            text_extensions,
            exclude_patterns,
            enable_log,
            search_provider: search_provider_kind.as_str().to_owned(),
            enhance_provider: provider_kind.as_str().to_owned(),
            codex_api_base,
            codex_api_key,
            codex_model,
            codex_reasoning_effort,
            debug,
            debug_verbose,
            debug_file,
            local_summary_mode: local_summary_mode.as_str().to_owned(),
            local_index_rebuild: local_index_rebuild.as_str().to_owned(),
            local_rerank_mode: local_rerank_mode.as_str().to_owned(),
            local_rerank_pool_size,
            local_rerank_timeout_sec,
            local_rerank_model,
            search_timeout_sec,
            enhance_timeout_sec: match enhance_override {
                Some(v) => v,
                None => 90,
            },
            enhance_timeout_explicit: enhance_override.is_some(),
            ui_timeout_sec,
        },
    )
}


/// Overlaying a configuration that sets nothing changes nothing, and overlaying anything on a
/// configuration that sets nothing gives that configuration.
pub proof fn law_merge_empty_is_neutral(c: FileConfig)
    ensures
        spec_merge(c, spec_empty_file_config()) == c,
        spec_merge(spec_empty_file_config(), c) == c,
{
}

/// Overlaying `b` and then `c` on `a` is overlaying on `a` what `c` overlaid on `b` gives: the
/// user, project and any further level may be merged in either grouping.
pub proof fn law_merge_associative(a: FileConfig, b: FileConfig, c: FileConfig)
    ensures
        spec_merge(spec_merge(a, b), c) == spec_merge(a, spec_merge(b, c)),
{
    lemma_prefer_associative(a.base_url, b.base_url, c.base_url);
    lemma_prefer_associative(a.token, b.token, c.token);
    lemma_prefer_associative(a.batch_size, b.batch_size, c.batch_size);
    lemma_prefer_associative(a.max_lines_per_blob, b.max_lines_per_blob, c.max_lines_per_blob);
    lemma_prefer_associative(a.text_extensions, b.text_extensions, c.text_extensions);
    lemma_prefer_associative(a.exclude_patterns, b.exclude_patterns, c.exclude_patterns);
    lemma_prefer_associative(a.enable_log, b.enable_log, c.enable_log);
    lemma_prefer_associative(a.search_provider, b.search_provider, c.search_provider);
    lemma_prefer_associative(a.enhance_provider, b.enhance_provider, c.enhance_provider);
    lemma_prefer_associative(a.codex_api_base, b.codex_api_base, c.codex_api_base);
    lemma_prefer_associative(a.codex_api_key, b.codex_api_key, c.codex_api_key);
    lemma_prefer_associative(a.codex_model, b.codex_model, c.codex_model);
    lemma_prefer_associative(a.codex_reasoning_effort, b.codex_reasoning_effort, c.codex_reasoning_effort);
    lemma_prefer_associative(a.debug, b.debug, c.debug);
    lemma_prefer_associative(a.debug_verbose, b.debug_verbose, c.debug_verbose);
    lemma_prefer_associative(a.debug_file, b.debug_file, c.debug_file);
    lemma_prefer_associative(a.local_summary_mode, b.local_summary_mode, c.local_summary_mode);
    lemma_prefer_associative(a.local_index_rebuild, b.local_index_rebuild, c.local_index_rebuild);
    lemma_prefer_associative(a.local_rerank_mode, b.local_rerank_mode, c.local_rerank_mode);
    lemma_prefer_associative(a.local_rerank_pool_size, b.local_rerank_pool_size, c.local_rerank_pool_size);
    lemma_prefer_associative(a.local_rerank_timeout_sec, b.local_rerank_timeout_sec, c.local_rerank_timeout_sec);
    lemma_prefer_associative(a.local_rerank_model, b.local_rerank_model, c.local_rerank_model);
    lemma_prefer_associative(a.search_timeout_sec, b.search_timeout_sec, c.search_timeout_sec);
    lemma_prefer_associative(a.enhance_timeout_sec, b.enhance_timeout_sec, c.enhance_timeout_sec);
    lemma_prefer_associative(a.ui_timeout_sec, b.ui_timeout_sec, c.ui_timeout_sec);
}

proof fn lemma_prefer_associative<T>(x: Option<T>, y: Option<T>, z: Option<T>)
    ensures
        spec_prefer(spec_prefer(x, y), z) == spec_prefer(x, spec_prefer(y, z)),
{
}

/// Overlaying a configuration twice is overlaying it once.
pub proof fn law_merge_idempotent(a: FileConfig, b: FileConfig)
    ensures
        spec_merge(spec_merge(a, b), b) == spec_merge(a, b),
{
}
} // verus!
