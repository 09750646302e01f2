//! The process watcher's rules: compiling them from the configuration,
//! finding the first rule that a running process matches, and deciding when
//! to ask the daemon for another profile.
use crate::config_check::is_profile_name;
use crate::matchers::{
    compile_glob, compile_regex, glob_error_text, glob_match, glob_matches, glob_valid,
    regex_error_text, regex_is_match, regex_match, regex_valid, CmdMatcher, ExeMatcher,
};
use crate::text::{lowercase, str_eq, str_lowercase, string_of};
use vstd::prelude::*;

verus! {

/// The `[watcher]` table of watcher.toml.
#[derive(Debug)]
pub struct WatcherSettings {
    pub poll_interval: u64,
    pub default_profile: Option<String>,
}

/// Seconds between two scans when the config does not say.
pub fn default_poll_interval() -> (r: u64)
    ensures
        r == 5,
{
    5
}

impl Default for WatcherSettings {
    fn default() -> (s: Self)
        ensures
            s.poll_interval == 5,
            s.default_profile is None,
    {
        WatcherSettings { poll_interval: default_poll_interval(), default_profile: None }
    }
}

/// One `[[rule]]` of watcher.toml.
#[derive(Debug)]
pub struct RuleDef {
    pub name: String,
    pub match_exe: Option<String>,
    pub match_cmd: Option<String>,
    pub profile: String,
}

/// The whole of watcher.toml.
#[derive(Debug)]
pub struct WatcherConfig {
    pub watcher: WatcherSettings,
    pub rule: Vec<RuleDef>,
}

/// What a rule matches: the process name by glob, or the command line by regex.
#[derive(Debug)]
pub enum Matcher {
    Exe(ExeMatcher),
    Cmd(CmdMatcher),
}

/// A rule whose pattern has been compiled and whose profile is lowercased.
#[derive(Debug)]
pub struct CompiledRule {
    pub name: String,
    pub matcher: Matcher,
    pub profile: String,
}

/// A running process: its name and its command line.
#[derive(Debug)]
pub struct ProcessInfo {
    pub exe_name: String,
    pub cmdline: String,
}

/// Why a watcher config was refused.
#[derive(Debug)]
pub enum WatcherError {
    InvalidDefaultProfile(String),
    InvalidProfile { rule: String, profile: String },
    /// A glob that does not compile, with the compiler's reason.
    InvalidGlob { rule: String, pattern: String, cause: String },
    /// A regex that does not compile, with the compiler's reason.
    InvalidRegex { rule: String, pattern: String, cause: String },
    BothMatchers(String),
    NoMatcher(String),
}

/// A refusal, its strings taken as characters.
pub enum WatcherErrorModel {
    InvalidDefaultProfile(Seq<char>),
    InvalidProfile { rule: Seq<char>, profile: Seq<char> },
    InvalidGlob { rule: Seq<char>, pattern: Seq<char>, cause: Seq<char> },
    InvalidRegex { rule: Seq<char>, pattern: Seq<char>, cause: Seq<char> },
    BothMatchers(Seq<char>),
    NoMatcher(Seq<char>),
}

impl View for WatcherError {
    type V = WatcherErrorModel;

    open spec fn view(&self) -> WatcherErrorModel {
        match self {
            WatcherError::InvalidDefaultProfile(p) => WatcherErrorModel::InvalidDefaultProfile(p@),
            WatcherError::InvalidProfile { rule, profile } => WatcherErrorModel::InvalidProfile {
                rule: rule@,
                profile: profile@,
            },
            WatcherError::InvalidGlob { rule, pattern, cause } => WatcherErrorModel::InvalidGlob {
                rule: rule@,
                pattern: pattern@,
                cause: cause@,
            },
            WatcherError::InvalidRegex { rule, pattern, cause } => WatcherErrorModel::InvalidRegex {
                rule: rule@,
                pattern: pattern@,
                cause: cause@,
            },
            WatcherError::BothMatchers(r) => WatcherErrorModel::BothMatchers(r@),
            WatcherError::NoMatcher(r) => WatcherErrorModel::NoMatcher(r@),
        }
    }
}

pub open spec fn expected_profiles() -> Seq<char> {
    "', expected one of: quiet, balanced, performance"@
}

/// The text of a refusal.
pub open spec fn error_message(e: WatcherErrorModel) -> Seq<char> {
    match e {
        WatcherErrorModel::InvalidDefaultProfile(p) => "invalid default_profile '"@ + p
            + expected_profiles(),
        WatcherErrorModel::InvalidProfile { rule, profile } => "rule '"@ + rule
            + "': invalid profile '"@ + profile + expected_profiles(),
        WatcherErrorModel::InvalidGlob { rule, pattern, .. } => "rule '"@ + rule + "': invalid glob '"@
            + pattern + "'"@,
        WatcherErrorModel::InvalidRegex { rule, pattern, .. } => "rule '"@ + rule
            + "': invalid regex '"@ + pattern + "'"@,
        WatcherErrorModel::BothMatchers(rule) => "rule '"@ + rule
            + "': specify match_exe or match_cmd, not both"@,
        WatcherErrorModel::NoMatcher(rule) => "rule '"@ + rule
            + "': must specify match_exe or match_cmd"@,
    }
}

impl WatcherError {
    /// What the pattern compiler said, for a pattern that does not compile.
    pub fn cause(&self) -> (c: Option<&str>)
        ensures
            match self@ {
                WatcherErrorModel::InvalidGlob { cause, .. } => c matches Some(x) && x@ == cause,
                WatcherErrorModel::InvalidRegex { cause, .. } => c matches Some(x) && x@ == cause,
                _ => c is None,
            },
    {
        match self {
            WatcherError::InvalidGlob { cause, .. } => Some(cause.as_str()),
            WatcherError::InvalidRegex { cause, .. } => Some(cause.as_str()),
            _ => None,
        }
    }

    /// The text of the refusal.
    pub fn message(&self) -> (s: String)
        ensures
            s@ == error_message(self@),
    {
        match self {
            WatcherError::InvalidDefaultProfile(p) => {
                let mut s = string_of("invalid default_profile '");
                s.append(p.as_str());
                s.append("', expected one of: quiet, balanced, performance");
                s
            },
            WatcherError::InvalidProfile { rule, profile } => {
                let mut s = string_of("rule '");
                s.append(rule.as_str());
                s.append("': invalid profile '");
                s.append(profile.as_str());
                s.append("', expected one of: quiet, balanced, performance");
                s
            },
            WatcherError::InvalidGlob { rule, pattern, .. } => {
                let mut s = string_of("rule '");
                s.append(rule.as_str());
                s.append("': invalid glob '");
                s.append(pattern.as_str());
                s.append("'");
                s
            },
            WatcherError::InvalidRegex { rule, pattern, .. } => {
                let mut s = string_of("rule '");
                s.append(rule.as_str());
                s.append("': invalid regex '");
                s.append(pattern.as_str());
                s.append("'");
                s
            },
            WatcherError::BothMatchers(rule) => {
                let mut s = string_of("rule '");
                s.append(rule.as_str());
                s.append("': specify match_exe or match_cmd, not both");
                s
            },
            WatcherError::NoMatcher(rule) => {
                let mut s = string_of("rule '");
                s.append(rule.as_str());
                s.append("': must specify match_exe or match_cmd");
                s
            },
        }
    }
}

/// What is wrong with one rule, if anything: its profile first, then its
/// matchers.
pub open spec fn rule_fault(def: RuleDef) -> Option<WatcherErrorModel> {
    if !is_profile_name(str_lowercase(def.profile@)) {
        Some(WatcherErrorModel::InvalidProfile { rule: def.name@, profile: def.profile@ })
    } else {
        match (def.match_exe, def.match_cmd) {
            (Some(p), None) => if glob_valid(p@) {
                None
            } else {
                Some(
                    WatcherErrorModel::InvalidGlob {
                        rule: def.name@,
                        pattern: p@,
                        cause: glob_error_text(p@),
                    },
                )
            },
            (None, Some(p)) => if regex_valid(p@) {
                None
            } else {
                Some(
                    WatcherErrorModel::InvalidRegex {
                        rule: def.name@,
                        pattern: p@,
                        cause: regex_error_text(p@),
                    },
                )
            },
            (Some(_), Some(_)) => Some(WatcherErrorModel::BothMatchers(def.name@)),
            (None, None) => Some(WatcherErrorModel::NoMatcher(def.name@)),
        }
    }
}

/// The fault of the first faulty rule among the first `n`.
pub open spec fn first_fault(defs: Seq<RuleDef>, n: int) -> Option<WatcherErrorModel>
    decreases n,
{
    if n <= 0 {
        None
    } else {
        match first_fault(defs, n - 1) {
            Some(e) => Some(e),
            None => rule_fault(defs[n - 1]),
        }
    }
}

/// Why a config is refused: its default profile, else its first faulty rule.
pub open spec fn config_fault(config: WatcherConfig) -> Option<WatcherErrorModel> {
    match config.watcher.default_profile {
        Some(dp) => if !is_profile_name(str_lowercase(dp@)) {
            Some(WatcherErrorModel::InvalidDefaultProfile(dp@))
        } else {
            first_fault(config.rule@, config.rule@.len() as int)
        },
        None => first_fault(config.rule@, config.rule@.len() as int),
    }
}

/// A compiled rule made from a rule that has no fault.
pub open spec fn compiled_from(r: CompiledRule, def: RuleDef) -> bool {
    &&& r.name@ == def.name@
    &&& r.profile@ == str_lowercase(def.profile@)
    &&& match (def.match_exe, def.match_cmd) {
        (Some(p), None) => r.matcher matches Matcher::Exe(m) && m.source() == p@,
        (None, Some(p)) => r.matcher matches Matcher::Cmd(m) && m.source() == p@,
        _ => false,
    }
}

pub open spec fn opt_chars(o: Option<String>) -> Option<Seq<char>> {
    match o {
        Some(s) => Some(s@),
        None => None,
    }
}

pub fn is_profile_text(s: &str) -> (r: bool)
    ensures
        r == is_profile_name(s@),
{
    str_eq(s, "quiet") || str_eq(s, "balanced") || str_eq(s, "performance")
}

/// Compiles one rule, or says what is wrong with it.
fn compile_rule(def: &RuleDef) -> (r: Result<CompiledRule, WatcherError>)
    ensures
        match r {
            Ok(c) => rule_fault(*def) is None && compiled_from(c, *def),
            Err(e) => rule_fault(*def) == Some(e@),
        },
{
    let lower = lowercase(def.profile.as_str());
    if !is_profile_text(lower.as_str()) {
        return Err(
            WatcherError::InvalidProfile {
                rule: string_of(def.name.as_str()),
                profile: string_of(def.profile.as_str()),
            },
        );
    }
    let matcher = match &def.match_exe {
        Some(pat) => match &def.match_cmd {
            Some(_) => {
                return Err(WatcherError::BothMatchers(string_of(def.name.as_str())));
            },
            None => match compile_glob(pat.as_str()) {
                Ok(m) => Matcher::Exe(m),
                Err(cause) => {
                    return Err(
                        WatcherError::InvalidGlob {
                            rule: string_of(def.name.as_str()),
                            pattern: string_of(pat.as_str()),
                            cause,
                        },
                    );
                },
            },
        },
        None => match &def.match_cmd {
            Some(pat) => match compile_regex(pat.as_str()) {
                Ok(m) => Matcher::Cmd(m),
                Err(cause) => {
                    return Err(
                        WatcherError::InvalidRegex {
                            rule: string_of(def.name.as_str()),
                            pattern: string_of(pat.as_str()),
                            cause,
                        },
                    );
                },
            },
            None => {
                return Err(WatcherError::NoMatcher(string_of(def.name.as_str())));
            },
        },
    };
    Ok(CompiledRule { name: string_of(def.name.as_str()), matcher, profile: lower })
}

/// Validates the config and compiles every rule's pattern up front. The
/// first problem found refuses the whole config: an invalid default
/// profile, else the first rule with an invalid profile, both or neither
/// matcher, or a pattern that does not compile.
pub fn compile_rules(config: WatcherConfig) -> (r: Result<(WatcherSettings, Vec<CompiledRule>), WatcherError>)
    ensures
        match r {
            Ok((settings, rules)) => {
                &&& config_fault(config) is None
                &&& settings.poll_interval == config.watcher.poll_interval
                &&& opt_chars(settings.default_profile) == opt_chars(config.watcher.default_profile)
                &&& rules@.len() == config.rule@.len()
                &&& forall|i: int| 0 <= i < rules@.len() ==> compiled_from(#[trigger] rules@[i], config.rule@[i])
            },
            Err(e) => config_fault(config) == Some(e@),
        },
{
    if let Some(dp) = &config.watcher.default_profile {
        let lower = lowercase(dp.as_str());
        if !is_profile_text(lower.as_str()) {
            return Err(WatcherError::InvalidDefaultProfile(string_of(dp.as_str())));
        }
    }
    let mut rules: Vec<CompiledRule> = Vec::new();
    let mut i: usize = 0;
    while i < config.rule.len()
        invariant
            i <= config.rule@.len(),
            config.watcher.default_profile matches Some(dp) ==> is_profile_name(str_lowercase(dp@)),
            first_fault(config.rule@, i as int) is None,
            rules@.len() == i,
            forall|k: int| 0 <= k < i ==> compiled_from(#[trigger] rules@[k], config.rule@[k]),
        decreases config.rule@.len() - i,
    {
        match compile_rule(&config.rule[i]) {
            Ok(c) => {
                rules.push(c);
            },
            Err(e) => {
                proof {
                    lemma_first_fault_stays(config.rule@, i as int + 1, config.rule@.len() as int);
                }
                return Err(e);
            },
        }
        i = i + 1;
    }
    Ok((config.watcher, rules))
}

/// Once a fault is found among the first `m` rules, it is the first fault
/// among any more.
proof fn lemma_first_fault_stays(defs: Seq<RuleDef>, m: int, n: int)
    requires
        0 <= m <= n,
        first_fault(defs, m) is Some,
    ensures
        first_fault(defs, n) == first_fault(defs, m),
    decreases n - m,
{
    if m < n {
        lemma_first_fault_stays(defs, m, n - 1);
    }
}

/// Whether a `/proc` entry names a process: its name is all ASCII digits.
pub open spec fn is_pid_name(name: Seq<char>) -> bool {
    forall|i: int| 0 <= i < name.len() ==> '0' <= #[trigger] name[i] <= '9'
}

/// Whether a `/proc` entry is a process directory.
pub fn is_pid_dir(name: &str) -> (r: bool)
    ensures
        r == is_pid_name(name@),
{
    let v = crate::text::chars_of(name);
    let mut k: usize = 0;
    while k < v.len()
        invariant
            v@ == name@,
            k <= v@.len(),
            forall|i: int| 0 <= i < k ==> '0' <= #[trigger] v@[i] <= '9',
        decreases v@.len() - k,
    {
        if !('0' <= v[k] && v[k] <= '9') {
            return false;
        }
        k = k + 1;
    }
    true
}

/// A process's `cmdline` with the NUL separators between arguments turned
/// into spaces.
pub fn cmdline_spaces(raw: &Vec<u8>) -> (r: Vec<u8>)
    ensures
        r@.len() == raw@.len(),
        forall|i: int| 0 <= i < raw@.len() ==> #[trigger] r@[i] == if raw@[i] == 0 {
            32u8
        } else {
            raw@[i]
        },
{
    let mut r: Vec<u8> = Vec::new();
    let mut k: usize = 0;
    while k < raw.len()
        invariant
            k <= raw@.len(),
            r@.len() == k,
            forall|i: int| 0 <= i < k ==> #[trigger] r@[i] == if raw@[i] == 0 {
                32u8
            } else {
                raw@[i]
            },
        decreases raw@.len() - k,
    {
        let b = raw[k];
        r.push(if b == 0 { 32u8 } else { b });
        k = k + 1;
    }
    r
}

/// A process from its `comm` and its command line (empty when it could not
/// be read), both trimmed.
pub fn process_info(comm: &str, cmdline: &str) -> (p: ProcessInfo)
    ensures
        p.exe_name@ == crate::text::trim_spec(comm@),
        p.cmdline@ == crate::text::trim_spec(cmdline@),
{
    ProcessInfo { exe_name: crate::text::trim(comm), cmdline: crate::text::trim(cmdline) }
}

/// Whether a matcher matches a process.
pub open spec fn matcher_hits(m: Matcher, p: ProcessInfo) -> bool {
    match m {
        Matcher::Exe(e) => glob_matches(e.source(), p.exe_name@),
        Matcher::Cmd(c) => regex_is_match(c.source(), p.cmdline@),
    }
}

/// Whether a rule matches any of the processes.
pub open spec fn rule_hits(r: CompiledRule, procs: Seq<ProcessInfo>) -> bool {
    exists|j: int| 0 <= j < procs.len() && matcher_hits(r.matcher, #[trigger] procs[j])
}

/// The position of the first `true` among the first `n`.
pub open spec fn first_true_upto(s: Seq<bool>, n: int) -> Option<int>
    decreases n,
{
    if n <= 0 {
        None
    } else {
        match first_true_upto(s, n - 1) {
            Some(i) => Some(i),
            None => if s[n - 1] {
                Some(n - 1)
            } else {
                None
            },
        }
    }
}

pub open spec fn first_true(s: Seq<bool>) -> Option<int> {
    first_true_upto(s, s.len() as int)
}

proof fn lemma_first_true_upto(s: Seq<bool>, n: int)
    requires
        0 <= n <= s.len(),
    ensures
        first_true_upto(s, n) matches Some(i) ==> 0 <= i < n && s[i] && forall|k: int|
            0 <= k < i ==> !s[k],
        first_true_upto(s, n) is None ==> forall|k: int| 0 <= k < n ==> !s[k],
    decreases n,
{
    if n > 0 {
        lemma_first_true_upto(s, n - 1);
    }
}

/// The first true entry: the first earlier entry true is the answer, none
/// true gives `None`.
pub proof fn lemma_first_true(s: Seq<bool>)
    ensures
        first_true(s) matches Some(i) ==> 0 <= i < s.len() && s[i] && forall|k: int|
            0 <= k < i ==> !s[k],
        first_true(s) is None <==> forall|k: int| 0 <= k < s.len() ==> !s[k],
{
    lemma_first_true_upto(s, s.len() as int);
    if first_true(s) is Some {
        let i = first_true(s)->0;
        assert(s[i]);
    }
}

/// The position of the first rule that matched, given for each rule
/// whether it matched.
pub fn first_match(hits: &Vec<bool>) -> (r: Option<usize>)
    ensures
        match r {
            Some(i) => first_true(hits@) == Some(i as int),
            None => first_true(hits@) is None,
        },
{
    let mut i: usize = 0;
    while i < hits.len()
        invariant
            i <= hits@.len(),
            first_true_upto(hits@, i as int) is None,
        decreases hits@.len() - i,
    {
        if hits[i] {
            proof {
                lemma_first_true_stays(hits@, i as int + 1, hits@.len() as int);
            }
            return Some(i);
        }
        i = i + 1;
    }
    None
}

proof fn lemma_first_true_stays(s: Seq<bool>, m: int, n: int)
    requires
        0 <= m <= n,
        first_true_upto(s, m) is Some,
    ensures
        first_true_upto(s, n) == first_true_upto(s, m),
    decreases n - m,
{
    if m < n {
        lemma_first_true_stays(s, m, n - 1);
    }
}

/// A rule hits a scan exactly when it hits some part of it, wherever the
/// matching process stands: a scan split in two is hit when either part is;
/// a single process is hit when the rule's matcher matches it; an empty scan
/// is never hit.
pub proof fn lemma_rule_hits_any(
    r: CompiledRule,
    a: Seq<ProcessInfo>,
    b: Seq<ProcessInfo>,
    p: ProcessInfo,
)
    ensures
        rule_hits(r, a + b) == (rule_hits(r, a) || rule_hits(r, b)),
        rule_hits(r, seq![p]) == matcher_hits(r.matcher, p),
        !rule_hits(r, Seq::<ProcessInfo>::empty()),
{
    let ab = a + b;
    if rule_hits(r, ab) {
        let j = choose|j: int| 0 <= j < ab.len() && matcher_hits(r.matcher, #[trigger] ab[j]);
        if j < a.len() {
            assert(ab[j] == a[j]);
        } else {
            assert(ab[j] == b[j - a.len()]);
        }
    }
    if rule_hits(r, a) {
        let j = choose|j: int| 0 <= j < a.len() && matcher_hits(r.matcher, #[trigger] a[j]);
        assert(ab[j] == a[j]);
    }
    if rule_hits(r, b) {
        let j = choose|j: int| 0 <= j < b.len() && matcher_hits(r.matcher, #[trigger] b[j]);
        assert(ab[a.len() + j] == b[j]);
    }
    let one = seq![p];
    assert(one[0] == p);
}

/// Whether a rule's matcher matches any of the processes.
pub fn rule_matches(rule: &CompiledRule, processes: &[ProcessInfo]) -> (r: bool)
    ensures
        r == rule_hits(*rule, processes@),
        forall|j: int|
            0 <= j < processes@.len() && matcher_hits(rule.matcher, #[trigger] processes@[j]) ==> r,
        r ==> exists|j: int|
            0 <= j < processes@.len() && matcher_hits(rule.matcher, #[trigger] processes@[j]),
{
    let mut j: usize = 0;
    while j < processes.len()
        invariant
            j <= processes@.len(),
            forall|k: int| 0 <= k < j ==> !matcher_hits(rule.matcher, #[trigger] processes@[k]),
        decreases processes@.len() - j,
    {
        let p = &processes[j];
        let hit = match &rule.matcher {
            Matcher::Exe(m) => glob_match(m, p.exe_name.as_str()),
            Matcher::Cmd(m) => regex_match(m, p.cmdline.as_str()),
        };
        if hit {
            assert(matcher_hits(rule.matcher, processes@[j as int]));
            return true;
        }
        j = j + 1;
    }
    false
}

/// For each rule, whether it matches any of the processes.
pub open spec fn rule_hit_seq(rules: Seq<CompiledRule>, procs: Seq<ProcessInfo>) -> Seq<bool> {
    Seq::new(rules.len(), |i: int| rule_hits(rules[i], procs))
}

/// The profile of the first rule that matches any running process; `None`
/// when no rule does.
pub fn evaluate_rules<'a>(rules: &'a [CompiledRule], processes: &[ProcessInfo]) -> (r: Option<&'a str>)
    ensures
        match first_true(rule_hit_seq(rules@, processes@)) {
            Some(i) => r matches Some(s) && s@ == rules@[i].profile@,
            None => r is None,
        },
{
    let mut hits: Vec<bool> = Vec::new();
    let mut i: usize = 0;
    while i < rules.len()
        invariant
            i <= rules@.len(),
            hits@ == rule_hit_seq(rules@, processes@).subrange(0, i as int),
        decreases rules@.len() - i,
    {
        let hit = rule_matches(&rules[i], processes);
        hits.push(hit);
        i = i + 1;
        assert(hits@ =~= rule_hit_seq(rules@, processes@).subrange(0, i as int));
    }
    assert(hits@ =~= rule_hit_seq(rules@, processes@));
    proof {
        lemma_first_true(hits@);
    }
    match first_match(&hits) {
        Some(k) => Some(rules[k].profile.as_str()),
        None => None,
    }
}

/// Seconds between two scans: the configured interval, at least one.
pub fn effective_poll_interval(settings: &WatcherSettings) -> (r: u64)
    ensures
        r == if settings.poll_interval >= 1 {
            settings.poll_interval
        } else {
            1
        },
{
    if settings.poll_interval >= 1 {
        settings.poll_interval
    } else {
        1
    }
}

/// The profile the watcher wants: the matched rule's, else the default
/// profile lowercased, else none.
pub open spec fn desired_profile(target: Option<Seq<char>>, default_profile: Option<Seq<char>>) -> Option<
    Seq<char>,
> {
    match target {
        Some(t) => Some(t),
        None => match default_profile {
            Some(d) => Some(str_lowercase(d)),
            None => None,
        },
    }
}

pub open spec fn opt_str_chars(o: Option<&str>) -> Option<Seq<char>> {
    match o {
        Some(s) => Some(s@),
        None => None,
    }
}

/// The profile the watcher last set successfully, as far as it knows.
pub struct WatchState {
    last_set: Option<String>,
}

impl WatchState {
    pub closed spec fn last_set(&self) -> Option<Seq<char>> {
        opt_chars(self.last_set)
    }

    /// Starts from the daemon's current profile, lowercased, so that the
    /// first scan does not set it again.
    pub fn new(current: Option<&str>) -> (s: Self)
        ensures
            s.last_set() == match current {
                Some(c) => Some(str_lowercase(c@)),
                None => None,
            },
    {
        match current {
            Some(c) => WatchState { last_set: Some(lowercase(c)) },
            None => WatchState { last_set: None },
        }
    }

    /// The profile to ask the daemon for after a scan whose first matching
    /// rule gave `target`: the desired profile, unless it is the one last set.
    pub fn plan(&self, target: Option<&str>, settings: &WatcherSettings) -> (r: Option<String>)
        ensures
            opt_chars(r) == switch_to(
                self.last_set(),
                desired_profile(opt_str_chars(target), opt_chars(settings.default_profile)),
            ),
    {
        let desired = match target {
            Some(t) => string_of(t),
            None => match &settings.default_profile {
                Some(d) => lowercase(d.as_str()),
                None => {
                    return None;
                },
            },
        };
        match &self.last_set {
            Some(last) => if str_eq(last.as_str(), desired.as_str()) {
                None
            } else {
                Some(desired)
            },
            None => Some(desired),
        }
    }

    /// Records the outcome of asking for `profile`: it is the last set when
    /// the daemon took it; on a failure nothing is known, so the next scan
    /// asks again.
    pub fn record(&mut self, profile: &str, applied: bool)
        ensures
            final(self).last_set() == after_record(profile@, applied),
    {
        if applied {
            self.last_set = Some(string_of(profile));
        } else {
            self.last_set = None;
        }
    }
}

/// What the watcher knows was last set, after it asked for `profile` and
/// the daemon took it or not.
pub open spec fn after_record(profile: Seq<char>, applied: bool) -> Option<Seq<char>> {
    if applied {
        Some(profile)
    } else {
        None
    }
}

/// The profile to ask for: the desired one, unless it was the last set.
pub open spec fn switch_to(last: Option<Seq<char>>, desired: Option<Seq<char>>) -> Option<Seq<char>> {
    match desired {
        Some(d) => if last == Some(d) {
            None
        } else {
            Some(d)
        },
        None => None,
    }
}

/// Once the daemon took a profile, the watcher does not ask for it again
/// while that profile stays desired; after a failed request it asks again
/// on the next scan.
pub proof fn lemma_no_repeated_switch(d: Seq<char>, applied: bool)
    ensures
        applied ==> switch_to(after_record(d, applied), Some(d)) is None,
        !applied ==> switch_to(after_record(d, applied), Some(d)) == Some(d),
{
}

} // verus!
