//! Provider fallback management: classify call failures and walk a
//! cooldown-aware provider chain so the loop keeps making progress when a
//! backend degrades.

use vstd::prelude::*;
use crate::util::{
    seq_contains, lower_seq, str_chars, to_lower_chars, contains_sub, dec_digits, u64_to_string,
    str_eq,
};
use crate::clock::now_seconds;

verus! {

// ── Configuration ───────────────────────────────────────────────────────────

/// A single model provider configuration (used for both primary and fallbacks).
pub struct ModelConfig {
    pub backend: String,
    pub model: String,
    pub endpoint: String,
    pub api_key: String,
    /// Whether this model supports vision.
    pub vision_enabled: bool,
}

/// Fallback chain configuration.
pub struct FallbackConfig {
    /// Whether to fall back on a rate-limit failure.
    pub fallback_on_rate_limit: bool,
    /// Whether to fall back on an authentication failure.
    pub fallback_on_auth_error: bool,
    /// Whether to fall back on a timeout.
    pub fallback_on_timeout: bool,
    /// How long to avoid a failed provider before retrying (seconds).
    pub fallback_cooldown_secs: u64,
    /// The fallback model chain (tried in order).
    pub fallbacks: Vec<ModelConfig>,
}

impl Default for FallbackConfig {
    /// The defaults: every eligible class falls back, with a one-minute cooldown.
    fn default() -> (r: Self)
        ensures
            r.fallback_on_rate_limit,
            r.fallback_on_auth_error,
            r.fallback_on_timeout,
            r.fallback_cooldown_secs == 60,
            r.fallbacks@.len() == 0,
    {
        FallbackConfig {
            fallback_on_rate_limit: true,
            fallback_on_auth_error: true,
            fallback_on_timeout: true,
            fallback_cooldown_secs: 60,
            fallbacks: Vec::new(),
        }
    }
}

// ── Error classification ────────────────────────────────────────────────────

/// Classifies an LLM API error to determine whether fallback should trigger.
#[derive(Debug, Clone, PartialEq, Eq, Structural)]
pub enum ErrorClass {
    /// Rate limited.
    RateLimit,
    /// Authentication failure (bad key, expired, no quota).
    AuthError,
    /// The request timed out.
    Timeout,
    /// Server-side error (transient).
    ServerError,
    /// Malformed request or unknown model: never fall back.
    ClientError,
    /// Network unreachable, DNS failure, and the like.
    NetworkError,
    /// Unclassifiable.
    Unknown,
}

/// The lowered error text matches a rate-limit pattern.
pub open spec fn rate_limit_pat(l: Seq<char>) -> bool {
    ||| seq_contains(l, "429"@)
    ||| seq_contains(l, "rate limit"@)
    ||| seq_contains(l, "rate_limit"@)
    ||| seq_contains(l, "too many requests"@)
    ||| seq_contains(l, "quota exceeded"@)
    ||| seq_contains(l, "tokens per minute"@)
    ||| seq_contains(l, "requests per minute"@)
}

/// The lowered error text matches an authentication pattern.
pub open spec fn auth_pat(l: Seq<char>) -> bool {
    ||| seq_contains(l, "401"@)
    ||| seq_contains(l, "403"@)
    ||| seq_contains(l, "unauthorized"@)
    ||| seq_contains(l, "forbidden"@)
    ||| seq_contains(l, "invalid api key"@)
    ||| seq_contains(l, "invalid_api_key"@)
    ||| seq_contains(l, "authentication"@)
    ||| seq_contains(l, "billing"@)
    ||| seq_contains(l, "insufficient_quota"@)
}

/// The lowered error text matches a timeout pattern.
pub open spec fn timeout_pat(l: Seq<char>) -> bool {
    ||| seq_contains(l, "timeout"@)
    ||| seq_contains(l, "timed out"@)
    ||| seq_contains(l, "deadline exceeded"@)
    ||| seq_contains(l, "request took too long"@)
}

/// The lowered error text matches a server-error pattern.
pub open spec fn server_pat(l: Seq<char>) -> bool {
    ||| seq_contains(l, "500"@)
    ||| seq_contains(l, "502"@)
    ||| seq_contains(l, "503"@)
    ||| seq_contains(l, "504"@)
    ||| seq_contains(l, "internal server error"@)
    ||| seq_contains(l, "bad gateway"@)
    ||| seq_contains(l, "service unavailable"@)
    ||| seq_contains(l, "overloaded"@)
}

/// The lowered error text matches a client-error pattern.
pub open spec fn client_pat(l: Seq<char>) -> bool {
    ||| seq_contains(l, "400"@)
    ||| seq_contains(l, "invalid request"@)
    ||| seq_contains(l, "model not found"@)
    ||| seq_contains(l, "context_length_exceeded"@)
    ||| seq_contains(l, "max.*token"@)
}

/// The lowered error text matches a network pattern.
pub open spec fn network_pat(l: Seq<char>) -> bool {
    ||| seq_contains(l, "connection refused"@)
    ||| seq_contains(l, "dns"@)
    ||| seq_contains(l, "network"@)
    ||| seq_contains(l, "unreachable"@)
}

/// The classification of an error text: the first matching class wins, in the
/// order rate limit, auth, timeout, server, client, network, unknown.
pub open spec fn spec_classify(e: Seq<char>) -> ErrorClass {
    let l = lower_seq(e);
    if rate_limit_pat(l) {
        ErrorClass::RateLimit
    } else if auth_pat(l) {
        ErrorClass::AuthError
    } else if timeout_pat(l) {
        ErrorClass::Timeout
    } else if server_pat(l) {
        ErrorClass::ServerError
    } else if client_pat(l) {
        ErrorClass::ClientError
    } else if network_pat(l) {
        ErrorClass::NetworkError
    } else {
        ErrorClass::Unknown
    }
}

/// Whether an error class should trigger a model fallback under `config`.
pub open spec fn spec_should_fallback(c: ErrorClass, config: FallbackConfig) -> bool {
    match c {
        ErrorClass::RateLimit => config.fallback_on_rate_limit,
        ErrorClass::AuthError => config.fallback_on_auth_error,
        ErrorClass::Timeout => config.fallback_on_timeout,
        ErrorClass::ServerError => true,
        ErrorClass::NetworkError => true,
        ErrorClass::ClientError => false,
        ErrorClass::Unknown => false,
    }
}

impl ErrorClass {
    /// Classify an error string into a category by case-insensitive substring
    /// search, with the precedence that spec_classify states.  Case folding
    /// is ASCII; every pattern is ASCII, so non-ASCII characters in the error
    /// text cannot affect a match.
    pub fn classify(error: &str) -> (r: Self)
        ensures
            r == spec_classify(error@),
    {
        let l = to_lower_chars(&str_chars(error));

        if contains_sub(&l, &str_chars("429")) || contains_sub(&l, &str_chars("rate limit"))
            || contains_sub(&l, &str_chars("rate_limit"))
            || contains_sub(&l, &str_chars("too many requests"))
            || contains_sub(&l, &str_chars("quota exceeded"))
            || contains_sub(&l, &str_chars("tokens per minute"))
            || contains_sub(&l, &str_chars("requests per minute")) {
            return ErrorClass::RateLimit;
        }

        if contains_sub(&l, &str_chars("401")) || contains_sub(&l, &str_chars("403"))
            || contains_sub(&l, &str_chars("unauthorized"))
            || contains_sub(&l, &str_chars("forbidden"))
            || contains_sub(&l, &str_chars("invalid api key"))
            || contains_sub(&l, &str_chars("invalid_api_key"))
            || contains_sub(&l, &str_chars("authentication"))
            || contains_sub(&l, &str_chars("billing"))
            || contains_sub(&l, &str_chars("insufficient_quota")) {
            return ErrorClass::AuthError;
        }

        if contains_sub(&l, &str_chars("timeout")) || contains_sub(&l, &str_chars("timed out"))
            || contains_sub(&l, &str_chars("deadline exceeded"))
            || contains_sub(&l, &str_chars("request took too long")) {
            return ErrorClass::Timeout;
        }

        if contains_sub(&l, &str_chars("500")) || contains_sub(&l, &str_chars("502"))
            || contains_sub(&l, &str_chars("503")) || contains_sub(&l, &str_chars("504"))
            || contains_sub(&l, &str_chars("internal server error"))
            || contains_sub(&l, &str_chars("bad gateway"))
            || contains_sub(&l, &str_chars("service unavailable"))
            || contains_sub(&l, &str_chars("overloaded")) {
            return ErrorClass::ServerError;
        }

        if contains_sub(&l, &str_chars("400")) || contains_sub(&l, &str_chars("invalid request"))
            || contains_sub(&l, &str_chars("model not found"))
            || contains_sub(&l, &str_chars("context_length_exceeded"))
            || contains_sub(&l, &str_chars("max.*token")) {
            return ErrorClass::ClientError;
        }

        if contains_sub(&l, &str_chars("connection refused")) || contains_sub(&l, &str_chars("dns"))
            || contains_sub(&l, &str_chars("network"))
            || contains_sub(&l, &str_chars("unreachable")) {
            return ErrorClass::NetworkError;
        }

        ErrorClass::Unknown
    }

    /// Whether this error class should trigger a model fallback.
    pub fn should_fallback(&self, config: &FallbackConfig) -> (r: bool)
        ensures
            r == spec_should_fallback(*self, *config),
    {
        match self {
            ErrorClass::RateLimit => config.fallback_on_rate_limit,
            ErrorClass::AuthError => config.fallback_on_auth_error,
            ErrorClass::Timeout => config.fallback_on_timeout,
            ErrorClass::ServerError => true,
            ErrorClass::NetworkError => true,
            ErrorClass::ClientError => false,
            ErrorClass::Unknown => false,
        }
    }
}

/// Error text whose lowered form contains "429" or "rate limit" is always
/// classified as a rate limit, whatever else it contains.
pub proof fn lemma_classify_rate_limit(e: Seq<char>)
    requires
        seq_contains(lower_seq(e), "429"@) || seq_contains(lower_seq(e), "rate limit"@),
    ensures
        spec_classify(e) == ErrorClass::RateLimit,
{
}

/// Error text whose lowered form contains "400" or "model not found" is
/// classified as a client error provided no higher-precedence pattern also
/// matches, and a client error is never eligible for fallback.
pub proof fn lemma_classify_client_error(e: Seq<char>, config: FallbackConfig)
    requires
        seq_contains(lower_seq(e), "400"@) || seq_contains(lower_seq(e), "model not found"@),
        !rate_limit_pat(lower_seq(e)),
        !auth_pat(lower_seq(e)),
        !timeout_pat(lower_seq(e)),
        !server_pat(lower_seq(e)),
    ensures
        spec_classify(e) == ErrorClass::ClientError,
        !spec_should_fallback(spec_classify(e), config),
{
}

// ── Fallback manager ────────────────────────────────────────────────────────

/// Tracks provider health and manages the fallback chain at runtime.
pub struct FallbackManager {
    config: FallbackConfig,
    primary: ModelConfig,
    /// When each provider was last marked failed: key is "backend/model",
    /// value the time the cooldown started, in seconds.
    cooldowns: Vec<(String, u64)>,
    /// Which model is active: negative means primary, otherwise an index into
    /// the fallback list.
    current_index: i32,
    /// Total fallback activations this session.
    total_fallbacks: u32,
}

/// The cooldown key of a provider: "backend/model".
pub open spec fn spec_model_key(m: ModelConfig) -> Seq<char> {
    m.backend@ + "/"@ + m.model@
}

/// The mathematical view of the cooldown list: each key as its characters.
pub open spec fn cooldown_view(cds: Seq<(String, u64)>) -> Seq<(Seq<char>, u64)> {
    cds.map_values(|e: (String, u64)| (e.0@, e.1))
}

/// The cooldown start recorded for `key`: the first matching entry wins.
pub open spec fn find_cooldown(cds: Seq<(Seq<char>, u64)>, key: Seq<char>) -> Option<u64>
    decreases cds.len(),
{
    if cds.len() == 0 {
        None
    } else if cds[0].0 == key {
        Some(cds[0].1)
    } else {
        find_cooldown(cds.drop_first(), key)
    }
}

/// Whether `key` is still cooling down at time `now` with window `secs`.
pub open spec fn on_cooldown(
    cds: Seq<(Seq<char>, u64)>,
    key: Seq<char>,
    now: u64,
    secs: u64,
) -> bool {
    match find_cooldown(cds, key) {
        Some(started) => now - started < secs,
        None => false,
    }
}

/// The first fallback index at or after `i` whose provider is not cooling down.
pub open spec fn first_avail(
    fbs: Seq<ModelConfig>,
    cds: Seq<(Seq<char>, u64)>,
    now: u64,
    secs: u64,
    i: int,
) -> Option<int>
    decreases fbs.len() - i,
{
    if i < 0 || i >= fbs.len() {
        None
    } else if !on_cooldown(cds, spec_model_key(fbs[i]), now, secs) {
        Some(i)
    } else {
        first_avail(fbs, cds, now, secs, i + 1)
    }
}

/// The index of the first cooldown entry under `key`.
pub open spec fn find_cd_idx(cds: Seq<(Seq<char>, u64)>, key: Seq<char>) -> Option<int>
    decreases cds.len(),
{
    if cds.len() == 0 {
        None
    } else if cds[0].0 == key {
        Some(0)
    } else {
        match find_cd_idx(cds.drop_first(), key) {
            Some(i) => Some(i + 1),
            None => None,
        }
    }
}

/// The cooldown map with `key` stamped at `now`: the existing entry is
/// overwritten, or a new one appended — one entry per provider key.
pub open spec fn upsert_cooldown(cds: Seq<(Seq<char>, u64)>, key: Seq<char>, now: u64) -> Seq<
    (Seq<char>, u64),
> {
    match find_cd_idx(cds, key) {
        Some(i) => cds.update(i, (key, now)),
        None => cds.push((key, now)),
    }
}

/// What one failure report does at time `now`: an ineligible error changes
/// nothing; an eligible one stamps the active provider's cooldown (one map
/// entry per provider key, overwritten on renewal) and activates the first
/// available fallback after the current position, wrapping to the primary
/// when the chain is exhausted and its own cooldown has elapsed; with
/// everything still cooling down nothing activates.  Any model handed back
/// is the newly active one and is not on cooldown at `now`; handing back
/// nothing keeps the active model.
pub open spec fn failure_step(
    pre: FallbackManager,
    post: FallbackManager,
    r: Option<ModelConfig>,
    error: Seq<char>,
    now: u64,
) -> bool {
    let eligible = spec_should_fallback(spec_classify(error), pre.spec_config());
    let stamped = upsert_cooldown(pre.spec_cooldowns(),
        spec_model_key(pre.spec_active_model()), now);
    &&& !eligible ==> r is None && post == pre
    &&& eligible ==> {
        &&& post.spec_cooldowns() == stamped
        &&& post.spec_config() == pre.spec_config()
        &&& post.spec_primary() == pre.spec_primary()
        &&& match first_avail(pre.spec_config().fallbacks@, stamped, now,
            pre.spec_cooldown_secs(), pre.spec_scan_start()) {
            Some(i) => r == Some(pre.spec_config().fallbacks@[i]) && post.spec_current_index()
                == i,
            None => if !on_cooldown(stamped, spec_model_key(pre.spec_primary()), now,
                pre.spec_cooldown_secs()) && pre.spec_current_index() >= 0 {
                r == Some(pre.spec_primary()) && post.spec_current_index() == -1
            } else {
                r is None && post.spec_current_index() == pre.spec_current_index()
            },
        }
    }
    &&& r matches Some(m) ==> (post.spec_active_model() == m && !on_cooldown(
        post.spec_cooldowns(), spec_model_key(m), now, post.spec_cooldown_secs()))
    &&& r is None ==> post.spec_active_model() == pre.spec_active_model()
}

/// What one primary-recovery check does at time `now`: nothing while the
/// primary is already active or still cooling down; otherwise the primary
/// reactivates and exactly its own cooldown entries are dropped.
pub open spec fn recovery_step(pre: FallbackManager, post: FallbackManager, now: u64) -> bool {
    &&& pre.spec_current_index() < 0 ==> post == pre
    &&& pre.spec_current_index() >= 0 && !pre.spec_primary_ready(now) ==> post == pre
    &&& pre.spec_current_index() >= 0 && pre.spec_primary_ready(now) ==> {
        &&& post.spec_current_index() == -1
        &&& post.spec_cooldowns() == pre.spec_cooldowns().filter(
            |e: (Seq<char>, u64)| e.0 != spec_model_key(pre.spec_primary()),
        )
        &&& post.spec_config() == pre.spec_config()
        &&& post.spec_primary() == pre.spec_primary()
    }
}

impl FallbackManager {
    /// The model a given index denotes: primary when negative or out of range.
    pub open spec fn spec_model_at(&self, idx: int) -> ModelConfig {
        if 0 <= idx < self.spec_config().fallbacks@.len() {
            self.spec_config().fallbacks@[idx]
        } else {
            self.spec_primary()
        }
    }

    /// The currently active model.
    pub open spec fn spec_active_model(&self) -> ModelConfig {
        self.spec_model_at(self.spec_current_index())
    }

    /// The fallback index the next scan starts from.
    pub open spec fn spec_scan_start(&self) -> int {
        if self.spec_current_index() < 0 {
            0
        } else {
            self.spec_current_index() + 1
        }
    }

    /// The primary's cooldown has expired (or was never set) at `now`.
    pub open spec fn spec_primary_ready(&self, now: u64) -> bool {
        !on_cooldown(self.spec_cooldowns(), spec_model_key(self.spec_primary()), now,
            self.spec_cooldown_secs())
    }

    pub closed spec fn spec_cooldown_secs(&self) -> u64 {
        self.config.fallback_cooldown_secs
    }

    pub closed spec fn spec_cooldowns(&self) -> Seq<(Seq<char>, u64)> {
        cooldown_view(self.cooldowns@)
    }

    pub closed spec fn spec_config(&self) -> FallbackConfig {
        self.config
    }

    pub closed spec fn spec_current_index(&self) -> int {
        self.current_index as int
    }

    pub closed spec fn spec_total_fallbacks(&self) -> u32 {
        self.total_fallbacks
    }

    /// The primary model.
    pub closed spec fn spec_primary(&self) -> ModelConfig {
        self.primary
    }

    /// Well-formedness: the active index stays within the fallback list and
    /// the list is small enough for its indices to fit a machine integer.
    pub closed spec fn wf(&self) -> bool {
        &&& -1 <= self.current_index as int
        &&& self.current_index >= 0 ==> (self.current_index as int)
            < self.config.fallbacks@.len()
        &&& self.config.fallbacks@.len() < 0x7fffffff
    }

    /// A fresh manager: active on primary, no cooldowns recorded.
    pub fn new(primary: ModelConfig, config: FallbackConfig) -> (r: Self)
        requires
            config.fallbacks@.len() < 0x7fffffff,
        ensures
            r.wf(),
            r.spec_current_index() == -1,
            r.spec_cooldowns().len() == 0,
            r.spec_config() == config,
            r.spec_active_model() == primary,
            r.spec_total_fallbacks() == 0u32,
    {
        FallbackManager {
            config,
            primary,
            cooldowns: Vec::new(),
            current_index: -1,
            total_fallbacks: 0,
        }
    }

    /// The currently active model: primary when healthy, else the fallback the
    /// chain has advanced to.
    pub fn active_model(&self) -> (r: &ModelConfig)
        ensures
            *r == self.spec_active_model(),
    {
        if self.current_index < 0 {
            &self.primary
        } else {
            let idx = self.current_index as usize;
            if idx < self.config.fallbacks.len() {
                &self.config.fallbacks[idx]
            } else {
                &self.primary
            }
        }
    }

    /// Report a successful request.  Deliberately keeps the current provider:
    /// staying on a working fallback avoids flapping; primary recovery happens
    /// through the periodic recovery check or the wraparound scan.
    pub fn report_success(&mut self)
        ensures
            *final(self) == *old(self),
    {
    }

    /// Report a failed request at an explicit time.  When the error class is
    /// eligible, the active provider goes on cooldown and the first available
    /// fallback after the current position is activated; with the chain
    /// exhausted, the primary is retried once its own cooldown has elapsed.
    /// Returns the newly activated model, or `None` when the error is not
    /// eligible or everything is still cooling down.
    pub fn report_failure_at(&mut self, error: &str, now: u64) -> (r: Option<ModelConfig>)
        requires
            old(self).wf(),
        ensures
            final(self).wf(),
            failure_step(*old(self), *final(self), r, error@, now),
    {
        let error_class = ErrorClass::classify(error);
        if !error_class.should_fallback(&self.config) {
            return None;
        }
        let key = model_key(self.active_model());
        self.stamp_cooldown(key, now);
        let r = self.advance_to_next(now);
        proof {
            match &r {
                Some(m) => {
                    assert(self.spec_active_model() == *m);
                },
                None => {
                    assert(self.spec_active_model() == old(self).spec_active_model());
                },
            }
        }
        r
    }

    /// Stamp one provider's cooldown at `now`: overwrite its entry, or add
    /// one — the cooldown list is a map from provider key to start time.
    fn stamp_cooldown(&mut self, key: String, now: u64)
        ensures
            final(self).spec_cooldowns() == upsert_cooldown(old(self).spec_cooldowns(), key@,
                now),
            final(self).spec_config() == old(self).spec_config(),
            final(self).spec_primary() == old(self).spec_primary(),
            final(self).spec_current_index() == old(self).spec_current_index(),
            final(self).spec_total_fallbacks() == old(self).spec_total_fallbacks(),
            final(self).wf() == old(self).wf(),
    {
        let ghost view = cooldown_view(self.cooldowns@);
        let n = self.cooldowns.len();
        let mut i: usize = 0;
        proof {
            lemma_find_cd_first(view, key@, 0);
        }
        while i < n
            invariant
                i <= n,
                n == self.cooldowns@.len(),
                *self == *old(self),
                view == cooldown_view(self.cooldowns@),
                forall|j: int| 0 <= j < i ==> view[j].0 != key@,
                match find_cd_idx(view, key@) {
                    Some(k) => i as int <= k,
                    None => true,
                },
            decreases n - i,
        {
            if str_eq(self.cooldowns[i].0.as_str(), key.as_str()) {
                proof {
                    lemma_find_cd_first(view, key@, i as int);
                    assert(find_cd_idx(view, key@) == Some(i as int));
                }
                self.cooldowns.remove(i);
                self.cooldowns.insert(i, (key, now));
                proof {
                    assert(cooldown_view(self.cooldowns@) =~= view.update(i as int, (key@, now)));
                }
                return ;
            }
            proof {
                match find_cd_idx(view, key@) {
                    Some(k) => {
                        lemma_find_cd_first(view, key@, k);
                        assert(view[k].0 == key@);
                    },
                    None => {},
                }
            }
            i += 1;
        }
        proof {
            match find_cd_idx(view, key@) {
                Some(k) => {
                    lemma_find_cd_first(view, key@, k);
                },
                None => {},
            }
            assert(find_cd_idx(view, key@) is None);
        }
        self.cooldowns.push((key, now));
        proof {
            assert(cooldown_view(self.cooldowns@) =~= view.push((key@, now)));
        }
    }

    /// Report a failed request at the current time: the full `failure_step`
    /// effect holds for the sampled time, whatever the clock returned.
    pub fn report_failure(&mut self, error: &str) -> (r: Option<ModelConfig>)
        requires
            old(self).wf(),
        ensures
            final(self).wf(),
            exists|t: u64| #[trigger] failure_step(*old(self), *final(self), r, error@, t),
            !spec_should_fallback(spec_classify(error@), old(self).spec_config()) ==> r is None
                && *final(self) == *old(self),
            final(self).spec_config() == old(self).spec_config(),
            final(self).spec_primary() == old(self).spec_primary(),
            r matches Some(m) ==> final(self).spec_active_model() == m,
            r is None ==> final(self).spec_active_model() == old(self).spec_active_model(),
    {
        let now = now_seconds();
        let r = self.report_failure_at(error, now);
        proof {
            assert(failure_step(*old(self), *self, r, error@, now));
        }
        r
    }

    /// Switch back to the primary at an explicit time, if its cooldown has
    /// expired.  Its cooldown entries are dropped so a later scan starts clean.
    pub fn check_primary_recovery_at(&mut self, now: u64)
        requires
            old(self).wf(),
        ensures
            final(self).wf(),
            recovery_step(*old(self), *final(self), now),
    {
        if self.current_index < 0 {
            return;
        }
        let primary_key = model_key(&self.primary);
        let ready = !cooldown_active(&self.cooldowns, &primary_key, now,
            self.config.fallback_cooldown_secs);
        if ready {
            self.current_index = -1;
            let n = self.cooldowns.len();
            let mut kept: Vec<(String, u64)> = Vec::new();
            let ghost pred = |e: (Seq<char>, u64)| e.0 != spec_model_key(self.primary);
            let mut i: usize = 0;
            while i < n
                invariant
                    i <= n,
                    n == self.cooldowns@.len(),
                    primary_key@ == spec_model_key(self.primary),
                    pred == (|e: (Seq<char>, u64)| e.0 != spec_model_key(self.primary)),
                    cooldown_view(kept@) == cooldown_view(self.cooldowns@.subrange(0, i as int))
                        .filter(pred),
                decreases n - i,
            {
                let ghost prefix_view = cooldown_view(self.cooldowns@.subrange(0, i as int));
                let ghost entry_view = (self.cooldowns@[i as int].0@, self.cooldowns@[i as int].1);
                let ghost kept_before = cooldown_view(kept@);
                let keep = self.cooldowns[i].0 != primary_key;
                if keep {
                    let entry = (self.cooldowns[i].0.clone(), self.cooldowns[i].1);
                    kept.push(entry);
                    proof {
                        assert(cooldown_view(kept@) =~= kept_before.push(entry_view));
                    }
                }
                proof {
                    assert(cooldown_view(self.cooldowns@.subrange(0, i + 1)) =~= prefix_view.push(
                        entry_view,
                    ));
                    crate::util_seq::lemma_filter_push(prefix_view, entry_view, pred);
                }
                i += 1;
            }
            proof {
                assert(self.cooldowns@.subrange(0, n as int) =~= self.cooldowns@);
            }
            self.cooldowns = kept;
        }
    }

    /// Check primary recovery at the current time: the full `recovery_step`
    /// effect holds for the sampled time, whatever the clock returned.
    pub fn check_primary_recovery(&mut self)
        requires
            old(self).wf(),
        ensures
            final(self).wf(),
            exists|t: u64| #[trigger] recovery_step(*old(self), *final(self), t),
            final(self).spec_config() == old(self).spec_config(),
            final(self).spec_primary() == old(self).spec_primary(),
            final(self).spec_current_index() == old(self).spec_current_index()
                || final(self).spec_current_index() == -1,
    {
        let now = now_seconds();
        self.check_primary_recovery_at(now);
        proof {
            assert(recovery_step(*old(self), *self, now));
        }
    }

    /// A status line: the active model, and whether it is the primary or which
    /// fallback, for logging and display.
    pub fn status_summary(&self) -> (r: String)
        ensures
            self.spec_current_index() < 0 ==> r@ == self.spec_active_model().backend@ + "/"@
                + self.spec_active_model().model@ + " (primary, "@ + dec_digits(
                self.spec_config().fallbacks@.len() as int,
            ) + " fallback(s) configured)"@,
            self.spec_current_index() >= 0 ==> r@ == self.spec_active_model().backend@ + "/"@
                + self.spec_active_model().model@ + " (fallback #"@ + dec_digits(
                self.spec_current_index() + 1,
            ) + ", "@ + dec_digits(self.spec_total_fallbacks() as int) + " total attempts)"@,
    {
        let active = self.active_model();
        let mut out = active.backend.clone();
        out.append("/");
        out.append(active.model.as_str());
        if self.current_index < 0 {
            out.append(" (primary, ");
            let cnt = u64_to_string(self.config.fallbacks.len() as u64);
            out.append(cnt.as_str());
            out.append(" fallback(s) configured)");
        } else {
            out.append(" (fallback #");
            let pos = u64_to_string((self.current_index as u64) + 1);
            out.append(pos.as_str());
            out.append(", ");
            let tot = u64_to_string(self.total_fallbacks as u64);
            out.append(tot.as_str());
            out.append(" total attempts)");
        }
        out
    }

    /// Whether any fallbacks are configured.
    pub fn has_fallbacks(&self) -> (r: bool)
        ensures
            r == (self.spec_config().fallbacks@.len() > 0),
    {
        self.config.fallbacks.len() > 0
    }

    /// Scan the fallback list from just after the current position, skipping
    /// providers on cooldown; with the list exhausted, wrap to the primary if
    /// its cooldown has elapsed.
    fn advance_to_next(&mut self, now: u64) -> (r: Option<ModelConfig>)
        requires
            old(self).wf(),
        ensures
            final(self).wf(),
            final(self).spec_config() == old(self).spec_config(),
            final(self).spec_cooldowns() == old(self).spec_cooldowns(),
            final(self).spec_primary() == old(self).spec_primary(),
            match first_avail(old(self).spec_config().fallbacks@, old(self).spec_cooldowns(), now,
                old(self).spec_cooldown_secs(), old(self).spec_scan_start()) {
                Some(i) => r == Some(old(self).spec_config().fallbacks@[i])
                    && final(self).spec_current_index() == i,
                None => {
                    if old(self).spec_primary_ready(now) && old(self).spec_current_index() >= 0 {
                        r == Some(old(self).spec_primary()) && final(self).spec_current_index() == -1
                    } else {
                        r is None && final(self).spec_current_index() == old(
                            self,
                        ).spec_current_index()
                    }
                },
            },
            r matches Some(m) ==> !on_cooldown(final(self).spec_cooldowns(), spec_model_key(m),
                now, final(self).spec_cooldown_secs()),
            r matches Some(m) ==> final(self).spec_active_model() == m,
            r is None ==> final(self).spec_active_model() == old(self).spec_active_model(),
    {
        let secs = self.config.fallback_cooldown_secs;
        let len = self.config.fallbacks.len();
        let start: usize = if self.current_index < 0 {
            0
        } else {
            (self.current_index + 1) as usize
        };
        let mut i: usize = start;
        while i < len
            invariant
                old(self).wf(),
                start <= i <= len,
                len == self.config.fallbacks@.len(),
                secs == self.config.fallback_cooldown_secs,
                *self == *old(self),
                first_avail(self.config.fallbacks@, cooldown_view(self.cooldowns@), now, secs,
                    old(self).spec_scan_start()) == first_avail(self.config.fallbacks@,
                    cooldown_view(self.cooldowns@), now, secs, i as int),
            decreases len - i,
        {
            let key = model_key(&self.config.fallbacks[i]);
            let cooling = cooldown_active(&self.cooldowns, &key, now, secs);
            if !cooling {
                let chosen = clone_model(&self.config.fallbacks[i]);
                proof {
                    assert(first_avail(self.config.fallbacks@, cooldown_view(self.cooldowns@),
                        now, secs, i as int) == Some(i as int));
                    assert(self.config.fallbacks@.len() < 0x7fffffff);
                    assert((i as int) < 0x7fffffff);
                }
                self.current_index = i as i32;
                self.total_fallbacks = self.total_fallbacks.wrapping_add(1);
                return Some(chosen);
            }
            i += 1;
        }
        let primary_key = model_key(&self.primary);
        let primary_ready = !cooldown_active(&self.cooldowns, &primary_key, now, secs);
        if primary_ready && self.current_index >= 0 {
            self.current_index = -1;
            return Some(clone_model(&self.primary));
        }
        None
    }
}

/// A found cooldown index is the first whose entry bears the key.
proof fn lemma_find_cd_first(s: Seq<(Seq<char>, u64)>, key: Seq<char>, i: int)
    ensures
        find_cd_idx(s, key) matches Some(k) ==> 0 <= k < s.len() && s[k].0 == key && forall|
            j: int,
        | 0 <= j < k ==> s[j].0 != key,
        find_cd_idx(s, key) is None ==> forall|j: int| 0 <= j < s.len() ==> s[j].0 != key,
        (0 <= i < s.len() && s[i].0 == key && (forall|j: int| 0 <= j < i ==> s[j].0 != key))
            ==> find_cd_idx(s, key) == Some(i),
    decreases s.len(),
{
    if s.len() > 0 {
        let d = s.drop_first();
        lemma_find_cd_first(d, key, i - 1);
        assert(forall|j: int| 0 <= j < d.len() ==> d[j] == s[j + 1]);
        if s[0].0 == key {
        } else {
            match find_cd_idx(d, key) {
                Some(k2) => {
                    assert(find_cd_idx(s, key) == Some(k2 + 1));
                    assert forall|j: int| 0 <= j < k2 + 1 implies s[j].0 != key by {
                        if j > 0 {
                            assert(s[j] == d[j - 1]);
                        }
                    }
                },
                None => {
                    assert forall|j: int| 0 <= j < s.len() implies s[j].0 != key by {
                        if j > 0 {
                            assert(s[j] == d[j - 1]);
                        }
                    }
                },
            }
            if 0 <= i < s.len() && s[i].0 == key && (forall|j: int|
                0 <= j < i ==> s[j].0 != key) {
                assert(i > 0);
                assert(d[i - 1] == s[i]);
                assert forall|j: int| 0 <= j < i - 1 implies d[j].0 != key by {
                    assert(d[j] == s[j + 1]);
                }
                assert(find_cd_idx(d, key) == Some(i - 1));
                assert(find_cd_idx(s, key) == Some(i));
            }
        }
    }
}

/// Build the cooldown key of a model: "backend/model".
fn model_key(m: &ModelConfig) -> (r: String)
    ensures
        r@ == spec_model_key(*m),
{
    let mut out = m.backend.clone();
    out.append("/");
    out.append(m.model.as_str());
    out
}

/// Copy a model configuration field by field.
fn clone_model(m: &ModelConfig) -> (r: ModelConfig)
    ensures
        r == *m,
{
    ModelConfig {
        backend: m.backend.clone(),
        model: m.model.clone(),
        endpoint: m.endpoint.clone(),
        api_key: m.api_key.clone(),
        vision_enabled: m.vision_enabled,
    }
}

/// Whether `key` is cooling down at `now` in the recorded entries (the first
/// matching entry wins, as `on_cooldown` states).
fn cooldown_active(cds: &Vec<(String, u64)>, key: &String, now: u64, secs: u64) -> (b: bool)
    ensures
        b == on_cooldown(cooldown_view(cds@), key@, now, secs),
{
    let ghost view = cooldown_view(cds@);
    proof {
        assert(view.skip(0) =~= view);
    }
    let n = cds.len();
    let mut i: usize = 0;
    while i < n
        invariant
            i <= n,
            n == cds@.len(),
            view == cooldown_view(cds@),
            find_cooldown(view, key@) == find_cooldown(view.skip(i as int), key@),
        decreases n - i,
    {
        let ghost suffix = view.skip(i as int);
        proof {
            assert(suffix[0] == view[i as int]);
            assert(view[i as int] == (cds@[i as int].0@, cds@[i as int].1));
            assert(suffix.drop_first() =~= view.skip(i + 1));
        }
        if cds[i].0 == *key {
            let started = cds[i].1;
            if now >= started {
                return now - started < secs;
            } else {
                return true;
            }
        }
        i += 1;
    }
    proof {
        assert(view.skip(n as int) =~= Seq::<(Seq<char>, u64)>::empty());
    }
    false
}

} // verus!
