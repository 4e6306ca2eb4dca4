//! The providers whose usage windows are known.

use vstd::prelude::*;
use crate::text;

verus! {

/// How long a short window lasts.
pub const FIVE_H_MS: i64 = 18_000_000;

/// How long a long window lasts.
pub const WEEK_MS: i64 = 604_800_000;

/// A provider of models.
#[derive(Debug, Clone, Copy, PartialEq, Eq, Structural)]
pub enum LlmProvider {
    Anthropic,
    OpenAiCodex,
}

/// A usage window: how it is named, and how long it lasts.
#[derive(Debug, Clone, Copy)]
pub struct ProviderWindow {
    pub limit_id: &'static str,
    pub period_ms: i64,
}

impl ProviderWindow {
    pub fn new(limit_id: &'static str, period_ms: i64) -> (r: ProviderWindow)
        ensures
            r.limit_id@ == limit_id@,
            r.period_ms == period_ms,
    {
        ProviderWindow { limit_id, period_ms }
    }
}

/// The two windows of a provider.
#[derive(Debug, Clone, Copy)]
pub struct ProviderWindows {
    pub short: ProviderWindow,
    pub long: ProviderWindow,
}

impl LlmProvider {
    pub open spec fn text(self) -> Seq<char> {
        match self {
            LlmProvider::Anthropic => "anthropic"@,
            LlmProvider::OpenAiCodex => "openai-codex"@,
        }
    }

    pub open spec fn of_text(s: Seq<char>) -> Option<LlmProvider> {
        if s == "anthropic"@ {
            Some(LlmProvider::Anthropic)
        } else if s == "openai-codex"@ {
            Some(LlmProvider::OpenAiCodex)
        } else {
            None
        }
    }

    pub fn parse(value: &str) -> (r: Option<LlmProvider>)
        ensures
            r == LlmProvider::of_text(value@),
    {
        if text::same(value, "anthropic") {
            Some(LlmProvider::Anthropic)
        } else if text::same(value, "openai-codex") {
            Some(LlmProvider::OpenAiCodex)
        } else {
            None
        }
    }

    pub fn name(self) -> (r: &'static str)
        ensures
            r@ == self.text(),
    {
        match self {
            LlmProvider::Anthropic => "anthropic",
            LlmProvider::OpenAiCodex => "openai-codex",
        }
    }

    /// The name of the short window.
    pub open spec fn short_id(self) -> Seq<char> {
        match self {
            LlmProvider::Anthropic => "anthropic:5h"@,
            LlmProvider::OpenAiCodex => "openai-codex:primary"@,
        }
    }

    /// The name of the long window.
    pub open spec fn long_id(self) -> Seq<char> {
        match self {
            LlmProvider::Anthropic => "anthropic:7d"@,
            LlmProvider::OpenAiCodex => "openai-codex:secondary"@,
        }
    }

    pub fn windows(self) -> (r: ProviderWindows)
        ensures
            r.short.limit_id@ == self.short_id(),
            r.short.period_ms == FIVE_H_MS,
            r.long.limit_id@ == self.long_id(),
            r.long.period_ms == WEEK_MS,
    {
        match self {
            LlmProvider::Anthropic => ProviderWindows {
                short: ProviderWindow::new("anthropic:5h", FIVE_H_MS),
                long: ProviderWindow::new("anthropic:7d", WEEK_MS),
            },
            LlmProvider::OpenAiCodex => ProviderWindows {
                short: ProviderWindow::new("openai-codex:primary", FIVE_H_MS),
                long: ProviderWindow::new("openai-codex:secondary", WEEK_MS),
            },
        }
    }

    /// Whether a window is a long one: the provider's own, and with Anthropic
    /// also those of single model classes.
    pub open spec fn long(self, limit_id: Seq<char>) -> bool {
        match self {
            LlmProvider::Anthropic => self.long_id().is_prefix_of(limit_id),
            LlmProvider::OpenAiCodex => limit_id == self.long_id(),
        }
    }

    pub fn is_long_window(self, limit_id: &str) -> (r: bool)
        ensures
            r == self.long(limit_id@),
    {
        match self {
            LlmProvider::Anthropic => text::starts_with(limit_id, "anthropic:7d"),
            LlmProvider::OpenAiCodex => text::same(limit_id, "openai-codex:secondary"),
        }
    }

    /// Whether a status stops all work, whatever fraction is reported beside
    /// it.
    pub open spec fn stops(self, status: Option<String>) -> bool {
        self == LlmProvider::Anthropic && text::opt_text(status) == Some("exhausted"@)
    }

    pub fn hard_stop(self, status: &Option<String>) -> (r: bool)
        ensures
            r == self.stops(*status),
    {
        self == LlmProvider::Anthropic && text::opt_is(status, "exhausted")
    }
}

/// Reading a provider's name gives the provider back.
pub proof fn law_provider_round_trip(p: LlmProvider)
    ensures
        LlmProvider::of_text(p.text()) == Some(p),
{
    reveal_strlit("anthropic");
    reveal_strlit("openai-codex");
    assert("anthropic"@.len() == 9);
    assert("openai-codex"@.len() == 12);
}

/// A provider's short window is no long one.
pub proof fn law_short_window_is_not_long(p: LlmProvider)
    ensures
        !p.long(p.short_id()),
        p.long(p.long_id()),
{
    reveal_strlit("anthropic:5h");
    reveal_strlit("anthropic:7d");
    reveal_strlit("openai-codex:primary");
    reveal_strlit("openai-codex:secondary");
    assert("anthropic:5h"@[10] == '5');
    assert("anthropic:7d"@[10] == '7');
    assert("openai-codex:primary"@.len() == 20);
    assert("openai-codex:secondary"@.len() == 22);
}

} // verus!
