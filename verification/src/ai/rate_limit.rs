//! Pauses between calls of one endpoint.
use vstd::prelude::*;

verus! {

/// The kinds of calls, each with a pace of its own.
#[derive(Debug, Clone, Copy, PartialEq, Eq, Structural)]
pub enum EndpointType {
    GenerateContent,
    GenerateImage,
    ClassifyIntent,
    AnalyzeReaction,
    AnalyzeProfileUpdate,
    AnalyzeGroupProfileUpdate,
    CountTokens,
}

/// When each endpoint was last called, in nanoseconds of a steady clock.
#[derive(Debug, Clone, Copy)]
pub struct EndpointRateLimiters {
    pub generate_content: u128,
    pub generate_image: u128,
    pub classify_intent: u128,
    pub analyze_reaction: u128,
    pub analyze_profile_update: u128,
    pub analyze_group_profile_update: u128,
    pub count_tokens: u128,
}

/// Nanoseconds by which a new limiter lies in the past.
pub const INITIAL_AGE_NS: u128 = 2_000_000_000;

/// Nanoseconds of a millisecond.
pub const NS_PER_MS: u128 = 1_000_000;

/// How long a call at `now` has to wait after a call at `last`.
pub open spec fn pause(last: u128, now: u128, cooldown_ms: u64) -> int {
    let elapsed = if now >= last {
        now - last
    } else {
        0
    };
    let cooldown = cooldown_ms * NS_PER_MS;
    if elapsed < cooldown {
        cooldown - elapsed
    } else {
        0
    }
}

impl EndpointRateLimiters {
    /// When an endpoint was last called.
    pub open spec fn last(self, endpoint: EndpointType) -> u128 {
        match endpoint {
            EndpointType::GenerateContent => self.generate_content,
            EndpointType::GenerateImage => self.generate_image,
            EndpointType::ClassifyIntent => self.classify_intent,
            EndpointType::AnalyzeReaction => self.analyze_reaction,
            EndpointType::AnalyzeProfileUpdate => self.analyze_profile_update,
            EndpointType::AnalyzeGroupProfileUpdate => self.analyze_group_profile_update,
            EndpointType::CountTokens => self.count_tokens,
        }
    }

    /// Limiters as of calls two seconds ago.
    pub fn new(now: u128) -> (r: Self)
        requires
            now >= INITIAL_AGE_NS,
        ensures
            forall|e: EndpointType| #[trigger] r.last(e) == now - INITIAL_AGE_NS,
    {
        let past: u128 = now - INITIAL_AGE_NS;
        EndpointRateLimiters {
            generate_content: past,
            generate_image: past,
            classify_intent: past,
            analyze_reaction: past,
            analyze_profile_update: past,
            analyze_group_profile_update: past,
            count_tokens: past,
        }
    }

    fn last_call(&self, endpoint: EndpointType) -> (r: u128)
        ensures
            r == self.last(endpoint),
    {
        match endpoint {
            EndpointType::GenerateContent => self.generate_content,
            EndpointType::GenerateImage => self.generate_image,
            EndpointType::ClassifyIntent => self.classify_intent,
            EndpointType::AnalyzeReaction => self.analyze_reaction,
            EndpointType::AnalyzeProfileUpdate => self.analyze_profile_update,
            EndpointType::AnalyzeGroupProfileUpdate => self.analyze_group_profile_update,
            EndpointType::CountTokens => self.count_tokens,
        }
    }

    /// The nanoseconds that a call of an endpoint has to wait.
    pub fn wait_for_rate_limit(&self, endpoint: EndpointType, now: u128, cooldown_ms: u64) -> (r:
        u128)
        ensures
            r == pause(self.last(endpoint), now, cooldown_ms),
    {
        let last = self.last_call(endpoint);
        let elapsed: u128 = if now >= last {
            now - last
        } else {
            0
        };
        let cooldown: u128 = cooldown_ms as u128 * NS_PER_MS;
        if elapsed < cooldown {
            cooldown - elapsed
        } else {
            0
        }
    }

    /// Notes a call of an endpoint.
    pub fn mark(&mut self, endpoint: EndpointType, now: u128)
        ensures
            final(self).last(endpoint) == now,
            forall|e: EndpointType|
                e != endpoint ==> #[trigger] final(self).last(e) == old(self).last(e),
    {
        match endpoint {
            EndpointType::GenerateContent => self.generate_content = now,
            EndpointType::GenerateImage => self.generate_image = now,
            EndpointType::ClassifyIntent => self.classify_intent = now,
            EndpointType::AnalyzeReaction => self.analyze_reaction = now,
            EndpointType::AnalyzeProfileUpdate => self.analyze_profile_update = now,
            EndpointType::AnalyzeGroupProfileUpdate => self.analyze_group_profile_update = now,
            EndpointType::CountTokens => self.count_tokens = now,
        }
    }
}

/// After its pause a call is at least the cooldown later than the one before,
/// and it never waits longer than the cooldown.
pub proof fn a_pause_keeps_the_pace(last: u128, now: u128, cooldown_ms: u64)
    requires
        now >= last,
    ensures
        now + pause(last, now, cooldown_ms) >= last + cooldown_ms * NS_PER_MS,
        0 <= pause(last, now, cooldown_ms) <= cooldown_ms * NS_PER_MS,
{
}

/// The pause before a call depends on earlier calls of the same endpoint alone.
pub proof fn endpoints_are_independent(
    before: EndpointRateLimiters,
    after: EndpointRateLimiters,
    called: EndpointType,
    other: EndpointType,
    now: u128,
    cooldown_ms: u64,
)
    requires
        called != other,
        forall|e: EndpointType| e != called ==> #[trigger] after.last(e) == before.last(e),
    ensures
        pause(after.last(other), now, cooldown_ms) == pause(before.last(other), now, cooldown_ms),
{
}

/// A call waits no longer than it must: where it waits, it is exactly the
/// cooldown later than the one before, and where the cooldown is over it does
/// not wait. A call before the one noted last waits for the whole cooldown.
pub proof fn a_pause_is_no_longer_than_needed(last: u128, now: u128, cooldown_ms: u64)
    ensures
        now >= last && pause(last, now, cooldown_ms) > 0 ==> now + pause(last, now, cooldown_ms)
            == last + cooldown_ms * 1_000_000,
        now >= last + cooldown_ms * 1_000_000 ==> pause(last, now, cooldown_ms) == 0,
        last <= now < last + cooldown_ms * 1_000_000 ==> pause(last, now, cooldown_ms) > 0,
        now < last ==> pause(last, now, cooldown_ms) == cooldown_ms * 1_000_000,
{
}

} // verus!
