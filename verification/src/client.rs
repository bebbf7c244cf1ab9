//! Per-request client profiles: each request carries a freshly randomized
//! fingerprint — user agent, header variants and timeouts — so that no
//! single fixed profile is reused across many requests.

use vstd::prelude::*;
use crate::pacing::rand_in_range;

verus! {

/// Relies on the internet user-agent faker of `fake`: draws one user-agent
/// string from its built-in list.
#[verifier::external_body]
fn fake_user_agent() -> (r: String) {
    fake::Fake::fake::<String>(&fake::faker::internet::en::UserAgent())
}

/// One request's fingerprint: ephemeral, never persisted, never shared
/// between tasks.
pub struct ClientProfile {
    /// Randomly drawn user-agent string.
    pub user_agent: String,
    /// One of the accepted content-type header variants.
    pub accept: String,
    /// One of the accepted language header variants.
    pub accept_language: String,
    /// Overall request timeout, in seconds.
    pub timeout_secs: u64,
    /// Connect timeout, in seconds.
    pub connect_timeout_secs: u64,
    /// Read timeout, in seconds.
    pub read_timeout_secs: u64,
}

impl ClientProfile {
    /// The bounded ranges every profile's timeouts are drawn from.
    pub open spec fn wf(self) -> bool {
        &&& 10 <= self.timeout_secs < 18
        &&& 5 <= self.connect_timeout_secs < 10
        &&& 15 <= self.read_timeout_secs < 20
    }

    /// A fresh profile: a random user agent, one of the fixed header
    /// variants, and three independent timeouts from their bounded ranges.
    pub fn new_profile() -> (r: ClientProfile)
        ensures
            r.wf(),
            r.accept@ == "text/html,application/xhtml+xml,application/xml;q=0.9,image/webp,*/*;q=0.8"@
                || r.accept@ == "text/html,application/xhtml+xml,application/xml;q=0.9,image/avif,image/webp,*/*;q=0.8"@
                || r.accept@ == "text/html,application/xhtml+xml,application/xml;q=0.9,*/*;q=0.8"@,
            r.accept_language@ == "en-US,en;q=0.9"@ || r.accept_language@
                == "ru-RU,ru;q=0.9,en-US;q=0.8,en;q=0.7"@ || r.accept_language@
                == "en-GB,en;q=0.9"@ || r.accept_language@ == "de-DE,de;q=0.9"@,
    {
        let accept_pick = rand_in_range(0, 2);
        let accept = if accept_pick == 0 {
            String::from_str(
                "text/html,application/xhtml+xml,application/xml;q=0.9,image/webp,*/*;q=0.8",
            )
        } else if accept_pick == 1 {
            String::from_str(
                "text/html,application/xhtml+xml,application/xml;q=0.9,image/avif,image/webp,*/*;q=0.8",
            )
        } else {
            String::from_str("text/html,application/xhtml+xml,application/xml;q=0.9,*/*;q=0.8")
        };
        let lang_pick = rand_in_range(0, 3);
        let accept_language = if lang_pick == 0 {
            String::from_str("en-US,en;q=0.9")
        } else if lang_pick == 1 {
            String::from_str("ru-RU,ru;q=0.9,en-US;q=0.8,en;q=0.7")
        } else if lang_pick == 2 {
            String::from_str("en-GB,en;q=0.9")
        } else {
            String::from_str("de-DE,de;q=0.9")
        };
        ClientProfile {
            user_agent: fake_user_agent(),
            accept,
            accept_language,
            timeout_secs: rand_in_range(10, 17),
            connect_timeout_secs: rand_in_range(5, 9),
            read_timeout_secs: rand_in_range(15, 19),
        }
    }
}

} // verus!
