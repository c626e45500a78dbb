//! The user's settings: which relay to use when none is named.
use vstd::prelude::*;
use crate::text::{chars_of, lower_eq, lower_eq_str, string_from_chars};


verus! {

/// The relay used when neither the command line nor the settings name one.
pub const DEFAULT_RELAY: &'static str = "ws://relay.dropwire.tyes.dev:9010";

/// The settings file's contents.
pub struct DropwireConfig {
    pub relay: Option<String>,
}

impl Default for DropwireConfig {
    fn default() -> (c: Self)
        ensures
            c.relay is None,
    {
        DropwireConfig { relay: None }
    }
}

/// The relay the settings name, or the default one.
pub open spec fn relay_of(c: DropwireConfig) -> Seq<char> {
    match c.relay {
        Some(r) => r@,
        None => DEFAULT_RELAY@,
    }
}

impl DropwireConfig {
    /// The relay to use: the configured one, or `DEFAULT_RELAY`.
    pub fn get_relay(&self) -> (r: String)
        ensures
            r@ == relay_of(*self),
    {
        match &self.relay {
            Some(r) => r.clone(),
            None => DEFAULT_RELAY.to_string(),
        }
    }
}

/// The one settings key there is, compared without regard to case.
pub open spec fn relay_key() -> Seq<char> {
    "relay"@
}

/// `config set <key> <value>`: `relay` (in any case) takes the value, and the
/// answer is `true`; any other key leaves the settings as they are and is
/// answered `false`.
pub fn apply_set(config: &mut DropwireConfig, key: &str, value: String) -> (known: bool)
    ensures
        known == lower_eq(key@, relay_key()),
        known ==> (final(config).relay matches Some(r) && r@ == value@),
        !known ==> *final(config) == *old(config),
{
    let k = chars_of(key);
    if lower_eq_str(&k, "relay") {
        config.relay = Some(value);
        true
    } else {
        false
    }
}

/// The relay as `config show` lists it: the configured one, or the default
/// followed by ` (default)`.
pub open spec fn relay_shown(c: DropwireConfig) -> Seq<char> {
    match c.relay {
        Some(r) => r@,
        None => DEFAULT_RELAY@ + " (default)"@,
    }
}

/// The relay as `config show` lists it.
pub fn relay_line(config: &DropwireConfig) -> (s: String)
    ensures
        s@ == relay_shown(*config),
{
    match &config.relay {
        Some(r) => r.clone(),
        None => {
            let mut v = chars_of(DEFAULT_RELAY);
            let tail = chars_of(" (default)");
            let ghost v0 = v@;
            let mut i: usize = 0;
            while i < tail.len()
                invariant
                    i <= tail@.len(),
                    v@ == v0 + tail@.take(i as int),
                decreases tail@.len() - i,
            {
                v.push(tail[i]);
                proof {
                    assert(tail@.take(i + 1) =~= tail@.take(i as int).push(tail@[i as int]));
                    assert(v@ =~= v0 + tail@.take(i + 1));
                }
                i = i + 1;
            }
            assert(tail@.take(tail@.len() as int) =~= tail@);
            string_from_chars(v.as_slice())
        },
    }
}

} // verus!
