//! Configuration data and the parsing of durations.
//!
//! A duration is a bare number of seconds or a number with the suffix `s`
//! (seconds), `m` (minutes) or `h` (hours); surrounding white space is
//! ignored.
use vstd::prelude::*;
use crate::auth::AuthMethod;
use crate::time::UtcTime;
use crate::text::{
    all_digits, chars_of, concat, decimal, digit_value, digits_value, ends_with_chars, is_digit,
    is_white_space, parse_u64, parse_u64_spec, push_all, push_str, string_from, trim, trim_chars,
    trim_start, unsigned_digits,
};

verus! {

/// Default interval between credential checks, in seconds (five minutes).
pub const DEFAULT_CHECK_INTERVAL_SECS: u64 = 300;

/// The default check interval, in seconds.
pub fn default_check_interval() -> (r: u64)
    ensures
        r == DEFAULT_CHECK_INTERVAL_SECS,
{
    DEFAULT_CHECK_INTERVAL_SECS
}

/// Authentication settings.
#[derive(Debug, PartialEq)]
pub struct AuthConfig {
    /// Onshape API access key.
    pub access_key: Option<String>,
    /// Onshape API secret key.
    pub secret_key: Option<String>,
    /// Interval between credential checks, in seconds.
    pub check_interval: u64,
}

/// Top-level application configuration.
#[derive(Debug, PartialEq)]
pub struct AppConfig {
    /// Authentication settings.
    pub auth: AuthConfig,
}

/// Presence of the API key pair in the configuration.
#[derive(Clone, Debug, PartialEq, Eq)]
pub enum CredentialStatus {
    /// Both keys are present.
    BothPresent,
    /// Neither key is present.
    NonePresent,
    /// Exactly one key is present; `missing` names the other.
    Partial {
        /// Name of the missing field.
        missing: &'static str,
    },
}

/// The credential status of a pair of optional keys.
pub open spec fn credential_status_spec(access: bool, secret: bool) -> CredentialStatus {
    if access && secret {
        CredentialStatus::BothPresent
    } else if !access && !secret {
        CredentialStatus::NonePresent
    } else if access {
        CredentialStatus::Partial { missing: "secret_key" }
    } else {
        CredentialStatus::Partial { missing: "access_key" }
    }
}

impl AuthConfig {
    /// Which of the two keys are present (their values are not checked).
    pub fn credential_status(&self) -> (r: CredentialStatus)
        ensures
            r == credential_status_spec(self.access_key is Some, self.secret_key is Some),
    {
        match (&self.access_key, &self.secret_key) {
            (Some(_), Some(_)) => CredentialStatus::BothPresent,
            (None, None) => CredentialStatus::NonePresent,
            (Some(_), None) => CredentialStatus::Partial { missing: "secret_key" },
            (None, Some(_)) => CredentialStatus::Partial { missing: "access_key" },
        }
    }
}

impl Default for AuthConfig {
    fn default() -> (r: Self)
        ensures
            r.access_key is None,
            r.secret_key is None,
            r.check_interval == DEFAULT_CHECK_INTERVAL_SECS,
    {
        AuthConfig { access_key: None, secret_key: None, check_interval: DEFAULT_CHECK_INTERVAL_SECS }
    }
}

impl Default for AppConfig {
    fn default() -> (r: Self)
        ensures
            r.auth.access_key is None,
            r.auth.secret_key is None,
            r.auth.check_interval == DEFAULT_CHECK_INTERVAL_SECS,
    {
        AppConfig { auth: AuthConfig::default() }
    }
}

/// How credentials were resolved from configuration and stored tokens.
#[derive(Debug, PartialEq)]
pub enum ResolvedAuth {
    /// No usable credentials.
    NotConfigured {
        /// The method that was configured.
        configured_method: AuthMethod,
        /// Human-readable explanation.
        detail: String,
    },
    /// An API key pair is configured.
    Basic,
    /// OAuth token material is available.
    OAuthReady {
        /// When the access token expires, if known.
        expires_at: Option<UtcTime>,
    },
    /// OAuth client credentials are configured but no token is present.
    OAuthPending,
}

impl ResolvedAuth {
    /// A copy of the resolved state.
    pub fn duplicate(&self) -> (r: ResolvedAuth)
        ensures
            r == *self,
    {
        match self {
            ResolvedAuth::NotConfigured { configured_method, detail } => ResolvedAuth::NotConfigured {
                configured_method: *configured_method,
                detail: detail.clone(),
            },
            ResolvedAuth::Basic => ResolvedAuth::Basic,
            ResolvedAuth::OAuthReady { expires_at } => ResolvedAuth::OAuthReady { expires_at: *expires_at },
            ResolvedAuth::OAuthPending => ResolvedAuth::OAuthPending,
        }
    }
}

// ---------------------------------------------------------------------------
// Durations
// ---------------------------------------------------------------------------

/// Seconds per unit of a duration suffix.
pub open spec fn suffix_multiplier(c: char) -> Option<nat> {
    if c == 's' {
        Some(1)
    } else if c == 'm' {
        Some(60)
    } else if c == 'h' {
        Some(3600)
    } else {
        None
    }
}

/// Message for an input that is neither a number nor a number with a suffix.
pub open spec fn bad_suffix_message(t: Seq<char>) -> Seq<char> {
    "invalid duration \""@ + t + "\": expected a number with optional suffix (s, m, h)"@
}

/// Message for an input whose numeric part is not an integer.
pub open spec fn bad_number_message(t: Seq<char>) -> Seq<char> {
    "invalid duration \""@ + t + "\": numeric part is not a valid integer"@
}

/// What a duration string denotes, in seconds, or the error message.
pub open spec fn parse_duration_spec(s: Seq<char>) -> Result<nat, Seq<char>> {
    let t = trim(s);
    if t.len() == 0 {
        Err("empty duration string"@)
    } else if parse_u64_spec(t) is Some {
        Ok(parse_u64_spec(t)->0 as nat)
    } else {
        match suffix_multiplier(t.last()) {
            Some(mult) => match parse_u64_spec(trim(t.drop_last())) {
                Some(n) => Ok(n as nat * mult),
                None => Err(bad_number_message(t)),
            },
            None => Err(bad_suffix_message(t)),
        }
    }
}

/// Parses a duration such as `300`, `300s`, `5m` or `1h` into seconds.
/// The value must fit in 64 bits.
pub fn parse_duration_str(s: &str) -> (r: Result<u64, String>)
    requires
        parse_duration_spec(s@) matches Ok(v) ==> v <= u64::MAX,
    ensures
        match parse_duration_spec(s@) {
            Ok(v) => r == Ok::<u64, String>(v as u64),
            Err(m) => r matches Err(e) && e@ == m,
        },
{
    let raw = chars_of(s);
    let t = trim_chars(raw.as_slice());
    if t.len() == 0 {
        return Err("empty duration string".to_owned());
    }
    if let Some(secs) = parse_u64(t.as_slice()) {
        return Ok(secs);
    }
    let last = t[t.len() - 1];
    let mult: u64 = if last == 's' {
        1
    } else if last == 'm' {
        60
    } else if last == 'h' {
        3600
    } else {
        let mut msg = chars_of("invalid duration \"");
        push_all(&mut msg, t.as_slice());
        push_str(&mut msg, "\": expected a number with optional suffix (s, m, h)");
        return Err(string_from(msg.as_slice()));
    };
    let mut head: Vec<char> = Vec::new();
    let mut i: usize = 0;
    let head_len = t.len() - 1;
    while i < head_len
        invariant
            0 <= i <= t@.len() - 1,
            head_len == t@.len() - 1,
            t@.len() > 0,
            head@ =~= t@.subrange(0, i as int),
        decreases t@.len() - i,
    {
        head.push(t[i]);
        i = i + 1;
    }
    assert(head@ =~= t@.drop_last());
    let num_text = trim_chars(head.as_slice());
    match parse_u64(num_text.as_slice()) {
        Some(n) => {
            assert(n * mult <= u64::MAX);
            Ok(n * mult)
        },
        None => {
            let mut msg = chars_of("invalid duration \"");
            push_all(&mut msg, t.as_slice());
            push_str(&mut msg, "\": numeric part is not a valid integer");
            Err(string_from(msg.as_slice()))
        },
    }
}


/// Whether the duration that `s` denotes, if it denotes one, fits in 64
/// bits of seconds, as [`parse_duration_str`] requires.
pub fn duration_fits(s: &str) -> (r: bool)
    ensures
        r == (parse_duration_spec(s@) matches Ok(v) ==> v <= u64::MAX),
{
    let raw = chars_of(s);
    let t = trim_chars(raw.as_slice());
    if t.len() == 0 {
        return true;
    }
    if let Some(_) = parse_u64(t.as_slice()) {
        return true;
    }
    let last = t[t.len() - 1];
    let mult: u64 = if last == 's' {
        1
    } else if last == 'm' {
        60
    } else if last == 'h' {
        3600
    } else {
        return true;
    };
    let head = vstd::slice::slice_subrange(t.as_slice(), 0, t.len() - 1);
    assert(head@ =~= t@.drop_last());
    let num_text = trim_chars(head);
    match parse_u64(num_text.as_slice()) {
        Some(n) => {
            assert((n <= u64::MAX / mult) == (n * mult <= u64::MAX)) by (nonlinear_arith)
                requires
                    mult > 0,
            ;
            n <= u64::MAX / mult
        },
        None => true,
    }
}

proof fn lemma_decimal_digits(n: nat)
    ensures
        decimal(n).len() >= 1,
        all_digits(decimal(n)),
        digits_value(decimal(n)) == n,
    decreases n,
{
    let d = decimal(n);
    if n < 10 {
        assert(d.drop_last() =~= Seq::<char>::empty());
        assert(digits_value(d.drop_last()) == 0);
        assert(digit_value(d.last()) == n);
        assert(digits_value(d) == digits_value(d.drop_last()) * 10 + digit_value(d.last()));
    } else {
        lemma_decimal_digits(n / 10);
        assert(d.drop_last() =~= decimal(n / 10));
        assert(digit_value(d.last()) == n % 10);
        assert forall|i: int| 0 <= i < d.len() implies is_digit(#[trigger] d[i]) by {
            if i < d.len() - 1 {
                assert(d[i] == decimal(n / 10)[i]);
            }
        }
        assert(digits_value(d) == digits_value(d.drop_last()) * 10 + digit_value(d.last()));
        assert((n / 10) * 10 + n % 10 == n);
    }
}

proof fn lemma_digits_untrimmed(s: Seq<char>)
    requires
        all_digits(s),
    ensures
        trim(s) == s,
        unsigned_digits(s) == s,
{
    assert(!is_white_space(s[0]));
    assert(trim_start(s) == s);
    assert(!is_white_space(s.last()));
}

/// A number of seconds, with or without the `s` suffix, reads as that many
/// seconds; with `m` as sixty times as many, with `h` as 3600 times as many.
pub proof fn lemma_duration_units(n: u64)
    ensures
        parse_duration_spec(decimal(n as nat)) == Ok::<nat, Seq<char>>(n as nat),
        parse_duration_spec(decimal(n as nat) + "s"@) == Ok::<nat, Seq<char>>(n as nat),
        parse_duration_spec(decimal(n as nat) + "m"@) == Ok::<nat, Seq<char>>((60 * n) as nat),
        parse_duration_spec(decimal(n as nat) + "h"@) == Ok::<nat, Seq<char>>((3600 * n) as nat),
{
    let d = decimal(n as nat);
    lemma_decimal_digits(n as nat);
    lemma_digits_untrimmed(d);
    assert(parse_u64_spec(d) == Some(n));
    reveal_strlit("s");
    reveal_strlit("m");
    reveal_strlit("h");
    lemma_suffixed(d, 's');
    lemma_suffixed(d, 'm');
    lemma_suffixed(d, 'h');
    assert(d + "s"@ =~= d.push('s'));
    assert(d + "m"@ =~= d.push('m'));
    assert(d + "h"@ =~= d.push('h'));
    assert(suffix_multiplier('s') == Some(1nat));
    assert((n as nat) * 1nat == n as nat);
}

proof fn lemma_suffixed(d: Seq<char>, c: char)
    requires
        all_digits(d),
        !is_digit(c),
        !is_white_space(c),
        c != '+',
    ensures
        trim(d.push(c)) == d.push(c),
        parse_u64_spec(d.push(c)) is None,
        d.push(c).drop_last() == d,
{
    let t = d.push(c);
    assert(t.drop_last() =~= d);
    assert(!is_white_space(t[0]));
    assert(trim_start(t) == t);
    assert(t.last() == c);
    assert(unsigned_digits(t) == t);
    assert(!is_digit(t[t.len() - 1]));
}

} // verus!
