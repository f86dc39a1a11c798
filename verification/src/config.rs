use vstd::prelude::*;

verus! {

use crate::error::ConfigError;
use crate::error::ConfigVar;

/// `c` is one of the characters `0` through `9`.
pub open spec fn is_dec_digit(c: char) -> bool {
    48 <= c as u32 && c as u32 <= 57
}

pub open spec fn all_dec_digits(s: Seq<char>) -> bool {
    forall|i: int| 0 <= i < s.len() ==> is_dec_digit(#[trigger] s[i])
}

/// The value of `s` read as a decimal numeral, most significant digit first.
pub open spec fn dec_val(s: Seq<char>) -> int
    decreases s.len(),
{
    if s.len() == 0 {
        0
    } else {
        dec_val(s.drop_last()) * 10 + (s.last() as u32 - 48)
    }
}

/// `s` is a well-formed decimal numeral whose value fits in a `u64`.
pub open spec fn u64_string(s: Seq<char>) -> bool {
    s.len() > 0 && all_dec_digits(s) && dec_val(s) <= u64::MAX
}

/// `s` is a well-formed decimal numeral whose value fits in a `usize`.
pub open spec fn usize_string(s: Seq<char>) -> bool {
    s.len() > 0 && all_dec_digits(s) && dec_val(s) <= usize::MAX
}

/// `s` is a well-formed decimal numeral whose value fits in a `u16`.
pub open spec fn u16_string(s: Seq<char>) -> bool {
    s.len() > 0 && all_dec_digits(s) && dec_val(s) <= u16::MAX
}

proof fn lemma_dec_val_nonneg(s: Seq<char>)
    requires
        all_dec_digits(s),
    ensures
        dec_val(s) >= 0,
    decreases s.len(),
{
    if s.len() > 0 {
        assert(all_dec_digits(s.drop_last())) by {
            assert(forall|i: int| 0 <= i < s.len() - 1 ==> s.drop_last()[i] == #[trigger] s[i]);
        }
        lemma_dec_val_nonneg(s.drop_last());
    }
}

/// Once some prefix of `s` reads as a value beyond `u64::MAX`, the whole of
/// `s` does too: appending any character at least multiplies the value by
/// ten and takes away at most 48.
proof fn lemma_dec_val_extend_gt(s: Seq<char>, k: int)
    requires
        0 <= k <= s.len(),
        dec_val(s.subrange(0, k)) > u64::MAX,
    ensures
        dec_val(s) > u64::MAX,
    decreases s.len() - k,
{
    if k == s.len() {
        assert(s.subrange(0, k) =~= s);
    } else {
        assert(s.subrange(0, k + 1).drop_last() =~= s.subrange(0, k));
        assert(s.subrange(0, k + 1).last() == s[k]);
        assert(dec_val(s.subrange(0, k + 1)) == dec_val(s.subrange(0, k)) * 10 + (s[k] as u32
            - 48));
        assert(dec_val(s.subrange(0, k)) * 10 >= dec_val(s.subrange(0, k)) + 48) by {
            assert(dec_val(s.subrange(0, k)) > u64::MAX);
        }
        lemma_dec_val_extend_gt(s, k + 1);
    }
}

/// Read a decimal numeral. Returns its value exactly when the whole string
/// is a non-empty run of decimal digits whose value fits in a `u64`;
/// anything else is rejected.
#[verifier::loop_isolation(false)]
pub fn parse_u64(s: &str) -> (r: Option<u64>)
    ensures
        r is Some <==> u64_string(s@),
        r matches Some(v) ==> v == dec_val(s@),
{
    let n = s.unicode_len();
    if n == 0 {
        return None;
    }
    let mut val: u64 = 0;
    let mut i: usize = 0;
    while i < n
        invariant
            0 <= i <= n,
            all_dec_digits(s@.subrange(0, i as int)),
            val == dec_val(s@.subrange(0, i as int)),
        decreases n - i,
    {
        let c = s.get_char(i);
        let cu = c as u32;
        proof {
            assert(s@.subrange(0, i + 1).drop_last() =~= s@.subrange(0, i as int));
            assert(s@.subrange(0, i + 1).last() == s@[i as int]);
        }
        if cu < 48 || cu > 57 {
            proof {
                assert(!is_dec_digit(s@[i as int]));
                assert(!all_dec_digits(s@));
            }
            return None;
        }
        let d = cu - 48;
        let next: u128 = val as u128 * 10 + d as u128;
        proof {
            assert(all_dec_digits(s@.subrange(0, i + 1))) by {
                assert(forall|j: int|
                    0 <= j < i + 1 ==> #[trigger] s@.subrange(0, i + 1)[j] == s@.subrange(
                        0,
                        i as int,
                    ).push(s@[i as int])[j]);
            }
            assert(next == dec_val(s@.subrange(0, i + 1)));
        }
        if next > u64::MAX as u128 {
            proof {
                lemma_dec_val_extend_gt(s@, i + 1);
                lemma_dec_val_nonneg(s@.subrange(0, i as int));
            }
            return None;
        }
        val = next as u64;
        i += 1;
    }
    proof {
        assert(s@.subrange(0, n as int) =~= s@);
    }
    Some(val)
}

/// Read a decimal numeral that must fit in a `usize`.
pub fn parse_usize(s: &str) -> (r: Option<usize>)
    ensures
        r is Some <==> usize_string(s@),
        r matches Some(v) ==> v == dec_val(s@),
{
    match parse_u64(s) {
        Some(v) => {
            if v <= usize::MAX as u64 {
                Some(v as usize)
            } else {
                None
            }
        },
        None => {
            proof {
                if s@.len() > 0 && all_dec_digits(s@) {
                    lemma_dec_val_nonneg(s@);
                }
            }
            None
        },
    }
}

/// Read a decimal numeral that must fit in a `u16`.
pub fn parse_u16(s: &str) -> (r: Option<u16>)
    ensures
        r is Some <==> u16_string(s@),
        r matches Some(v) ==> v == dec_val(s@),
{
    match parse_u64(s) {
        Some(v) => {
            if v <= u16::MAX as u64 {
                Some(v as u16)
            } else {
                None
            }
        },
        None => {
            proof {
                if s@.len() > 0 && all_dec_digits(s@) {
                    lemma_dec_val_nonneg(s@);
                }
            }
            None
        },
    }
}

/// What resolving the reference string against the base URL string yields:
/// the serialization of the resolved URL, or nothing when the base is not an
/// absolute URL or the reference cannot be resolved against it.
pub uninterp spec fn url_join_of(base: Seq<char>, reference: Seq<char>) -> Option<Seq<char>>;

/// Relies on url::Url::parse and url::Url::join: parsing an absolute base
/// URL and resolving a reference against it depend on the two strings alone,
/// so the outcome is a single value of them.
#[verifier::external_body]
pub(crate) fn join_url(base: &str, reference: &str) -> (r: Option<String>)
    ensures
        r is Some <==> url_join_of(base@, reference@) is Some,
        r matches Some(j) ==> url_join_of(base@, reference@) == Some(j@),
{
    match url::Url::parse(base) {
        Ok(u) => match u.join(reference) {
            Ok(joined) => Some(joined.into()),
            Err(_) => None,
        },
        Err(_) => None,
    }
}

/// The supplied latency budget is a decimal numeral fitting a `u64`.
pub open spec fn valid_wait(v: Option<String>) -> bool {
    v matches Some(s) && u64_string(s@)
}

/// The supplied batch bound is a decimal numeral fitting a `usize`, and is
/// positive: a batch of no envelopes could never flush.
pub open spec fn valid_batch(v: Option<String>) -> bool {
    v matches Some(s) && usize_string(s@) && dec_val(s@) >= 1
}

/// The supplied base URL is absolute and the embedding endpoint path can be
/// resolved against it.
pub open spec fn valid_url(v: Option<String>) -> bool {
    v matches Some(s) && url_join_of(s@, "/embed"@) is Some
}

/// The supplied port is a decimal numeral fitting a `u16`.
pub open spec fn valid_port(v: Option<String>) -> bool {
    v matches Some(s) && u16_string(s@)
}

/// The process-wide configuration, captured once at startup: the dispatcher's
/// two flush parameters, where the upstream inference service lives and the
/// optional bearer credential for it, and the ingress bind address.
#[derive(Debug)]
pub struct Config {
    /// Per-batch latency budget in milliseconds, measured from the oldest
    /// envelope's arrival.
    pub max_wait_time: u64,
    /// Hard upper bound on envelopes per batch; always positive.
    pub max_batch_size: usize,
    /// Base URL of the upstream inference service.
    pub inference_service_url: String,
    /// Optional bearer credential for the upstream service.
    pub inference_service_key: Option<String>,
    /// Bind address for the ingress listener, kept opaque here; binding
    /// validates it.
    pub ip: String,
    /// Bind port for the ingress listener.
    pub port: u16,
}

impl Config {
    /// Build the configuration from the raw environment values, each supplied
    /// as the text of the corresponding variable or nothing when the variable
    /// is unset. Values are examined in the order given; the error names the
    /// first value that is absent or cannot be accepted.
    pub fn try_build(
        max_wait_time: Option<String>,
        max_batch_size: Option<String>,
        inference_service_url: Option<String>,
        inference_service_key: Option<String>,
        ip: Option<String>,
        port: Option<String>,
    ) -> (r: Result<Config, ConfigError>)
        ensures
            r is Ok <==> valid_wait(max_wait_time) && valid_batch(max_batch_size) && valid_url(
                inference_service_url,
            ) && ip is Some && valid_port(port),
            r matches Ok(c) ==> {
                &&& (max_wait_time matches Some(s) && c.max_wait_time == dec_val(s@))
                &&& (max_batch_size matches Some(s) && c.max_batch_size == dec_val(s@))
                &&& (inference_service_url matches Some(s) && c.inference_service_url == s)
                &&& c.inference_service_key == inference_service_key
                &&& (ip matches Some(s) && c.ip == s)
                &&& (port matches Some(s) && c.port == dec_val(s@))
                &&& c.max_batch_size >= 1
            },
            r == Err::<Config, ConfigError>(ConfigError::Missing(ConfigVar::MaxWaitTime))
                <==> max_wait_time is None,
            r == Err::<Config, ConfigError>(ConfigError::Invalid(ConfigVar::MaxWaitTime)) <==> (
            max_wait_time matches Some(s) && !u64_string(s@)),
            r == Err::<Config, ConfigError>(ConfigError::Missing(ConfigVar::MaxBatchSize)) <==> (
            valid_wait(max_wait_time) && max_batch_size is None),
            r == Err::<Config, ConfigError>(ConfigError::Invalid(ConfigVar::MaxBatchSize)) <==> (
            valid_wait(max_wait_time) && (max_batch_size matches Some(s) && !(usize_string(s@)
                && dec_val(s@) >= 1))),
            r == Err::<Config, ConfigError>(ConfigError::Missing(ConfigVar::InferenceServiceUrl))
                <==> (valid_wait(max_wait_time) && valid_batch(max_batch_size)
                && inference_service_url is None),
            r == Err::<Config, ConfigError>(ConfigError::Invalid(ConfigVar::InferenceServiceUrl))
                <==> (valid_wait(max_wait_time) && valid_batch(max_batch_size) && (
            inference_service_url matches Some(s) && url_join_of(s@, "/embed"@) is None)),
            r == Err::<Config, ConfigError>(ConfigError::Missing(ConfigVar::Ip)) <==> (valid_wait(
                max_wait_time,
            ) && valid_batch(max_batch_size) && valid_url(inference_service_url) && ip is None),
            r == Err::<Config, ConfigError>(ConfigError::Missing(ConfigVar::Port)) <==> (
            valid_wait(max_wait_time) && valid_batch(max_batch_size) && valid_url(
                inference_service_url,
            ) && ip is Some && port is None),
            r == Err::<Config, ConfigError>(ConfigError::Invalid(ConfigVar::Port)) <==> (
            valid_wait(max_wait_time) && valid_batch(max_batch_size) && valid_url(
                inference_service_url,
            ) && ip is Some && (port matches Some(s) && !u16_string(s@))),
    {
        let wait = match max_wait_time {
            None => {
                return Err(ConfigError::Missing(ConfigVar::MaxWaitTime));
            },
            Some(s) => match parse_u64(s.as_str()) {
                None => {
                    return Err(ConfigError::Invalid(ConfigVar::MaxWaitTime));
                },
                Some(v) => v,
            },
        };
        let batch = match max_batch_size {
            None => {
                return Err(ConfigError::Missing(ConfigVar::MaxBatchSize));
            },
            Some(s) => match parse_usize(s.as_str()) {
                None => {
                    return Err(ConfigError::Invalid(ConfigVar::MaxBatchSize));
                },
                Some(v) => {
                    if v == 0 {
                        return Err(ConfigError::Invalid(ConfigVar::MaxBatchSize));
                    }
                    v
                },
            },
        };
        let url = match inference_service_url {
            None => {
                return Err(ConfigError::Missing(ConfigVar::InferenceServiceUrl));
            },
            Some(s) => match join_url(s.as_str(), "/embed") {
                None => {
                    return Err(ConfigError::Invalid(ConfigVar::InferenceServiceUrl));
                },
                Some(_) => s,
            },
        };
        let ip = match ip {
            None => {
                return Err(ConfigError::Missing(ConfigVar::Ip));
            },
            Some(s) => s,
        };
        let port = match port {
            None => {
                return Err(ConfigError::Missing(ConfigVar::Port));
            },
            Some(s) => match parse_u16(s.as_str()) {
                None => {
                    return Err(ConfigError::Invalid(ConfigVar::Port));
                },
                Some(v) => v,
            },
        };
        Ok(
            Config {
                max_wait_time: wait,
                max_batch_size: batch,
                inference_service_url: url,
                inference_service_key,
                ip,
                port,
            },
        )
    }
}

} // verus!
