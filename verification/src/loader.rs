//! Fetch outcomes and retry decisions for manifest loading. The HTTP work
//! itself is the caller's; this module fixes how failures are classified,
//! how long to back off, and what each failure says.

use vstd::prelude::*;

use crate::strutil::{dec_rep, u64_to_string};

verus! {

/// Why a manifest could not be loaded. `is_last_retry` records whether the
/// failure happened on the final attempt.
pub enum LoadError {
    Http { url: String, status: u16, message: String, is_last_retry: bool },
    Network { url: String, reason: String, is_last_retry: bool },
    Parse { url: String, message: String },
    Timeout { url: String, is_last_retry: bool },
}

/// Whether a load error came from the final attempt; a parse failure always
/// does.
pub open spec fn spec_is_last_retry(e: LoadError) -> bool {
    match e {
        LoadError::Http { is_last_retry, .. } => is_last_retry,
        LoadError::Network { is_last_retry, .. } => is_last_retry,
        LoadError::Timeout { is_last_retry, .. } => is_last_retry,
        LoadError::Parse { .. } => true,
    }
}

/// The HTTP status carried by an error, if any.
pub open spec fn spec_status_code(e: LoadError) -> Option<u16> {
    match e {
        LoadError::Http { status, .. } => Some(status),
        _ => None,
    }
}

/// The display text of a load error.
pub open spec fn load_error_text(e: LoadError) -> Seq<char> {
    match e {
        LoadError::Http { url, status, message, .. } => "HTTP error "@ + dec_rep(status as nat)
            + " fetching "@ + url@ + ": "@ + message@,
        LoadError::Network { url, reason, .. } => "Network error fetching "@ + url@ + ": "@
            + reason@,
        LoadError::Parse { url, message } => "Parse error for "@ + url@ + ": "@ + message@,
        LoadError::Timeout { url, .. } => "Timeout fetching "@ + url@,
    }
}

impl LoadError {
    /// Whether this failure happened on the final attempt.
    pub fn is_last_retry(&self) -> (r: bool)
        ensures
            r == spec_is_last_retry(*self),
    {
        match self {
            LoadError::Http { is_last_retry, .. } => *is_last_retry,
            LoadError::Network { is_last_retry, .. } => *is_last_retry,
            LoadError::Timeout { is_last_retry, .. } => *is_last_retry,
            LoadError::Parse { .. } => true,
        }
    }

    /// The HTTP status carried by this error, if any.
    pub fn status_code(&self) -> (r: Option<u16>)
        ensures
            r == spec_status_code(*self),
    {
        match self {
            LoadError::Http { status, .. } => Some(*status),
            _ => None,
        }
    }

    /// The display text of this error.
    pub fn describe(&self) -> (r: String)
        ensures
            r@ == load_error_text(*self),
    {
        match self {
            LoadError::Http { url, status, message, .. } => {
                let mut s = "HTTP error ".to_owned();
                let st = u64_to_string(*status as u64);
                s.append(st.as_str());
                s.append(" fetching ");
                s.append(url.as_str());
                s.append(": ");
                s.append(message.as_str());
                proof {
                    assert(s@ =~= load_error_text(*self));
                }
                s
            },
            LoadError::Network { url, reason, .. } => {
                let mut s = "Network error fetching ".to_owned();
                s.append(url.as_str());
                s.append(": ");
                s.append(reason.as_str());
                proof {
                    assert(s@ =~= load_error_text(*self));
                }
                s
            },
            LoadError::Parse { url, message } => {
                let mut s = "Parse error for ".to_owned();
                s.append(url.as_str());
                s.append(": ");
                s.append(message.as_str());
                proof {
                    assert(s@ =~= load_error_text(*self));
                }
                s
            },
            LoadError::Timeout { url, .. } => {
                let mut s = "Timeout fetching ".to_owned();
                s.append(url.as_str());
                proof {
                    assert(s@ =~= load_error_text(*self));
                }
                s
            },
        }
    }
}

impl crate::ring::Dup for LoadError {
    fn dup(&self) -> (r: Self)
        ensures
            r == *self,
    {
        match self {
            LoadError::Http { url, status, message, is_last_retry } => LoadError::Http {
                url: url.clone(),
                status: *status,
                message: message.clone(),
                is_last_retry: *is_last_retry,
            },
            LoadError::Network { url, reason, is_last_retry } => LoadError::Network {
                url: url.clone(),
                reason: reason.clone(),
                is_last_retry: *is_last_retry,
            },
            LoadError::Parse { url, message } => LoadError::Parse {
                url: url.clone(),
                message: message.clone(),
            },
            LoadError::Timeout { url, is_last_retry } => LoadError::Timeout {
                url: url.clone(),
                is_last_retry: *is_last_retry,
            },
        }
    }
}

/// Loads manifest text from a URI. The library judges every outcome of a
/// load, so implementations carry no contract; callers of the engine may
/// implement this over any transport.
pub trait ManifestLoader {
    fn load(&self, uri: &str) -> Result<String, LoadError>;
}

/// Whether a response status ends retrying at once: any client error except
/// "too many requests".
pub open spec fn spec_is_fatal_status(status: u16) -> bool {
    400 <= status < 500 && status != 429
}

/// Decides whether a response status ends retrying at once.
pub fn is_fatal_status(status: u16) -> (r: bool)
    ensures
        r == spec_is_fatal_status(status),
{
    status >= 400 && status < 500 && status != 429
}

/// Two to the power `k`, saturated to `u32` as `u32::saturating_pow` leaves
/// it.
pub open spec fn pow2_sat32(k: u32) -> u32 {
    if k <= 31 {
        (1u32 << k)
    } else {
        u32::MAX
    }
}

/// The backoff before retry attempt `k` (counted from 1): the base doubled
/// `k - 1` times, saturated.
pub open spec fn spec_backoff_ms(base_ms: u64, attempt: u32) -> u64 {
    if attempt == 0 {
        0
    } else {
        crate::playlist::sat_u64(base_ms * pow2_sat32((attempt - 1) as u32))
    }
}

/// Computes the backoff before a retry attempt: none before the first
/// attempt, then the base doubled each time.
pub fn fetch_backoff_ms(base_ms: u64, attempt: u32) -> (r: u64)
    ensures
        r == spec_backoff_ms(base_ms, attempt),
{
    if attempt == 0 {
        return 0;
    }
    let k = attempt - 1;
    let p: u32 = if k <= 31 {
        1u32 << k
    } else {
        u32::MAX
    };
    proof {
        assert(p == pow2_sat32(k));
    }
    proof {
        assert((base_ms as int) * (p as int) <= 0xffff_ffff_ffff_ffff * 0xffff_ffff) by (
        nonlinear_arith)
            requires
                0 <= base_ms <= 0xffff_ffff_ffff_ffff,
                0 <= p <= 0xffff_ffff,
        ;
    }
    let wide: u128 = (base_ms as u128) * (p as u128);
    if wide > u64::MAX as u128 {
        u64::MAX
    } else {
        wide as u64
    }
}

} // verus!
