//! The request and response shapes of the REST façade, and the validation
//! the façade applies before touching a monitor. The HTTP plumbing is the
//! caller's; every decision is made here.

use vstd::prelude::*;

use crate::error::MonitorError;
use crate::state::StreamItem;
use crate::strutil::{dec_rep, has_prefix, u64_to_string};

verus! {

/// An error the façade reports to its caller.
pub enum ApiError {
    NotFound(String),
    BadRequest(String),
    Conflict(String),
    Internal(String),
}

/// A stream input: either a bare URL, or an identifier and a URL.
pub enum StreamInput {
    Url(String),
    Object { id: Option<String>, url: String },
}

/// The URL of a stream input.
pub open spec fn input_url(s: StreamInput) -> Seq<char> {
    match s {
        StreamInput::Url(u) => u@,
        StreamInput::Object { url, .. } => url@,
    }
}

/// The identifier a stream input gets at position `index` (counted from 0):
/// its own, or `stream_` and the one-based position.
pub open spec fn input_id(s: StreamInput, index: int) -> Seq<char> {
    match s {
        StreamInput::Url(_) => "stream_"@ + dec_rep((index + 1) as nat),
        StreamInput::Object { id, .. } => match id {
            Some(v) => v@,
            None => "stream_"@ + dec_rep((index + 1) as nat),
        },
    }
}

impl StreamInput {
    /// The URL of this input.
    pub fn url(&self) -> (r: &str)
        ensures
            r@ == input_url(*self),
    {
        match self {
            StreamInput::Url(u) => u.as_str(),
            StreamInput::Object { url, .. } => url.as_str(),
        }
    }

    /// Turns this input into a stream item, naming it `stream_<index + 1>`
    /// when it brings no identifier of its own.
    pub fn into_stream_item(self, index: usize) -> (r: StreamItem)
        requires
            index < usize::MAX,
        ensures
            r.url@ == input_url(self),
            r.id@ == input_id(self, index as int),
    {
        match self {
            StreamInput::Url(url) => {
                let mut id = "stream_".to_owned();
                let nrep = u64_to_string((index + 1) as u64);
                id.append(nrep.as_str());
                proof {
                    assert(id@ =~= "stream_"@ + dec_rep((index + 1) as nat));
                }
                StreamItem { id, url }
            },
            StreamInput::Object { id, url } => match id {
                Some(v) => StreamItem { id: v, url },
                None => {
                    let mut id = "stream_".to_owned();
                    let nrep = u64_to_string((index + 1) as u64);
                    id.append(nrep.as_str());
                    proof {
                        assert(id@ =~= "stream_"@ + dec_rep((index + 1) as nat));
                    }
                    StreamItem { id, url }
                },
            },
        }
    }
}

/// Whether a stream URL is acceptable: an `http` or `https` URL with a
/// nonempty remainder after the scheme.
pub open spec fn valid_stream_url(u: Seq<char>) -> bool {
    (has_prefix(u, "http://"@) && u.len() > "http://"@.len()) || (has_prefix(u, "https://"@)
        && u.len() > "https://"@.len())
}

/// Decides whether a stream URL is acceptable.
pub fn is_valid_url(u: &str) -> (r: bool)
    ensures
        r == valid_stream_url(u@),
{
    let len = u.unicode_len();
    if crate::strutil::starts_with(u, "http://") {
        let p = "http://";
        if len > p.unicode_len() {
            return true;
        }
    }
    if crate::strutil::starts_with(u, "https://") {
        let p = "https://";
        len > p.unicode_len()
    } else {
        false
    }
}

/// Whether two inputs in a request name the same URL.
pub open spec fn has_duplicate_urls(inputs: Seq<StreamInput>) -> bool {
    exists|i: int, j: int|
        0 <= i < j < inputs.len() && input_url(inputs[i]) == input_url(inputs[j])
}

/// Validates the streams of a creation request: the list must be nonempty,
/// every URL must be an `http(s)` URL, and no URL may repeat. On success the
/// inputs become stream items in order, unnamed ones numbered by position.
pub fn validate_stream_inputs(inputs: Vec<StreamInput>) -> (r: Result<Vec<StreamItem>, ApiError>)
    requires
        inputs@.len() < usize::MAX,
    ensures
        match r {
            Ok(items) => {
                &&& inputs@.len() > 0
                &&& (forall|i: int|
                    0 <= i < inputs@.len() ==> valid_stream_url(input_url(#[trigger] inputs@[i])))
                &&& !has_duplicate_urls(inputs@)
                &&& items@.len() == inputs@.len()
                &&& (forall|i: int|
                    0 <= i < items@.len() ==> (#[trigger] items@[i]).url@ == input_url(inputs@[i])
                        && items@[i].id@ == input_id(inputs@[i], i))
            },
            Err(e) => {
                &&& (e matches ApiError::BadRequest(_))
                &&& (inputs@.len() == 0 || (exists|i: int|
                    0 <= i < inputs@.len() && !valid_stream_url(input_url(#[trigger] inputs@[i])))
                    || has_duplicate_urls(inputs@))
            },
        },
{
    if inputs.len() == 0 {
        return Err(ApiError::BadRequest("streams array must not be empty".to_owned()));
    }
    let n = inputs.len();
    let mut i: usize = 0;
    while i < n
        invariant
            i <= n,
            n == inputs@.len(),
            forall|j: int| 0 <= j < i ==> valid_stream_url(input_url(#[trigger] inputs@[j])),
        decreases n - i,
    {
        if !is_valid_url(inputs[i].url()) {
            return Err(ApiError::BadRequest("Invalid URLs in request".to_owned()));
        }
        i = i + 1;
    }
    let mut i: usize = 0;
    while i < n
        invariant
            i <= n,
            n == inputs@.len(),
            forall|a: int, b: int|
                0 <= a < b < i ==> input_url(#[trigger] inputs@[a]) != input_url(
                    #[trigger] inputs@[b],
                ),
        decreases n - i,
    {
        let mut j: usize = 0;
        while j < i
            invariant
                j <= i < n,
                n == inputs@.len(),
                forall|b: int|
                    0 <= b < j ==> input_url(#[trigger] inputs@[b]) != input_url(
                        inputs@[i as int],
                    ),
            decreases i - j,
        {
            if crate::strutil::eq_str(inputs[j].url(), inputs[i].url()) {
                return Err(
                    ApiError::BadRequest(
                        "Duplicate stream URLs are not allowed within the same monitor".to_owned(),
                    ),
                );
            }
            j = j + 1;
        }
        proof {
            assert forall|a: int, b: int|
                0 <= a < b < i + 1 implies input_url(#[trigger] inputs@[a]) != input_url(
                #[trigger] inputs@[b],
            ) by {
                if b == i as int {
                    assert(input_url(inputs@[a]) != input_url(inputs@[i as int]));
                }
            }
        }
        i = i + 1;
    }
    let mut items: Vec<StreamItem> = Vec::new();
    let mut inputs = inputs;
    let ghost iv = inputs@;
    let mut i: usize = 0;
    while i < n
        invariant
            i <= n,
            n == iv.len(),
            n < usize::MAX,
            inputs@ == iv.skip(i as int),
            items@.len() == i,
            forall|j: int|
                0 <= j < i ==> (#[trigger] items@[j]).url@ == input_url(iv[j]) && items@[j].id@
                    == input_id(iv[j], j),
        decreases n - i,
    {
        let input = inputs.remove(0);
        proof {
            assert(iv.skip(i as int)[0] == iv[i as int]);
            assert(iv.skip(i as int).drop_first() =~= iv.skip(i as int + 1));
        }
        let item = input.into_stream_item(i);
        items.push(item);
        i = i + 1;
    }
    Ok(items)
}

/// Validates streams added to an existing monitor: the same rules as for
/// creation, and no URL may already be monitored. New items are numbered
/// after the existing ones.
pub fn validate_added_streams(existing: &Vec<StreamItem>, inputs: Vec<StreamInput>) -> (r: Result<
    Vec<StreamItem>,
    ApiError,
>)
    requires
        inputs@.len() + existing@.len() < usize::MAX,
    ensures
        match r {
            Ok(items) => {
                &&& inputs@.len() > 0
                &&& !has_duplicate_urls(inputs@)
                &&& (forall|i: int, j: int|
                    0 <= i < existing@.len() && 0 <= j < inputs@.len() ==> (
                    #[trigger] existing@[i]).url@ != input_url(#[trigger] inputs@[j]))
                &&& items@.len() == inputs@.len()
                &&& (forall|i: int|
                    0 <= i < items@.len() ==> (#[trigger] items@[i]).url@ == input_url(inputs@[i])
                        && items@[i].id@ == input_id(inputs@[i], existing@.len() + i))
            },
            Err(e) => e matches ApiError::BadRequest(_) || e matches ApiError::Conflict(_),
        },
{
    if inputs.len() == 0 {
        return Err(ApiError::BadRequest("streams array must not be empty".to_owned()));
    }
    let n = inputs.len();
    let mut i: usize = 0;
    while i < n
        invariant
            i <= n,
            n == inputs@.len(),
        decreases n - i,
    {
        if !is_valid_url(inputs[i].url()) {
            return Err(ApiError::BadRequest("Invalid URLs in request".to_owned()));
        }
        i = i + 1;
    }
    let mut i: usize = 0;
    while i < n
        invariant
            i <= n,
            n == inputs@.len(),
            forall|a: int, b: int|
                0 <= a < b < i ==> input_url(#[trigger] inputs@[a]) != input_url(
                    #[trigger] inputs@[b],
                ),
        decreases n - i,
    {
        let mut j: usize = 0;
        while j < i
            invariant
                j <= i < n,
                n == inputs@.len(),
                forall|b: int|
                    0 <= b < j ==> input_url(#[trigger] inputs@[b]) != input_url(
                        inputs@[i as int],
                    ),
            decreases i - j,
        {
            if crate::strutil::eq_str(inputs[j].url(), inputs[i].url()) {
                return Err(ApiError::BadRequest("Duplicate stream URLs in request".to_owned()));
            }
            j = j + 1;
        }
        proof {
            assert forall|a: int, b: int|
                0 <= a < b < i + 1 implies input_url(#[trigger] inputs@[a]) != input_url(
                #[trigger] inputs@[b],
            ) by {
                if b == i as int {
                    assert(input_url(inputs@[a]) != input_url(inputs@[i as int]));
                }
            }
        }
        i = i + 1;
    }
    let ne = existing.len();
    let mut i: usize = 0;
    while i < ne
        invariant
            i <= ne,
            ne == existing@.len(),
            n == inputs@.len(),
            forall|a: int, b: int|
                0 <= a < i && 0 <= b < n ==> (#[trigger] existing@[a]).url@ != input_url(
                    #[trigger] inputs@[b],
                ),
        decreases ne - i,
    {
        let mut j: usize = 0;
        while j < n
            invariant
                j <= n,
                i < ne,
                ne == existing@.len(),
                n == inputs@.len(),
                forall|b: int|
                    0 <= b < j ==> (#[trigger] existing@[i as int]).url@ != input_url(inputs@[b]),
            decreases n - j,
        {
            if crate::strutil::eq_str(existing[i].url.as_str(), inputs[j].url()) {
                return Err(
                    ApiError::Conflict("Streams are already being monitored".to_owned()),
                );
            }
            j = j + 1;
        }
        proof {
            assert forall|a: int, b: int|
                0 <= a < i + 1 && 0 <= b < n implies (#[trigger] existing@[a]).url@ != input_url(
                #[trigger] inputs@[b],
            ) by {
                if a == i as int {
                    assert(existing@[i as int].url@ != input_url(inputs@[b]));
                }
            }
        }
        i = i + 1;
    }
    let mut items: Vec<StreamItem> = Vec::new();
    let mut inputs = inputs;
    let ghost iv = inputs@;
    let mut i: usize = 0;
    while i < n
        invariant
            i <= n,
            n == iv.len(),
            ne == existing@.len(),
            n + ne < usize::MAX,
            inputs@ == iv.skip(i as int),
            items@.len() == i,
            forall|j: int|
                0 <= j < i ==> (#[trigger] items@[j]).url@ == input_url(iv[j]) && items@[j].id@
                    == input_id(iv[j], ne + j),
        decreases n - i,
    {
        let input = inputs.remove(0);
        proof {
            assert(iv.skip(i as int)[0] == iv[i as int]);
            assert(iv.skip(i as int).drop_first() =~= iv.skip(i as int + 1));
        }
        let item = input.into_stream_item(ne + i);
        items.push(item);
        i = i + 1;
    }
    Ok(items)
}

/// The streams of a monitor, as the façade reports them.
pub struct StreamsResponse {
    pub streams: Vec<StreamItem>,
}

/// A request to add streams to a monitor.
pub struct AddStreamsRequest {
    pub streams: Vec<StreamInput>,
}

/// The reply after adding streams.
pub struct AddStreamsResponse {
    pub message: String,
    pub streams: Vec<StreamItem>,
}

/// The reply after removing a stream.
pub struct RemoveStreamResponse {
    pub message: String,
    pub streams: Vec<StreamItem>,
}

/// The retained errors of a monitor, newest first, with its state.
pub struct ErrorsResponse {
    pub last_checked_ms: Option<u64>,
    pub state: String,
    pub errors: Vec<MonitorError>,
}

/// A plain confirmation message.
pub struct MessageResponse {
    pub message: String,
}

/// One stream of a configuration file: an optional identifier and a URL.
pub struct StreamDef {
    pub id: Option<String>,
    pub url: String,
}

impl StreamDef {
    /// The stream item a definition yields at position `index`.
    pub fn to_stream_item(self, index: usize) -> (r: StreamItem)
        requires
            index < usize::MAX,
        ensures
            r.url@ == self.url@,
            match self.id {
                Some(v) => r.id@ == v@,
                None => r.id@ == "stream_"@ + dec_rep((index + 1) as nat),
            },
    {
        match self.id {
            Some(v) => StreamItem { id: v, url: self.url },
            None => {
                let mut id = "stream_".to_owned();
                let nrep = u64_to_string((index + 1) as u64);
                id.append(nrep.as_str());
                proof {
                    assert(id@ =~= "stream_"@ + dec_rep((index + 1) as nat));
                }
                StreamItem { id, url: self.url }
            },
        }
    }
}

} // verus!
