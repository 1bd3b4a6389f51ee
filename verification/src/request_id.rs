//! Every request has an id: its own, where it brings a sane one in
//! `x-request-id`, else a fresh `req_<16 hex>`. The id goes back in the header of
//! the response, and into the body of every error.

use crate::auth::keys::random_bytes;
use crate::error::Envelope;
use crate::openapi::{ErrorBody, ErrorDetail};
use crate::text::{cat2, hex, hex_of, hex_of_is_hex, is_named_with, named_with, Charset};
use vstd::prelude::*;

verus! {

/// The header that carries the id, both ways.
pub const HEADER: &'static str = "x-request-id";

/// The bytes that a fresh id is written from.
pub const ID_BYTES: usize = 8;

/// The longest id that a client may bring, in characters.
pub const MAX_CHARS: usize = 64;

/// The id of a request.
pub struct RequestId(pub String);

/// A sane id: 1 to 64 characters of `[A-Za-z0-9_-]`.
pub open spec fn sane(id: Seq<char>) -> bool {
    named_with(id, Charset::Id, MAX_CHARS as nat)
}

/// The id that those bytes write.
pub open spec fn fresh_id(bytes: Seq<u8>) -> Seq<char> {
    "req_"@ + hex_of(bytes)
}

/// The request's own id, where it is sane, else a fresh one.
pub open spec fn id_for(header: Option<Seq<char>>, bytes: Seq<u8>) -> Seq<char> {
    match header {
        Some(id) => if sane(id) {
            id
        } else {
            fresh_id(bytes)
        },
        None => fresh_id(bytes),
    }
}

/// The id of a request, given the bytes for a fresh one.
pub fn choose_id(header: Option<&str>, bytes: &[u8]) -> (r: RequestId)
    ensures
        r.0@ == id_for(header.deep_view(), bytes@),
{
    if let Some(id) = header {
        if is_named_with(id, Charset::Id, MAX_CHARS) {
            return RequestId(id.to_owned());
        }
    }
    RequestId(cat2("req_", hex(bytes).as_str()))
}

/// The request's own id, where it is sane.
pub open spec fn own_id(header: Option<Seq<char>>) -> Option<Seq<char>> {
    match header {
        Some(id) => if sane(id) {
            Some(id)
        } else {
            None
        },
        None => None,
    }
}

/// The id of a request. A fresh one is left to chance; there is none where the
/// system has no random bytes to give.
pub fn assign(header: Option<&str>) -> (r: Option<RequestId>)
    ensures
        match own_id(header.deep_view()) {
            Some(id) => r matches Some(assigned) && assigned.0@ == id,
            None => r matches Some(assigned) ==> is_fresh(assigned.0@),
        },
{
    if let Some(id) = header {
        if is_named_with(id, Charset::Id, MAX_CHARS) {
            return Some(RequestId(id.to_owned()));
        }
    }
    let bytes = random_bytes(ID_BYTES)?;
    let id = choose_id(header, bytes.as_slice());
    assert(id.0@ == fresh_id(bytes@));
    Some(id)
}

/// The id is one that some bytes write.
pub open spec fn is_fresh(id: Seq<char>) -> bool {
    exists|bytes: Seq<u8>| bytes.len() == ID_BYTES && id == #[trigger] fresh_id(bytes)
}

/// The body of an error: the envelope and the id.
pub fn error_body(envelope: Envelope, id: &RequestId) -> (r: ErrorBody)
    ensures
        r.error.kind@ == envelope@.kind,
        r.error.message@ == envelope@.message,
        r.error.request_id@ == id.0@,
{
    ErrorBody {
        error: ErrorDetail {
            kind: envelope.kind,
            message: envelope.message,
            request_id: id.0.clone(),
        },
    }
}

// ---- laws ---------------------------------------------------------------------------

/// Whatever a client brings, the id that is used is a sane one: a fresh id is
/// itself of that shape, and begins with `req_`.
pub proof fn every_id_is_sane(header: Option<Seq<char>>, bytes: Seq<u8>)
    requires
        bytes.len() == 8,
    ensures
        sane(id_for(header, bytes)),
        fresh_id(bytes).len() == 20,
        crate::text::begins_with(fresh_id(bytes), "req_"@),
{
    reveal_strlit("req_");
    hex_of_is_hex(bytes);
    let id = fresh_id(bytes);
    assert forall|i: int| 0 <= i < id.len() implies crate::text::in_charset(
        #[trigger] id[i],
        Charset::Id,
    ) by {
        if i >= 4 {
            assert(id[i] == hex_of(bytes)[i - 4]);
            assert(crate::text::hex_digit(hex_of(bytes)[i - 4]));
        }
    }
    assert(id.take(4) =~= "req_"@);
}

/// A sane id is honoured.
pub proof fn a_sane_id_is_honoured(id: Seq<char>, bytes: Seq<u8>)
    requires
        sane(id),
    ensures
        id_for(Some(id), bytes) == id,
{
}

/// An id is honoured where it has 1 to 64 characters, each a letter or a digit of
/// ASCII, `_` or `-`; any other is replaced by a fresh one.
pub proof fn other_ids_are_replaced(id: Seq<char>, bytes: Seq<u8>)
    ensures
        sane(id) <==> 1 <= id.len() <= 64 && forall|i: int|
            0 <= i < id.len() ==> ('a' <= #[trigger] id[i] <= 'z' || 'A' <= id[i] <= 'Z' || '0'
                <= id[i] <= '9' || id[i] == '_' || id[i] == '-'),
        !sane(id) ==> id_for(Some(id), bytes) == "req_"@ + hex_of(bytes),
        id_for(None, bytes) == "req_"@ + hex_of(bytes),
        own_id(Some(id)) is Some <==> sane(id),
        own_id(Some(id)) matches Some(own) ==> own == id,
        own_id(None) is None,
{
    if sane(id) {
        assert forall|i: int| 0 <= i < id.len() implies ('a' <= #[trigger] id[i] <= 'z' || 'A'
            <= id[i] <= 'Z' || '0' <= id[i] <= '9' || id[i] == '_' || id[i] == '-') by {
            assert(crate::text::in_charset(id[i], Charset::Id));
        }
    }
}

} // verus!
