//! Trusted boundary to the `uuid` crate, and the page-request shape.
//!
//! Listing keys are UUIDs. For ordering, a UUID is read as the
//! fixed-width 128-bit big-endian number its sixteen bytes pack into —
//! a total order in which no two distinct keys compare equal. That
//! order is NOT creation-time order: the keys are randomly generated,
//! so listing by raw key value is not chronological.

use vstd::prelude::*;

verus! {

#[verifier::external_type_specification]
#[verifier::external_body]
pub struct ExUuid(uuid::Uuid);

/// The 128-bit value of a UUID: its sixteen bytes packed as one
/// big-endian number, as `uuid::Uuid::as_u128` reads them.
pub uninterp spec fn uuid_value(u: uuid::Uuid) -> u128;

/// Relies on uuid::Uuid::as_u128: returns the UUID's bytes packed into
/// a 128-bit number.
#[verifier::external_body]
pub(crate) fn uuid_as_u128(u: &uuid::Uuid) -> (v: u128)
    ensures
        v == uuid_value(*u),
{
    u.as_u128()
}

/// Relies on uuid::Uuid::from_u128: packs a 128-bit number into a UUID
/// big-endian, the inverse of `as_u128`.
#[verifier::external_body]
pub(crate) fn uuid_from_u128(v: u128) -> (u: uuid::Uuid)
    ensures
        uuid_value(u) == v,
{
    uuid::Uuid::from_u128(v)
}

/// Relies on uuid::Uuid::nil: the all-zero UUID, the domain minimum.
#[verifier::external_body]
pub(crate) fn uuid_nil() -> (u: uuid::Uuid)
    ensures
        uuid_value(u) == 0,
{
    uuid::Uuid::nil()
}

/// Relies on uuid::Uuid::max: the all-one UUID, the domain maximum.
#[verifier::external_body]
pub(crate) fn uuid_max() -> (u: uuid::Uuid)
    ensures
        uuid_value(u) == u128::MAX,
{
    uuid::Uuid::max()
}

/// The page-request shape a listing call carries: a window over the
/// key domain. `min_id` is the exclusive lower bound and defaults to
/// the domain minimum; `max_id` defaults to the domain maximum and is
/// reserved — the windowing algorithm does not consult it.
pub struct PaginationParams {
    /// Exclusive lower bound of the window.
    pub min_id: uuid::Uuid,
    /// Reserved upper bound of the window.
    pub max_id: uuid::Uuid,
}

/// The cursor a lower-bound key denotes: the domain minimum marks the
/// start of the listing (no bound at all), any other value bounds it
/// exclusively.
pub open spec fn spec_cursor_of(min: u128) -> Option<u128> {
    if min == 0 {
        Option::None
    } else {
        Option::Some(min)
    }
}

impl PaginationParams {
    /// The default window: the whole key domain.
    pub fn new() -> (r: PaginationParams)
        ensures
            uuid_value(r.min_id) == 0,
            uuid_value(r.max_id) == u128::MAX,
    {
        PaginationParams { min_id: uuid_nil(), max_id: uuid_max() }
    }

    /// A window between two explicit key values.
    pub fn from_values(min: u128, max: u128) -> (r: PaginationParams)
        ensures
            uuid_value(r.min_id) == min,
            uuid_value(r.max_id) == max,
    {
        PaginationParams { min_id: uuid_from_u128(min), max_id: uuid_from_u128(max) }
    }

    /// The paginator cursor this request denotes.
    pub fn cursor(&self) -> (c: Option<u128>)
        ensures
            c == spec_cursor_of(uuid_value(self.min_id)),
    {
        let v = uuid_as_u128(&self.min_id);
        if v == 0 {
            Option::None
        } else {
            Option::Some(v)
        }
    }

    /// The window's bounds as plain values.
    pub fn window(&self) -> (w: (u128, u128))
        ensures
            w.0 == uuid_value(self.min_id),
            w.1 == uuid_value(self.max_id),
    {
        (uuid_as_u128(&self.min_id), uuid_as_u128(&self.max_id))
    }
}

} // verus!
