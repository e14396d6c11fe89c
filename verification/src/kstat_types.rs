//! The wire-level constants of the kernel statistics interface: record type
//! tags, value-type discriminants, the bound on embedded text fields, and the
//! conventional error codes of the record-read primitive.

use vstd::prelude::*;
use vstd::string::StrSliceExecFns;

verus! {

/// Record type tag: raw, untyped data.
pub const KSTAT_TYPE_RAW: u8 = 0;

/// Record type tag: a list of named values.  Decodable.
pub const KSTAT_TYPE_NAMED: u8 = 1;

/// Record type tag: interrupt statistics.
pub const KSTAT_TYPE_INTR: u8 = 2;

/// Record type tag: I/O statistics.  Decodable.
pub const KSTAT_TYPE_IO: u8 = 3;

/// Record type tag: event timer.
pub const KSTAT_TYPE_TIMER: u8 = 4;

/// Value-type discriminant: one signed byte.
pub const KSTAT_DATA_CHAR: u8 = 0;

/// Value-type discriminant: a signed 32-bit integer.
pub const KSTAT_DATA_INT32: u8 = 1;

/// Value-type discriminant: an unsigned 32-bit integer.
pub const KSTAT_DATA_UINT32: u8 = 2;

/// Value-type discriminant: a signed 64-bit integer.
pub const KSTAT_DATA_INT64: u8 = 3;

/// Value-type discriminant: an unsigned 64-bit integer.
pub const KSTAT_DATA_UINT64: u8 = 4;

/// Value-type discriminant: an indirect, null-terminated text value reached
/// through an address embedded in the value slot.
pub const KSTAT_DATA_STRING: u8 = 9;

/// The size in bytes of the fixed value slot of a named value.
pub const KSTAT_VALUE_SLOT: usize = 16;

/// Embedded text fields (class, module, name, and counter names) hold at most
/// this many characters; the wire format stores them null-terminated in a
/// buffer one byte longer.
pub const KSTAT_FIELD_MAX: usize = 30;

/// The conventional code with which the read primitive reports that a
/// record's provider no longer exists (a stale record).
pub const ERR_VANISHED: i32 = 6;

/// The conventional code with which the read primitive reports a transient
/// I/O failure on one record.
pub const ERR_TRANSIENT_IO: i32 = 5;

/// The type of a statistics record, as named by its wire type tag.
/// Only `Named` and `IO` records carry a decodable named-value list.
#[derive(Debug, Clone, Copy, PartialEq, Eq, Structural)]
pub enum KstatType {
    /// Raw, untyped data.
    Raw,
    /// A list of named values.
    Named,
    /// Interrupt statistics.
    Interrupt,
    /// I/O statistics.
    IO,
    /// An event timer.
    Timer,
}

/// The type named by a wire type tag, or `None` for a tag outside the
/// interface's range.
pub open spec fn spec_type_of_tag(tag: u8) -> Option<KstatType> {
    if tag == KSTAT_TYPE_RAW {
        Some(KstatType::Raw)
    } else if tag == KSTAT_TYPE_NAMED {
        Some(KstatType::Named)
    } else if tag == KSTAT_TYPE_INTR {
        Some(KstatType::Interrupt)
    } else if tag == KSTAT_TYPE_IO {
        Some(KstatType::IO)
    } else if tag == KSTAT_TYPE_TIMER {
        Some(KstatType::Timer)
    } else {
        None
    }
}

/// A record's data can be decoded only when its type tag is `Named` or `IO`.
pub open spec fn spec_decodable(tag: u8) -> bool {
    tag == KSTAT_TYPE_NAMED || tag == KSTAT_TYPE_IO
}

impl KstatType {
    /// The type named by a wire type tag, or `None` for a tag outside the
    /// interface's range.
    pub fn from_tag(tag: u8) -> (r: Option<KstatType>)
        ensures
            r == spec_type_of_tag(tag),
    {
        if tag == KSTAT_TYPE_RAW {
            Some(KstatType::Raw)
        } else if tag == KSTAT_TYPE_NAMED {
            Some(KstatType::Named)
        } else if tag == KSTAT_TYPE_INTR {
            Some(KstatType::Interrupt)
        } else if tag == KSTAT_TYPE_IO {
            Some(KstatType::IO)
        } else if tag == KSTAT_TYPE_TIMER {
            Some(KstatType::Timer)
        } else {
            None
        }
    }
}

/// Whether a record with this type tag carries a decodable named-value list.
pub fn tag_is_decodable(tag: u8) -> (r: bool)
    ensures
        r == spec_decodable(tag),
{
    tag == KSTAT_TYPE_NAMED || tag == KSTAT_TYPE_IO
}

/// A bounded text field: text as the wire carries it, cut at the boundary
/// when it is longer than [`KSTAT_FIELD_MAX`] characters.
pub open spec fn spec_trunc(s: Seq<char>) -> Seq<char> {
    if s.len() <= KSTAT_FIELD_MAX {
        s
    } else {
        s.take(KSTAT_FIELD_MAX as int)
    }
}

/// Copies a text field, truncating it at the [`KSTAT_FIELD_MAX`] boundary.
pub fn truncate_field(s: &str) -> (r: String)
    ensures
        r@ == spec_trunc(s@),
{
    let n = s.unicode_len();
    if n <= KSTAT_FIELD_MAX {
        s.to_owned()
    } else {
        let t = s.substring_char(0, KSTAT_FIELD_MAX);
        assert(t@ =~= spec_trunc(s@));
        t.to_owned()
    }
}

} // verus!
