//! The named-value wire format: a bounded name, a one-byte type
//! discriminant, and a fixed 16-byte value slot whose interpretation the
//! discriminant selects.  Indirect string values store, inside the slot, a
//! native-endian address that the provider's bounded-string-read capability
//! resolves to text.

use vstd::prelude::*;
use vstd::bytes::{spec_u32_from_le_bytes, spec_u64_from_le_bytes};

use crate::KstatError;
use crate::kstat_types::{
    spec_trunc, truncate_field, KSTAT_DATA_CHAR, KSTAT_DATA_INT32, KSTAT_DATA_UINT32,
    KSTAT_DATA_INT64, KSTAT_DATA_UINT64, KSTAT_DATA_STRING,
};

verus! {

/// The types of data a named value can hold once decoded.
#[derive(Debug, Clone)]
pub enum KstatNamedData {
    /// One signed byte.
    DataChar(i8),
    /// A signed 32-bit integer.
    DataInt32(i32),
    /// An unsigned 32-bit integer.
    DataUInt32(u32),
    /// A signed 64-bit integer.
    DataInt64(i64),
    /// An unsigned 64-bit integer.
    DataUInt64(u64),
    /// A text value, reached through the indirect string capability.
    DataString(String),
}

/// The mathematical value of a decoded named value.
pub ghost enum ValueView {
    Char(i8),
    Int32(i32),
    UInt32(u32),
    Int64(i64),
    UInt64(u64),
    Text(Seq<char>),
}

impl View for KstatNamedData {
    type V = ValueView;

    open spec fn view(&self) -> ValueView {
        match self {
            KstatNamedData::DataChar(v) => ValueView::Char(*v),
            KstatNamedData::DataInt32(v) => ValueView::Int32(*v),
            KstatNamedData::DataUInt32(v) => ValueView::UInt32(*v),
            KstatNamedData::DataInt64(v) => ValueView::Int64(*v),
            KstatNamedData::DataUInt64(v) => ValueView::UInt64(*v),
            KstatNamedData::DataString(s) => ValueView::Text(s@),
        }
    }
}

/// One named value as the wire carries it: the name field, the type
/// discriminant, and the raw value slot.
#[derive(Debug)]
pub struct RawNamed {
    /// The counter's name field.
    pub name: String,
    /// The value-type discriminant.
    pub data_type: u8,
    /// The fixed-size value slot.
    pub value: Vec<u8>,
}

/// The mathematical content of one raw named value.
pub ghost struct RawNamedView {
    pub name: Seq<char>,
    pub data_type: u8,
    pub value: Seq<u8>,
}

impl View for RawNamed {
    type V = RawNamedView;

    open spec fn view(&self) -> RawNamedView {
        RawNamedView { name: self.name@, data_type: self.data_type, value: self.value@ }
    }
}

/// The provider's bounded-string-read capability, materialized: the
/// null-terminated text reachable from each address that the current
/// chain's indirect string values may name.  When the same address is added
/// twice, the later text wins.
#[derive(Debug)]
pub struct StringTable {
    pairs: Vec<(u64, String)>,
}

/// The mapping a list of (address, text) pairs denotes; a later pair for
/// the same address overrides an earlier one.
pub open spec fn spec_table_view(pairs: Seq<(u64, String)>) -> Map<u64, Seq<char>>
    decreases pairs.len(),
{
    if pairs.len() == 0 {
        Map::empty()
    } else {
        spec_table_view(pairs.drop_last()).insert(pairs.last().0, pairs.last().1@)
    }
}

impl View for StringTable {
    type V = Map<u64, Seq<char>>;

    closed spec fn view(&self) -> Map<u64, Seq<char>> {
        spec_table_view(self.pairs@)
    }
}

impl StringTable {
    /// An empty capability: no address resolves.
    pub fn new() -> (r: StringTable)
        ensures
            r@ == Map::<u64, Seq<char>>::empty(),
    {
        StringTable { pairs: Vec::new() }
    }

    /// Records that `addr` resolves to `text`.
    pub fn add(&mut self, addr: u64, text: String)
        ensures
            final(self)@ == old(self)@.insert(addr, text@),
    {
        self.pairs.push((addr, text));
        proof {
            assert(self.pairs@.drop_last() =~= old(self).pairs@);
        }
    }

    /// The text at `addr`, or `None` when the capability cannot resolve it.
    pub fn get(&self, addr: u64) -> (r: Option<&String>)
        ensures
            match r {
                Some(s) => self@.contains_key(addr) && s@ == self@[addr],
                None => !self@.contains_key(addr),
            },
    {
        let n = self.pairs.len();
        let mut i: usize = n;
        proof {
            assert(self.pairs@.take(n as int) =~= self.pairs@);
        }
        while i > 0
            invariant
                i <= n,
                n == self.pairs@.len(),
                spec_table_view(self.pairs@).contains_key(addr) == spec_table_view(
                    self.pairs@.take(i as int),
                ).contains_key(addr),
                spec_table_view(self.pairs@).contains_key(addr) ==> spec_table_view(
                    self.pairs@,
                )[addr] == spec_table_view(self.pairs@.take(i as int))[addr],
            decreases i,
        {
            i = i - 1;
            proof {
                assert(self.pairs@.take(i + 1).drop_last() =~= self.pairs@.take(i as int));
                assert(self.pairs@.take(i + 1).last() == self.pairs@[i as int]);
            }
            if self.pairs[i].0 == addr {
                return Some(&self.pairs[i].1);
            }
        }
        proof {
            assert(self.pairs@.take(0) =~= Seq::<(u64, String)>::empty());
        }
        None
    }
}

/// Relies on byteorder's `NativeEndian::read_u32`, which on the
/// little-endian hosts of this interface is `LittleEndian::read_u32`:
/// the first four bytes of `s`, least significant byte first.
#[verifier::external_body]
fn read_u32_native(s: &[u8]) -> (x: u32)
    requires
        s@.len() >= 4,
    ensures
        x == spec_u32_from_le_bytes(s@.subrange(0, 4)),
{
    <byteorder::NativeEndian as byteorder::ByteOrder>::read_u32(s)
}

/// Relies on byteorder's `NativeEndian::read_i32`: the same four bytes as
/// `read_u32`, reinterpreted as a signed 32-bit integer.
#[verifier::external_body]
fn read_i32_native(s: &[u8]) -> (x: i32)
    requires
        s@.len() >= 4,
    ensures
        x == spec_u32_from_le_bytes(s@.subrange(0, 4)) as i32,
{
    <byteorder::NativeEndian as byteorder::ByteOrder>::read_i32(s)
}

/// Relies on byteorder's `NativeEndian::read_u64`, which on the
/// little-endian hosts of this interface is `LittleEndian::read_u64`:
/// the first eight bytes of `s`, least significant byte first.
#[verifier::external_body]
fn read_u64_native(s: &[u8]) -> (x: u64)
    requires
        s@.len() >= 8,
    ensures
        x == spec_u64_from_le_bytes(s@.subrange(0, 8)),
{
    <byteorder::NativeEndian as byteorder::ByteOrder>::read_u64(s)
}

/// Relies on byteorder's `NativeEndian::read_i64`: the same eight bytes as
/// `read_u64`, reinterpreted as a signed 64-bit integer.
#[verifier::external_body]
fn read_i64_native(s: &[u8]) -> (x: i64)
    requires
        s@.len() >= 8,
    ensures
        x == spec_u64_from_le_bytes(s@.subrange(0, 8)) as i64,
{
    <byteorder::NativeEndian as byteorder::ByteOrder>::read_i64(s)
}

/// The value a slot decodes to under a discriminant, given the string
/// capability, or `None` when the data does not match the wire format: an
/// unknown discriminant, a slot too short for the selected width, or an
/// indirect string address the capability cannot resolve.
pub open spec fn spec_decode_value(
    data_type: u8,
    slot: Seq<u8>,
    strings: Map<u64, Seq<char>>,
) -> Option<ValueView> {
    if data_type == KSTAT_DATA_CHAR {
        if slot.len() >= 1 {
            Some(ValueView::Char(slot[0] as i8))
        } else {
            None
        }
    } else if data_type == KSTAT_DATA_INT32 {
        if slot.len() >= 4 {
            Some(ValueView::Int32(spec_u32_from_le_bytes(slot.subrange(0, 4)) as i32))
        } else {
            None
        }
    } else if data_type == KSTAT_DATA_UINT32 {
        if slot.len() >= 4 {
            Some(ValueView::UInt32(spec_u32_from_le_bytes(slot.subrange(0, 4))))
        } else {
            None
        }
    } else if data_type == KSTAT_DATA_INT64 {
        if slot.len() >= 8 {
            Some(ValueView::Int64(spec_u64_from_le_bytes(slot.subrange(0, 8)) as i64))
        } else {
            None
        }
    } else if data_type == KSTAT_DATA_UINT64 {
        if slot.len() >= 8 {
            Some(ValueView::UInt64(spec_u64_from_le_bytes(slot.subrange(0, 8))))
        } else {
            None
        }
    } else if data_type == KSTAT_DATA_STRING {
        if slot.len() >= 8 {
            let addr = spec_u64_from_le_bytes(slot.subrange(0, 8));
            if strings.contains_key(addr) {
                Some(ValueView::Text(strings[addr]))
            } else {
                None
            }
        } else {
            None
        }
    } else {
        None
    }
}

/// The (key, value) pair one raw named value decodes to: the bounded name
/// and the typed value, or `None` when the value does not decode.
pub open spec fn spec_decode_named(
    raw: RawNamedView,
    strings: Map<u64, Seq<char>>,
) -> Option<(Seq<char>, ValueView)> {
    match spec_decode_value(raw.data_type, raw.value, strings) {
        Some(v) => Some((spec_trunc(raw.name), v)),
        None => None,
    }
}

/// The mathematical contents of a raw named-value list.
pub open spec fn raws_view(raws: Seq<RawNamed>) -> Seq<RawNamedView> {
    Seq::new(raws.len(), |i: int| raws[i]@)
}

/// The mapping a raw named-value list decodes to, or `None` when some entry
/// of it does not decode.  A later entry overwrites an earlier one carrying
/// the same name.
pub open spec fn spec_decode_list(
    raws: Seq<RawNamedView>,
    strings: Map<u64, Seq<char>>,
) -> Option<Map<Seq<char>, ValueView>>
    decreases raws.len(),
{
    if raws.len() == 0 {
        Some(Map::empty())
    } else {
        match spec_decode_list(raws.drop_last(), strings) {
            Some(m) => match spec_decode_named(raws.last(), strings) {
                Some(kv) => Some(m.insert(kv.0, kv.1)),
                None => None,
            },
            None => None,
        }
    }
}

/// A list with an entry that does not decode does not decode as a whole.
pub proof fn lemma_decode_list_failure(
    raws: Seq<RawNamedView>,
    strings: Map<u64, Seq<char>>,
    i: int,
)
    requires
        0 <= i < raws.len(),
        spec_decode_named(raws[i], strings) is None,
    ensures
        spec_decode_list(raws, strings) is None,
    decreases raws.len(),
{
    if i < raws.len() - 1 {
        assert(raws.drop_last()[i] == raws[i]);
        lemma_decode_list_failure(raws.drop_last(), strings, i);
    }
}

/// A view of one raw named value, ready to be decoded.
#[derive(Debug)]
pub struct KstatNamed<'a> {
    raw: &'a RawNamed,
}

impl<'a> View for KstatNamed<'a> {
    type V = RawNamedView;

    closed spec fn view(&self) -> RawNamedView {
        self.raw@
    }
}

impl<'a> KstatNamed<'a> {
    /// Wraps one raw named value.
    pub fn new(raw: &'a RawNamed) -> (r: KstatNamed<'a>)
        ensures
            r@ == raw@,
    {
        KstatNamed { raw }
    }

    /// The counter's name, cut at the bounded-text boundary.
    pub fn name(&self) -> (r: String)
        ensures
            r@ == spec_trunc(self@.name),
    {
        truncate_field(self.raw.name.as_str())
    }

    /// The raw value-type discriminant.
    pub fn get_data_type(&self) -> (r: u8)
        ensures
            r == self@.data_type,
    {
        self.raw.data_type
    }

    /// Decodes this named value into its (name, typed value) pair,
    /// resolving indirect strings through `strings`.  Fails with
    /// [`KstatError::Decode`] exactly when the value does not match the
    /// wire format.
    pub fn read(&self, strings: &StringTable) -> (r: Result<
        (String, KstatNamedData),
        KstatError,
    >)
        ensures
            match spec_decode_named(self@, strings@) {
                Some(kv) => r matches Ok(p) && p.0@ == kv.0 && p.1@ == kv.1,
                None => r matches Err(e) && e == KstatError::Decode,
            },
    {
        let dt = self.raw.data_type;
        let slot = &self.raw.value;
        let value: KstatNamedData = if dt == KSTAT_DATA_CHAR {
            if slot.len() >= 1 {
                KstatNamedData::DataChar(#[verifier::truncate] (slot[0] as i8))
            } else {
                return Err(KstatError::Decode);
            }
        } else if dt == KSTAT_DATA_INT32 {
            if slot.len() >= 4 {
                KstatNamedData::DataInt32(read_i32_native(slot.as_slice()))
            } else {
                return Err(KstatError::Decode);
            }
        } else if dt == KSTAT_DATA_UINT32 {
            if slot.len() >= 4 {
                KstatNamedData::DataUInt32(read_u32_native(slot.as_slice()))
            } else {
                return Err(KstatError::Decode);
            }
        } else if dt == KSTAT_DATA_INT64 {
            if slot.len() >= 8 {
                KstatNamedData::DataInt64(read_i64_native(slot.as_slice()))
            } else {
                return Err(KstatError::Decode);
            }
        } else if dt == KSTAT_DATA_UINT64 {
            if slot.len() >= 8 {
                KstatNamedData::DataUInt64(read_u64_native(slot.as_slice()))
            } else {
                return Err(KstatError::Decode);
            }
        } else if dt == KSTAT_DATA_STRING {
            if slot.len() >= 8 {
                let addr = read_u64_native(slot.as_slice());
                match strings.get(addr) {
                    Some(s) => KstatNamedData::DataString(s.clone()),
                    None => {
                        return Err(KstatError::Decode);
                    },
                }
            } else {
                return Err(KstatError::Decode);
            }
        } else {
            return Err(KstatError::Decode);
        };
        Ok((self.name(), value))
    }
}

} // verus!
