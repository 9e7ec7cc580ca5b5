use vstd::prelude::*;
use crate::family::{AddrFamily, FamilyCodes};
use crate::wire::{
    ByteOrder, read_i32, read_text, read_u32, read_u64, signed32, text_value, u32_value,
    u64_value,
};

verus! {

/// Number of bytes offered to the engine for each field it writes out.
pub const FIELD_CAPACITY: usize = 1024;

/// A field of a per-host record, as the engine names it.
#[derive(Copy, Clone, Debug, PartialEq, Eq, Structural)]
pub enum Field {
    Hostname,
    Address,
    Family,
    Latency,
    Sequence,
    Ident,
    Data,
    Username,
    Dropped,
    RecvTtl,
    RecvQos,
}

impl Field {
    pub open spec fn spec_code(self) -> u32 {
        match self {
            Field::Hostname => 1,
            Field::Address => 2,
            Field::Family => 3,
            Field::Latency => 4,
            Field::Sequence => 5,
            Field::Ident => 6,
            Field::Data => 7,
            Field::Username => 8,
            Field::Dropped => 9,
            Field::RecvTtl => 10,
            Field::RecvQos => 11,
        }
    }

    /// The engine's numeric tag for this field.
    pub fn code(self) -> (r: u32)
        ensures
            r == self.spec_code(),
    {
        match self {
            Field::Hostname => 1,
            Field::Address => 2,
            Field::Family => 3,
            Field::Latency => 4,
            Field::Sequence => 5,
            Field::Ident => 6,
            Field::Data => 7,
            Field::Username => 8,
            Field::Dropped => 9,
            Field::RecvTtl => 10,
            Field::RecvQos => 11,
        }
    }
}

/// The fields of a record, in the order in which they are read.
pub open spec fn record_field(i: int) -> Field {
    if i == 0 {
        Field::Hostname
    } else if i == 1 {
        Field::Address
    } else if i == 2 {
        Field::Family
    } else if i == 3 {
        Field::Latency
    } else if i == 4 {
        Field::Dropped
    } else if i == 5 {
        Field::Sequence
    } else if i == 6 {
        Field::RecvTtl
    } else {
        Field::RecvQos
    }
}

/// How many fields make up a record.
pub const RECORD_FIELDS: usize = 8;

/// The `i`-th field of a record, in reading order.
pub fn record_field_at(i: usize) -> (r: Field)
    requires
        i < RECORD_FIELDS,
    ensures
        r == record_field(i as int),
{
    if i == 0 {
        Field::Hostname
    } else if i == 1 {
        Field::Address
    } else if i == 2 {
        Field::Family
    } else if i == 3 {
        Field::Latency
    } else if i == 4 {
        Field::Dropped
    } else if i == 5 {
        Field::Sequence
    } else if i == 6 {
        Field::RecvTtl
    } else {
        Field::RecvQos
    }
}

/// The outcome for one host of one send.
///
/// The latency is kept as the bit pattern of the IEEE-754 double (milliseconds)
/// that the engine reported; `f64::from_bits` gives the number.
#[derive(Clone, Debug)]
pub struct PingItem {
    pub hostname: String,
    pub address: String,
    pub family: AddrFamily,
    pub latency_bits: u64,
    pub dropped: u32,
    pub seq: i32,
    pub recv_ttl: i32,
    pub recv_qos: u8,
}

/// A [`PingItem`] with its strings as character sequences.
pub struct PingItemView {
    pub hostname: Seq<char>,
    pub address: Seq<char>,
    pub family: AddrFamily,
    pub latency_bits: u64,
    pub dropped: u32,
    pub seq: i32,
    pub recv_ttl: i32,
    pub recv_qos: u8,
}

impl View for PingItem {
    type V = PingItemView;

    open spec fn view(&self) -> PingItemView {
        PingItemView {
            hostname: self.hostname@,
            address: self.address@,
            family: self.family,
            latency_bits: self.latency_bits,
            dropped: self.dropped,
            seq: self.seq,
            recv_ttl: self.recv_ttl,
            recv_qos: self.recv_qos,
        }
    }
}

/// Whether the bytes the engine wrote for each field of a record can all be
/// read: text fields as UTF-8, number fields at least as wide as their type.
pub open spec fn fields_readable(f: Seq<Seq<u8>>) -> bool {
    &&& f.len() == RECORD_FIELDS
    &&& text_value(f[0]) is Some
    &&& text_value(f[1]) is Some
    &&& f[2].len() >= 4
    &&& f[3].len() >= 8
    &&& f[4].len() >= 4
    &&& f[5].len() >= 4
    &&& f[6].len() >= 4
    &&& f[7].len() >= 1
}

/// The record that the field bytes `f` (in reading order) stand for, or
/// `None` where one of them cannot be read.
pub open spec fn record_value(f: Seq<Seq<u8>>, codes: FamilyCodes, order: ByteOrder) -> Option<
    PingItemView,
> {
    if fields_readable(f) {
        Some(
            PingItemView {
                hostname: text_value(f[0])->Some_0,
                address: text_value(f[1])->Some_0,
                family: codes.spec_family_of(signed32(u32_value(f[2], order)) as i32),
                latency_bits: u64_value(f[3], order) as u64,
                dropped: u32_value(f[4], order) as u32,
                seq: signed32(u32_value(f[5], order)) as i32,
                recv_ttl: signed32(u32_value(f[6], order)) as i32,
                recv_qos: f[7][0],
            },
        )
    } else {
        None
    }
}

/// The bytes of each field buffer.
pub open spec fn field_bytes(f: Seq<Vec<u8>>) -> Seq<Seq<u8>> {
    f.map_values(|b: Vec<u8>| b@)
}

/// The views of a sequence of records.
pub open spec fn item_views(s: Seq<PingItem>) -> Seq<PingItemView> {
    s.map_values(|i: PingItem| i@)
}

/// The records read from the engine, one entry per record asked for: the
/// bytes of its fields, or `None` where the engine failed on one of them.
/// Decoding keeps the longest prefix whose records all read and decode.
pub open spec fn decoded_records(
    reads: Seq<Option<Seq<Seq<u8>>>>,
    codes: FamilyCodes,
    order: ByteOrder,
) -> Seq<PingItemView>
    decreases reads.len(),
{
    if reads.len() == 0 {
        Seq::empty()
    } else {
        let prev = decoded_records(reads.drop_last(), codes, order);
        let last = reads.last();
        if prev.len() + 1 == reads.len() && last is Some && record_value(
            last->Some_0,
            codes,
            order,
        ) is Some {
            prev.push(record_value(last->Some_0, codes, order)->Some_0)
        } else {
            prev
        }
    }
}

/// Appends the record that `read` holds to `results`, where the engine
/// answered every field, the fields decode, and fewer than `limit` records
/// are held; says whether it did. Otherwise `results` is left as it was.
pub fn push_record(
    results: &mut Vec<PingItem>,
    read: Option<Vec<Vec<u8>>>,
    codes: &FamilyCodes,
    order: ByteOrder,
    limit: usize,
) -> (more: bool)
    ensures
        more <==> (read matches Some(f) && old(results)@.len() < limit && record_value(
            field_bytes(f@),
            *codes,
            order,
        ) is Some),
        more ==> item_views(final(results)@) == item_views(old(results)@).push(
            record_value(field_bytes(read->Some_0@), *codes, order)->Some_0,
        ),
        !more ==> final(results)@ == old(results)@,
{
    let f = match read {
        Some(f) => f,
        None => return false,
    };
    if results.len() >= limit {
        return false;
    }
    match PingItem::from_fields(&f, codes, order) {
        Some(item) => {
            let ghost before = results@;
            results.push(item);
            proof {
                assert(item_views(results@) =~= item_views(before).push(item@));
            }
            true
        },
        None => false,
    }
}

impl PingItem {
    /// A copy of this record.
    pub fn duplicate(&self) -> (r: PingItem)
        ensures
            r@ == self@,
    {
        PingItem {
            hostname: self.hostname.clone(),
            address: self.address.clone(),
            family: self.family,
            latency_bits: self.latency_bits,
            dropped: self.dropped,
            seq: self.seq,
            recv_ttl: self.recv_ttl,
            recv_qos: self.recv_qos,
        }
    }

    /// Builds the record from the bytes the engine wrote for each of its
    /// fields, in reading order.
    pub fn from_fields(f: &Vec<Vec<u8>>, codes: &FamilyCodes, order: ByteOrder) -> (r: Option<
        PingItem,
    >)
        ensures
            r is Some == record_value(field_bytes(f@), *codes, order) is Some,
            r matches Some(item) ==> record_value(field_bytes(f@), *codes, order)
                == Some(item@),
    {
        let ghost fs = field_bytes(f@);
        if f.len() != RECORD_FIELDS {
            return None;
        }
        assert(fs[0] == f@[0]@ && fs[1] == f@[1]@ && fs[2] == f@[2]@ && fs[3] == f@[3]@);
        assert(fs[4] == f@[4]@ && fs[5] == f@[5]@ && fs[6] == f@[6]@ && fs[7] == f@[7]@);
        if f[2].len() < 4 || f[3].len() < 8 || f[4].len() < 4 || f[5].len() < 4 || f[6].len() < 4
            || f[7].len() < 1 {
            return None;
        }
        let hostname = match read_text(&f[0]) {
            Some(s) => s,
            None => return None,
        };
        let address = match read_text(&f[1]) {
            Some(s) => s,
            None => return None,
        };
        let family = codes.family_of(read_i32(&f[2], order));
        let latency_bits = read_u64(&f[3], order);
        let dropped = read_u32(&f[4], order);
        let seq = read_i32(&f[5], order);
        let recv_ttl = read_i32(&f[6], order);
        let recv_qos = f[7][0];
        let item = PingItem {
            hostname,
            address,
            family,
            latency_bits,
            dropped,
            seq,
            recv_ttl,
            recv_qos,
        };
        Some(item)
    }
}

} // verus!
