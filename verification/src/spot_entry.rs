//! The event decoder: it maps one raw price-submission event, a list of
//! 32-byte big-endian field values, into a price record, or rejects
//! malformed input.
use vstd::prelude::*;

use crate::numeric::{all_dec_digits, dec_repr};
use crate::text::push_ascii_bytes;

verus! {

/// The big-endian numeric value of a byte sequence.
pub open spec fn be_val(b: Seq<u8>) -> int
    decreases b.len(),
{
    if b.len() == 0 {
        0
    } else {
        be_val(b.drop_last()) * 256 + b.last()
    }
}

/// The big-endian bytes of `n` with no leading zero byte; empty for zero.
pub open spec fn be_bytes(n: nat) -> Seq<u8>
    decreases n,
{
    if n == 0 {
        Seq::empty()
    } else {
        be_bytes(n / 256).push((n % 256) as u8)
    }
}

/// The shortest big-endian byte form of `n`, a single zero byte for zero.
pub open spec fn min_be_bytes(n: nat) -> Seq<u8> {
    if n == 0 {
        seq![0u8]
    } else {
        be_bytes(n)
    }
}

/// The prime of the Stark field: field values lie below it.
pub open spec fn stark_prime() -> int {
    0x800000000000011000000000000000000000000000000000000000000000001int
}

/// The decimal text of the field element read from the 32 bytes `b`;
/// a function of the bytes alone.
pub uninterp spec fn felt_decimal_of(b: Seq<u8>) -> Seq<char>;

/// The shortest big-endian bytes of the field element read from the 32
/// bytes `b`; a function of the bytes alone.
pub uninterp spec fn felt_magnitude_of(b: Seq<u8>) -> Seq<u8>;

/// Relies on `starknet_core::types::Felt::from_bytes_be` (a big-endian
/// read, reduced into the Stark field), `Felt::to_bigint`, and the
/// decimal `Display` of `num_bigint::BigInt`: for in-field values the
/// result is the canonical decimal text of the big-endian value.
#[verifier::external_body]
pub(crate) fn field_to_decimal(b: &Vec<u8>) -> (r: String)
    requires
        b@.len() == 32,
    ensures
        r@ == felt_decimal_of(b@),
        r@.len() >= 1,
        all_dec_digits(r@),
        be_val(b@) < stark_prime() ==> r@ == dec_repr(be_val(b@) as nat),
{
    let array: [u8; 32] = b.as_slice().try_into().unwrap();
    starknet_core::types::Felt::from_bytes_be(&array).to_bigint().to_string()
}

/// Relies on `starknet_core::types::Felt::from_bytes_be`,
/// `Felt::to_bigint` and `num_bigint::BigInt::to_bytes_be`: for
/// in-field values the result is the shortest big-endian byte form of
/// the big-endian value (a single zero byte for zero).
#[verifier::external_body]
pub(crate) fn field_to_magnitude(b: &Vec<u8>) -> (r: Vec<u8>)
    requires
        b@.len() == 32,
    ensures
        r@ == felt_magnitude_of(b@),
        1 <= r@.len() <= 32,
        be_val(b@) < stark_prime() ==> r@ == min_be_bytes(be_val(b@) as nat),
{
    let array: [u8; 32] = b.as_slice().try_into().unwrap();
    let (_, bytes) = starknet_core::types::Felt::from_bytes_be(&array).to_bigint().to_bytes_be();
    bytes
}

/// `b` with every non-ASCII byte removed.
pub open spec fn ascii_filter(b: Seq<u8>) -> Seq<u8>
    decreases b.len(),
{
    if b.len() == 0 {
        Seq::empty()
    } else if b.last() < 128 {
        ascii_filter(b.drop_last()).push(b.last())
    } else {
        ascii_filter(b.drop_last())
    }
}

/// The characters of a sequence of ASCII bytes, one per byte.
pub open spec fn bytes_to_chars(b: Seq<u8>) -> Seq<char> {
    Seq::new(b.len(), |i: int| b[i] as char)
}

/// Every byte that the ASCII filter keeps is ASCII.
pub proof fn lemma_ascii_filter_ascii(b: Seq<u8>)
    ensures
        forall|i: int| 0 <= i < ascii_filter(b).len() ==> #[trigger] ascii_filter(b)[i] < 128,
        ascii_filter(b).len() <= b.len(),
    decreases b.len(),
{
    if b.len() > 0 {
        lemma_ascii_filter_ascii(b.drop_last());
    }
}

/// Keeps only the ASCII bytes of `bytes`, in order.
fn filter_ascii(bytes: &Vec<u8>) -> (r: Vec<u8>)
    ensures
        r@ == ascii_filter(bytes@),
        forall|i: int| 0 <= i < r@.len() ==> #[trigger] r@[i] < 128,
{
    let mut r: Vec<u8> = Vec::new();
    let mut i: usize = 0;
    while i < bytes.len()
        invariant
            i <= bytes@.len(),
            r@ == ascii_filter(bytes@.take(i as int)),
        decreases bytes@.len() - i,
    {
        let b = bytes[i];
        proof {
            assert(bytes@.take(i + 1).drop_last() =~= bytes@.take(i as int));
            assert(bytes@.take(i + 1).last() == bytes@[i as int]);
        }
        if b < 128 {
            r.push(b);
        }
        i = i + 1;
    }
    proof {
        assert(bytes@.take(bytes@.len() as int) =~= bytes@);
        lemma_ascii_filter_ascii(bytes@);
    }
    r
}

/// The text read from a numeric field: its shortest big-endian bytes,
/// non-ASCII bytes dropped, each remaining byte one character.
pub open spec fn ascii_text_of_field(b: Seq<u8>) -> Seq<char> {
    bytes_to_chars(ascii_filter(felt_magnitude_of(b)))
}

/// One observed price, decoded from one on-chain submission event.
///
/// Numeric amounts are carried as canonical decimal text to avoid
/// precision loss; `source`, `publisher` and `pair_id` are short ASCII
/// identifiers read out of fixed-width numeric fields.
#[derive(Debug, PartialEq, Eq)]
pub struct SpotEntry {
    pub timestamp: String,
    pub source: String,
    pub publisher: String,
    pub price: String,
    pub pair_id: String,
    pub volume: String,
    pub block_number: u64,
}

/// The mathematical content of a price record.
pub struct SpotEntryView {
    pub timestamp: Seq<char>,
    pub source: Seq<char>,
    pub publisher: Seq<char>,
    pub price: Seq<char>,
    pub pair_id: Seq<char>,
    pub volume: Seq<char>,
    pub block_number: u64,
}

impl View for SpotEntry {
    type V = SpotEntryView;

    open spec fn view(&self) -> SpotEntryView {
        SpotEntryView {
            timestamp: self.timestamp@,
            source: self.source@,
            publisher: self.publisher@,
            price: self.price@,
            pair_id: self.pair_id@,
            volume: self.volume@,
            block_number: self.block_number,
        }
    }
}

/// One raw event from the stream: the sender address, when the event
/// carries one, and the ordered data fields, each a 32-byte big-endian
/// field value.
pub struct RawEvent {
    pub from_address: Option<Vec<u8>>,
    pub data: Vec<Vec<u8>>,
}

impl RawEvent {
    /// Every data field is a full 32-byte field value, as the stream
    /// delivers them.
    pub open spec fn wf(&self) -> bool {
        forall|i: int| 0 <= i < self.data@.len() ==> (#[trigger] self.data@[i])@.len() == 32
    }
}

/// What decoding an event means: fewer than six fields decode to
/// nothing; otherwise fields 0, 3 and 5 are read as decimal amounts and
/// fields 1, 2 and 4 as ASCII identifiers.
pub open spec fn decode_event(data: Seq<Seq<u8>>, block_number: u64) -> Option<SpotEntryView> {
    if data.len() < 6 {
        None
    } else {
        Some(
            SpotEntryView {
                timestamp: felt_decimal_of(data[0]),
                source: ascii_text_of_field(data[1]),
                publisher: ascii_text_of_field(data[2]),
                price: felt_decimal_of(data[3]),
                pair_id: ascii_text_of_field(data[4]),
                volume: felt_decimal_of(data[5]),
                block_number,
            },
        )
    }
}

impl SpotEntry {
    /// Decodes one raw event observed in block `block_number`. Returns
    /// no record exactly when the sender address is absent or the event
    /// carries fewer than six data fields; a partial event is dropped,
    /// never partially decoded.
    pub fn from_event(event: &RawEvent, block_number: u64) -> (r: Option<SpotEntry>)
        requires
            event.wf(),
        ensures
            r is Some <==> (event.from_address is Some && event.data@.len() >= 6),
            match r {
                Some(entry) => Some(entry@) == decode_event(
                    event.data@.map_values(|f: Vec<u8>| f@),
                    block_number,
                ),
                None => event.from_address is None || event.data@.len() < 6,
            },
    {
        if event.from_address.is_none() || event.data.len() < 6 {
            return None;
        }
        let timestamp = field_to_decimal(&event.data[0]);
        let source = Self::field_text(&event.data[1]);
        let publisher = Self::field_text(&event.data[2]);
        let price = field_to_decimal(&event.data[3]);
        let pair_id = Self::field_text(&event.data[4]);
        let volume = field_to_decimal(&event.data[5]);
        let entry = SpotEntry { timestamp, source, publisher, price, pair_id, volume, block_number };
        proof {
            let fields = event.data@.map_values(|f: Vec<u8>| f@);
            assert(fields[0] == event.data@[0]@);
            assert(fields[1] == event.data@[1]@);
            assert(fields[2] == event.data@[2]@);
            assert(fields[3] == event.data@[3]@);
            assert(fields[4] == event.data@[4]@);
            assert(fields[5] == event.data@[5]@);
        }
        Some(entry)
    }

    /// Reads an ASCII identifier out of one numeric field.
    fn field_text(field: &Vec<u8>) -> (r: String)
        requires
            field@.len() == 32,
        ensures
            r@ == ascii_text_of_field(field@),
    {
        let magnitude = field_to_magnitude(field);
        let filtered = filter_ascii(&magnitude);
        let mut r = String::new();
        push_ascii_bytes(&mut r, &filtered);
        proof {
            assert(r@ =~= bytes_to_chars(ascii_filter(felt_magnitude_of(field@))));
        }
        r
    }

    /// A field-by-field copy with the same content.
    pub fn duplicate(&self) -> (r: SpotEntry)
        ensures
            r@ == self@,
    {
        SpotEntry {
            timestamp: self.timestamp.clone(),
            source: self.source.clone(),
            publisher: self.publisher.clone(),
            price: self.price.clone(),
            pair_id: self.pair_id.clone(),
            volume: self.volume.clone(),
            block_number: self.block_number,
        }
    }

    /// The key this record is persisted under: a stable `spot:` prefix
    /// followed by the trading-pair identifier, so external tooling can
    /// inspect state directly.
    pub fn redis_key(&self) -> (r: String)
        ensures
            r@ == spec_redis_key(self.pair_id@),
    {
        let mut r = "spot:".to_owned();
        r.append(self.pair_id.as_str());
        proof {
            reveal_strlit("spot:");
            assert(("spot:")@ =~= seq!['s', 'p', 'o', 't', ':']);
        }
        r
    }
}

/// The persisted key for a trading pair.
pub open spec fn spec_redis_key(pair_id: Seq<char>) -> Seq<char> {
    seq!['s', 'p', 'o', 't', ':'] + pair_id
}

/// Decoding is deterministic: equal raw fields and an equal block
/// number always decode to the same record.
pub proof fn lemma_decode_deterministic(
    data1: Seq<Seq<u8>>,
    data2: Seq<Seq<u8>>,
    block_number: u64,
)
    requires
        data1 == data2,
    ensures
        decode_event(data1, block_number) == decode_event(data2, block_number),
{
}

} // verus!
