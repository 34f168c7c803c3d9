//! Turning table entries into named, decoded records, with or without a
//! loaded catalog.

use crate::catalog::{
    catalog_key, description_loads, find_message, integer_unless, key_of, value_type_or_integer,
    ByteOrder, ExtendedValueType,
    MessageCatalog, MessageDefinition, MessageView, SignalDefinition, SignalView, ValueType,
};
use crate::codec::{
    extract_signed, extract_unsigned, float32_bits, float32_field, float64_bits, reverse_all,
    reverse_bit_order, signed_field, unsigned_field, CodecError,
};
use crate::frame::{copy_bytes, Frame};
use crate::table::{EntryView, FrameTable, Frequency, TableEntry};
use vstd::prelude::*;

verus! {

/// Why a description could not be loaded.
#[derive(Clone, Copy, Debug, PartialEq, Eq, Structural)]
pub enum Error {
    /// The description is not text, or does not parse.
    CanDbc,
}

/// The value of one field of a decoded record.
#[derive(Clone, Copy, Debug, PartialEq, Eq, Structural)]
pub enum FieldValue {
    /// A raw payload byte of a frame that the catalog does not describe.
    Byte(u8),
    Unsigned(u64),
    Signed(i64),
    /// The bit pattern of an IEEE-754 single.
    Float32Bits(u32),
    /// The bit pattern of an IEEE-754 double.
    Float64Bits(u64),
    /// The signal could not be read from this payload.
    Invalid(CodecError),
}

/// One field of a record: a signal name (empty for a raw byte) and a value.
#[derive(Debug)]
pub struct DecodedField {
    pub name: String,
    pub value: FieldValue,
}

pub ghost struct FieldView {
    pub name: Seq<char>,
    pub value: FieldValue,
}

impl View for DecodedField {
    type V = FieldView;

    open spec fn view(&self) -> FieldView {
        FieldView { name: self.name@, value: self.value }
    }
}

/// What is known of one identifier, decoded.
#[derive(Debug)]
pub struct DecodedRecord {
    /// Arrival time of the frame, in microseconds.
    pub timestamp_us: u128,
    pub frequency: Frequency,
    pub id: u32,
    /// Name of the message; empty when the catalog does not describe it.
    pub name: String,
    pub fields: Vec<DecodedField>,
    /// Whether the frame used an extended identifier.
    pub extended: bool,
}

pub ghost struct RecordView {
    pub timestamp_us: u128,
    pub frequency: Frequency,
    pub id: u32,
    pub name: Seq<char>,
    pub fields: Seq<FieldView>,
    pub extended: bool,
}

impl View for DecodedRecord {
    type V = RecordView;

    open spec fn view(&self) -> RecordView {
        RecordView {
            timestamp_us: self.timestamp_us,
            frequency: self.frequency,
            id: self.id,
            name: self.name@,
            fields: self.fields@.map_values(|f: DecodedField| f@),
            extended: self.extended,
        }
    }
}

/// The payload in the little-endian convention the signal is read in.
pub open spec fn signal_bytes(sig: SignalView, payload: Seq<u8>) -> Seq<u8> {
    if sig.byte_order == ByteOrder::BigEndian {
        reverse_all(payload)
    } else {
        payload
    }
}

/// The value of a signal in a payload, or the reason it cannot be read.
pub open spec fn signal_value(sig: SignalView, payload: Seq<u8>) -> FieldValue {
    let bytes = signal_bytes(sig, payload);
    match value_type_or_integer(sig.annotation) {
        ExtendedValueType::Integer => match sig.value_type {
            ValueType::Signed => match signed_field(bytes, sig.start_bit, sig.length) {
                Ok(v) => FieldValue::Signed(v),
                Err(e) => FieldValue::Invalid(e),
            },
            ValueType::Unsigned => match unsigned_field(bytes, sig.start_bit, sig.length) {
                Ok(v) => FieldValue::Unsigned(v),
                Err(e) => FieldValue::Invalid(e),
            },
        },
        ExtendedValueType::Float32 => match float32_field(bytes, sig.start_bit) {
            Ok(v) => FieldValue::Float32Bits(v),
            Err(e) => FieldValue::Invalid(e),
        },
        ExtendedValueType::Float64 => match unsigned_field(bytes, sig.start_bit, 64) {
            Ok(v) => FieldValue::Float64Bits(v),
            Err(e) => FieldValue::Invalid(e),
        },
    }
}

/// The fields of a described frame: each signal in declaration order.
pub open spec fn signal_fields(signals: Seq<SignalView>, payload: Seq<u8>) -> Seq<FieldView> {
    signals.map_values(|s: SignalView| FieldView { name: s.name, value: signal_value(s, payload) })
}

/// The fields of a frame the catalog does not describe: one per payload byte.
pub open spec fn byte_fields(payload: Seq<u8>) -> Seq<FieldView> {
    payload.map_values(|b: u8| FieldView { name: Seq::empty(), value: FieldValue::Byte(b) })
}

/// The record of an entry, given the catalog if one is loaded.
pub open spec fn decoded(e: EntryView, catalog: Option<Seq<MessageView>>) -> RecordView {
    let found = match catalog {
        Some(c) => find_message(c, catalog_key(e.frame.id, e.frame.extended)),
        None => None,
    };
    match found {
        Some(m) => RecordView {
            timestamp_us: e.last_arrival_us,
            frequency: e.frequency,
            id: e.frame.id,
            name: m.name,
            fields: signal_fields(m.signals, e.frame.data),
            extended: e.frame.extended,
        },
        None => RecordView {
            timestamp_us: e.last_arrival_us,
            frequency: e.frequency,
            id: e.frame.id,
            name: Seq::empty(),
            fields: byte_fields(e.frame.data),
            extended: e.frame.extended,
        },
    }
}

/// A frame that no loaded message describes decodes to a record with an
/// empty name and one raw field per payload byte, in payload order.
pub proof fn lemma_unmatched_frame_is_raw(e: EntryView, catalog: Option<Seq<MessageView>>)
    requires
        catalog matches Some(c) ==> find_message(c, catalog_key(e.frame.id, e.frame.extended))
            is None,
    ensures
        decoded(e, catalog).name == Seq::<char>::empty(),
        decoded(e, catalog).fields.len() == e.frame.data.len(),
        forall|i: int|
            0 <= i < e.frame.data.len() ==> #[trigger] decoded(e, catalog).fields[i] == (FieldView {
                name: Seq::empty(),
                value: FieldValue::Byte(e.frame.data[i]),
            }),
{
}

/// A signal that the description does not annotate reads exactly as one
/// annotated as a plain integer.
pub proof fn lemma_missing_annotation_reads_as_integer(sig: SignalView, payload: Seq<u8>)
    requires
        sig.annotation is None,
    ensures
        signal_value(sig, payload) == signal_value(
            SignalView { annotation: Some(ExtendedValueType::Integer), ..sig },
            payload,
        ),
{
}

/// The catalog key a frame is looked up by.
pub fn get_message_id(frame: &Frame) -> (r: u32)
    ensures
        r == catalog_key(frame.id, frame.extended),
{
    key_of(frame.id, frame.extended)
}

/// Reads one signal from a payload.
pub fn decode_signal(sig: &SignalDefinition, payload: &[u8]) -> (r: FieldValue)
    ensures
        r == signal_value(sig@, payload@),
{
    let mut bytes = copy_bytes(payload);
    if sig.byte_order == ByteOrder::BigEndian {
        reverse_bit_order(&mut bytes);
    }
    let b = bytes.as_slice();
    match integer_unless(sig.annotation) {
        ExtendedValueType::Integer => match sig.value_type {
            ValueType::Signed => match extract_signed(b, sig.start_bit, sig.length) {
                Ok(v) => FieldValue::Signed(v),
                Err(e) => FieldValue::Invalid(e),
            },
            ValueType::Unsigned => match extract_unsigned(b, sig.start_bit, sig.length) {
                Ok(v) => FieldValue::Unsigned(v),
                Err(e) => FieldValue::Invalid(e),
            },
        },
        ExtendedValueType::Float32 => match float32_bits(b, sig.start_bit) {
            Ok(v) => FieldValue::Float32Bits(v),
            Err(e) => FieldValue::Invalid(e),
        },
        ExtendedValueType::Float64 => match float64_bits(b, sig.start_bit) {
            Ok(v) => FieldValue::Float64Bits(v),
            Err(e) => FieldValue::Invalid(e),
        },
    }
}

/// The fields of a frame that `message` describes.
pub fn deserialise_dbc_data(message: &MessageDefinition, frame: &Frame) -> (r: Vec<DecodedField>)
    ensures
        r@.map_values(|f: DecodedField| f@) == signal_fields(message@.signals, frame.data@),
{
    let mut fields: Vec<DecodedField> = Vec::new();
    let n = message.signals.len();
    let mut i: usize = 0;
    while i < n
        invariant
            i <= n,
            n == message.signals@.len(),
            fields@.map_values(|f: DecodedField| f@) == signal_fields(
                message@.signals,
                frame.data@,
            ).subrange(0, i as int),
        decreases n - i,
    {
        let sig = &message.signals[i];
        let value = decode_signal(sig, frame.data.as_slice());
        let field = DecodedField { name: sig.name.clone(), value };
        assert(field@ == signal_fields(message@.signals, frame.data@)[i as int]);
        let ghost before = fields@;
        fields.push(field);
        assert(fields@.map_values(|f: DecodedField| f@) =~= before.map_values(
            |f: DecodedField| f@,
        ).push(field@));
        i = i + 1;
        assert(fields@.map_values(|f: DecodedField| f@) =~= signal_fields(
            message@.signals,
            frame.data@,
        ).subrange(0, i as int));
    }
    assert(signal_fields(message@.signals, frame.data@).subrange(0, n as int) =~= signal_fields(
        message@.signals,
        frame.data@,
    ));
    fields
}

/// The fields of a frame the catalog does not describe.
pub fn deserialise_unknown_data(frame: &Frame) -> (r: Vec<DecodedField>)
    ensures
        r@.map_values(|f: DecodedField| f@) == byte_fields(frame.data@),
{
    let mut fields: Vec<DecodedField> = Vec::new();
    let n = frame.data.len();
    let mut i: usize = 0;
    while i < n
        invariant
            i <= n,
            n == frame.data@.len(),
            fields@.map_values(|f: DecodedField| f@) == byte_fields(frame.data@).subrange(
                0,
                i as int,
            ),
        decreases n - i,
    {
        let field = DecodedField { name: String::new(), value: FieldValue::Byte(frame.data[i]) };
        assert(field@ == byte_fields(frame.data@)[i as int]);
        let ghost before = fields@;
        fields.push(field);
        assert(fields@.map_values(|f: DecodedField| f@) =~= before.map_values(
            |f: DecodedField| f@,
        ).push(field@));
        i = i + 1;
        assert(fields@.map_values(|f: DecodedField| f@) =~= byte_fields(frame.data@).subrange(
            0,
            i as int,
        ));
    }
    assert(byte_fields(frame.data@).subrange(0, n as int) =~= byte_fields(frame.data@));
    fields
}

/// Decodes table entries, with the catalog of a loaded description if there
/// is one.
#[derive(Debug)]
pub struct CanParser {
    pub catalog: Option<MessageCatalog>,
}

impl View for CanParser {
    type V = Option<Seq<MessageView>>;

    open spec fn view(&self) -> Option<Seq<MessageView>> {
        match self.catalog {
            Some(c) => Some(c@),
            None => None,
        }
    }
}

impl CanParser {
    /// A parser with no catalog.
    pub fn new() -> (r: CanParser)
        ensures
            r@ is None,
    {
        CanParser { catalog: None }
    }

    /// Loads a description, replacing the catalog in one step. On failure
    /// the catalog is left as it was.
    pub fn open_dbc(&mut self, contents: &[u8]) -> (r: Result<(), Error>)
        ensures
            r is Ok <==> description_loads(contents@),
            r is Ok ==> final(self)@ is Some,
            r is Err ==> r == Err::<(), Error>(Error::CanDbc) && final(self)@ == old(self)@,
    {
        match MessageCatalog::parse(contents) {
            Ok(catalog) => {
                self.catalog = Some(catalog);
                Ok(())
            },
            Err(_) => Err(Error::CanDbc),
        }
    }

    /// Drops the catalog, if one is loaded.
    pub fn clear_dbc(&mut self)
        ensures
            final(self)@ is None,
    {
        self.catalog = None;
    }

    /// The record of one table entry.
    pub fn parse_can_entry(&self, entry: &TableEntry) -> (r: DecodedRecord)
        ensures
            r@ == decoded(entry@, self@),
    {
        let frame = &entry.frame;
        let found = match &self.catalog {
            Some(c) => c.lookup(frame.id, frame.extended),
            None => None,
        };
        let (name, fields) = match found {
            Some(m) => (m.name.clone(), deserialise_dbc_data(m, frame)),
            None => (String::new(), deserialise_unknown_data(frame)),
        };
        DecodedRecord {
            timestamp_us: entry.last_arrival_us,
            frequency: entry.frequency,
            id: frame.id,
            name,
            fields,
            extended: frame.extended,
        }
    }

    /// The records of every table entry, in table order.
    pub fn parse_can_table(&self, table: &FrameTable) -> (r: Vec<DecodedRecord>)
        ensures
            r@.len() == table@.len(),
            forall|i: int| 0 <= i < r@.len() ==> (#[trigger] r@[i])@ == decoded(table@[i], self@),
    {
        let mut records: Vec<DecodedRecord> = Vec::new();
        let n = table.entries.len();
        let mut i: usize = 0;
        while i < n
            invariant
                i <= n,
                n == table@.len(),
                records@.len() == i,
                forall|j: int| 0 <= j < i ==> (#[trigger] records@[j])@ == decoded(table@[j], self@),
            decreases n - i,
        {
            records.push(self.parse_can_entry(&table.entries[i]));
            i = i + 1;
        }
        records
    }
}

} // verus!
