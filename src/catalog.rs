//! Message layouts read from a bus description, and their lookup by the
//! identifier of a frame.

use vstd::prelude::*;

verus! {

#[verifier::external_type_specification]
#[verifier::external_body]
pub struct ExDbc(can_dbc::DBC);

#[verifier::external_type_specification]
#[verifier::external_body]
pub struct ExMessage(can_dbc::Message);

#[verifier::external_type_specification]
#[verifier::external_body]
pub struct ExSignal(can_dbc::Signal);

#[verifier::external_type_specification]
#[verifier::external_body]
pub struct ExMessageId(can_dbc::MessageId);

/// Relies on `DBC::messages`: the messages of a parsed description.
pub assume_specification[ can_dbc::DBC::messages ](dbc: &can_dbc::DBC) -> &Vec<can_dbc::Message>;

/// Relies on `Message::message_id`: the identifier a message is declared with.
pub assume_specification[ can_dbc::Message::message_id ](m: &can_dbc::Message) -> &can_dbc::MessageId;

/// Relies on `MessageId::raw`: the identifier with bit 31 set for extended ones.
pub assume_specification[ can_dbc::MessageId::raw ](id: &can_dbc::MessageId) -> u32;

/// Relies on `Message::message_name`: the declared name of a message.
pub assume_specification[ can_dbc::Message::message_name ](m: &can_dbc::Message) -> &String;

/// Relies on `Message::signals`: the signals of a message in declaration order.
pub assume_specification[ can_dbc::Message::signals ](m: &can_dbc::Message) -> &Vec<can_dbc::Signal>;

/// Relies on `Signal::name`: the declared name of a signal.
pub assume_specification[ can_dbc::Signal::name ](s: &can_dbc::Signal) -> &String;

/// Relies on `Signal::start_bit`: the declared start bit of a signal.
pub assume_specification[ can_dbc::Signal::start_bit ](s: &can_dbc::Signal) -> &u64;

/// Relies on `Signal::signal_size`: the declared width of a signal, in bits.
pub assume_specification[ can_dbc::Signal::signal_size ](s: &can_dbc::Signal) -> &u64;

/// Byte order a signal is declared with.
#[derive(Clone, Copy, Debug, PartialEq, Eq, Structural)]
pub enum ByteOrder {
    LittleEndian,
    BigEndian,
}

/// Whether an integer signal is two's-complement signed.
#[derive(Clone, Copy, Debug, PartialEq, Eq, Structural)]
pub enum ValueType {
    Signed,
    Unsigned,
}

/// How the bits of a signal are to be read.
#[derive(Clone, Copy, Debug, PartialEq, Eq, Structural)]
pub enum ExtendedValueType {
    /// A plain integer, signed or not as its value type says.
    Integer,
    /// An IEEE-754 single.
    Float32,
    /// An IEEE-754 double.
    Float64,
}

/// Why a description could not be loaded.
#[derive(Clone, Copy, Debug, PartialEq, Eq, Structural)]
pub enum CatalogError {
    /// The description is not valid UTF-8.
    NotText,
    /// The description does not parse.
    Malformed,
}

/// Whether a text is a description that `DBC::from_slice` accepts.
pub uninterp spec fn description_parses(text: Seq<char>) -> bool;

/// The text that a byte sequence decodes to as UTF-8, if it is valid UTF-8.
pub uninterp spec fn utf8_decoding(bytes: Seq<u8>) -> Option<Seq<char>>;

/// The bytes are UTF-8 text that parses as a description.
pub open spec fn description_loads(bytes: Seq<u8>) -> bool {
    utf8_decoding(bytes) matches Some(t) && description_parses(t)
}

/// Relies on `DBC::from_slice`: the description parsed, or `None` where it
/// does not parse; the outcome depends on the text alone. The text is valid
/// UTF-8, so the call does not panic.
#[verifier::external_body]
fn parse_description(text: &str) -> (r: Option<can_dbc::DBC>)
    ensures
        r is Some <==> description_parses(text@),
{
    can_dbc::DBC::from_slice(text.as_bytes()).ok()
}

/// Relies on `Signal::byte_order`: the byte order a signal is declared with.
#[verifier::external_body]
fn signal_byte_order(s: &can_dbc::Signal) -> (r: ByteOrder) {
    match s.byte_order() {
        can_dbc::ByteOrder::LittleEndian => ByteOrder::LittleEndian,
        can_dbc::ByteOrder::BigEndian => ByteOrder::BigEndian,
    }
}

/// Relies on `Signal::value_type`: whether a signal is declared signed.
#[verifier::external_body]
fn signal_value_type(s: &can_dbc::Signal) -> (r: ValueType) {
    match s.value_type() {
        can_dbc::ValueType::Signed => ValueType::Signed,
        can_dbc::ValueType::Unsigned => ValueType::Unsigned,
    }
}

/// Relies on `DBC::extended_value_type_for_signal`: the annotation that the
/// description gives the named signal of a message, if it gives one.
#[verifier::external_body]
fn annotated_value_type(dbc: &can_dbc::DBC, id: &can_dbc::MessageId, name: &String) -> (r: Option<
    ExtendedValueType,
>) {
    match dbc.extended_value_type_for_signal(*id, name) {
        None => None,
        Some(can_dbc::SignalExtendedValueType::SignedOrUnsignedInteger) => Some(
            ExtendedValueType::Integer,
        ),
        Some(can_dbc::SignalExtendedValueType::IEEEfloat32Bit) => Some(ExtendedValueType::Float32),
        Some(can_dbc::SignalExtendedValueType::IEEEdouble64bit) => Some(ExtendedValueType::Float64),
    }
}

/// Relies on `std::str::from_utf8`: the text when the bytes are valid UTF-8.
#[verifier::external_body]
fn utf8_text(bytes: &[u8]) -> (r: Option<&str>)
    ensures
        match r {
            Some(t) => utf8_decoding(bytes@) == Some(t@),
            None => utf8_decoding(bytes@) is None,
        },
{
    std::str::from_utf8(bytes).ok()
}

/// One signal of a message: a named bit field of the payload.
#[derive(Debug)]
pub struct SignalDefinition {
    pub name: String,
    pub start_bit: u64,
    pub length: u64,
    pub byte_order: ByteOrder,
    pub value_type: ValueType,
    /// The type the description annotates the signal with, if any.
    pub annotation: Option<ExtendedValueType>,
}

pub ghost struct SignalView {
    pub name: Seq<char>,
    pub start_bit: u64,
    pub length: u64,
    pub byte_order: ByteOrder,
    pub value_type: ValueType,
    pub annotation: Option<ExtendedValueType>,
}

impl View for SignalDefinition {
    type V = SignalView;

    open spec fn view(&self) -> SignalView {
        SignalView {
            name: self.name@,
            start_bit: self.start_bit,
            length: self.length,
            byte_order: self.byte_order,
            value_type: self.value_type,
            annotation: self.annotation,
        }
    }
}

/// One message: the key it is found by, its name and its signals in
/// declaration order.
#[derive(Debug)]
pub struct MessageDefinition {
    /// The identifier, with bit 31 set for an extended one.
    pub key: u32,
    pub name: String,
    pub signals: Vec<SignalDefinition>,
}

pub ghost struct MessageView {
    pub key: u32,
    pub name: Seq<char>,
    pub signals: Seq<SignalView>,
}

impl View for MessageDefinition {
    type V = MessageView;

    open spec fn view(&self) -> MessageView {
        MessageView {
            key: self.key,
            name: self.name@,
            signals: self.signals@.map_values(|s: SignalDefinition| s@),
        }
    }
}

/// The messages of a loaded description.
#[derive(Debug)]
pub struct MessageCatalog {
    pub messages: Vec<MessageDefinition>,
}

impl View for MessageCatalog {
    type V = Seq<MessageView>;

    open spec fn view(&self) -> Seq<MessageView> {
        self.messages@.map_values(|m: MessageDefinition| m@)
    }
}

/// Bit that marks an extended identifier in a catalog key.
pub const EXTENDED_FLAG: u32 = 0x8000_0000;

/// The key a frame identifier is looked up by: the identifier, with bit 31
/// set when it is extended.
pub open spec fn catalog_key(id: u32, extended: bool) -> u32 {
    if extended {
        id | EXTENDED_FLAG
    } else {
        id
    }
}

/// The first message of `s` whose key is `key`.
pub open spec fn find_message(s: Seq<MessageView>, key: u32) -> Option<MessageView>
    decreases s.len(),
{
    if s.len() == 0 {
        None
    } else if s[0].key == key {
        Some(s[0])
    } else {
        find_message(s.drop_first(), key)
    }
}

/// The first signal of `s` named `name`.
pub open spec fn find_signal(s: Seq<SignalView>, name: Seq<char>) -> Option<SignalView>
    decreases s.len(),
{
    if s.len() == 0 {
        None
    } else if s[0].name == name {
        Some(s[0])
    } else {
        find_signal(s.drop_first(), name)
    }
}

/// The type a signal is read as: its annotation, or a plain integer where
/// the description gives none.
pub open spec fn value_type_or_integer(annotation: Option<ExtendedValueType>) -> ExtendedValueType {
    match annotation {
        Some(t) => t,
        None => ExtendedValueType::Integer,
    }
}

/// The catalog key of a frame identifier.
pub fn key_of(id: u32, extended: bool) -> (r: u32)
    ensures
        r == catalog_key(id, extended),
{
    if extended {
        id | EXTENDED_FLAG
    } else {
        id
    }
}

/// The type a signal is read as, given its annotation.
pub fn integer_unless(annotation: Option<ExtendedValueType>) -> (r: ExtendedValueType)
    ensures
        r == value_type_or_integer(annotation),
{
    match annotation {
        Some(t) => t,
        None => ExtendedValueType::Integer,
    }
}

/// The layout of one signal of a parsed description.
fn signal_definition(dbc: &can_dbc::DBC, id: &can_dbc::MessageId, s: &can_dbc::Signal) -> (r:
    SignalDefinition) {
    let name = s.name().clone();
    let annotation = annotated_value_type(dbc, id, &name);
    SignalDefinition {
        name,
        start_bit: *s.start_bit(),
        length: *s.signal_size(),
        byte_order: signal_byte_order(s),
        value_type: signal_value_type(s),
        annotation,
    }
}

/// The layout of one message of a parsed description.
fn message_definition(dbc: &can_dbc::DBC, m: &can_dbc::Message) -> MessageDefinition {
    let id = m.message_id();
    let declared = m.signals();
    let mut signals: Vec<SignalDefinition> = Vec::new();
    let mut i: usize = 0;
    while i < declared.len()
        invariant
            i <= declared@.len(),
        decreases declared@.len() - i,
    {
        signals.push(signal_definition(dbc, id, &declared[i]));
        i = i + 1;
    }
    MessageDefinition { key: id.raw(), name: m.message_name().clone(), signals }
}

impl MessageCatalog {
    /// A catalog with no messages.
    pub fn new() -> (r: MessageCatalog)
        ensures
            r@ == Seq::<MessageView>::empty(),
    {
        let r = MessageCatalog { messages: Vec::new() };
        assert(r@ =~= Seq::<MessageView>::empty());
        r
    }

    /// The messages of a parsed description, in the order it declares them,
    /// each signal with the annotation the description gives it.
    fn from_dbc(dbc: &can_dbc::DBC) -> (r: MessageCatalog) {
        let declared = dbc.messages();
        let mut messages: Vec<MessageDefinition> = Vec::new();
        let mut i: usize = 0;
        while i < declared.len()
            invariant
                i <= declared@.len(),
            decreases declared@.len() - i,
        {
            messages.push(message_definition(dbc, &declared[i]));
            i = i + 1;
        }
        MessageCatalog { messages }
    }

    /// Parses a description. Bytes that are not UTF-8 and text that does not
    /// parse are refused.
    pub fn parse(contents: &[u8]) -> (r: Result<MessageCatalog, CatalogError>)
        ensures
            r is Ok <==> description_loads(contents@),
            r == Err::<MessageCatalog, CatalogError>(CatalogError::NotText) <==> utf8_decoding(
                contents@,
            ) is None,
            r is Err ==> r == Err::<MessageCatalog, CatalogError>(CatalogError::NotText) || r
                == Err::<MessageCatalog, CatalogError>(CatalogError::Malformed),
    {
        let text = match utf8_text(contents) {
            Some(t) => t,
            None => return Err(CatalogError::NotText),
        };
        match parse_description(text) {
            Some(dbc) => Ok(MessageCatalog::from_dbc(&dbc)),
            None => Err(CatalogError::Malformed),
        }
    }

    /// The first message declared with the key of this frame identifier.
    pub fn lookup(&self, id: u32, extended: bool) -> (r: Option<&MessageDefinition>)
        ensures
            match find_message(self@, catalog_key(id, extended)) {
                Some(m) => r matches Some(d) && d@ == m,
                None => r is None,
            },
    {
        let key = key_of(id, extended);
        let n = self.messages.len();
        let mut i: usize = 0;
        assert(self@.subrange(0, n as int) =~= self@);
        while i < n
            invariant
                i <= n,
                n == self@.len(),
                key == catalog_key(id, extended),
                find_message(self@.subrange(i as int, n as int), key) == find_message(self@, key),
            decreases n - i,
        {
            assert(self@.subrange(i as int, n as int).drop_first() =~= self@.subrange(
                i + 1,
                n as int,
            ));
            assert(self@.subrange(i as int, n as int)[0] == self.messages@[i as int]@);
            if self.messages[i].key == key {
                return Some(&self.messages[i]);
            }
            i = i + 1;
        }
        None
    }

    /// How the named signal of the message with this identifier is read, or
    /// `None` where there is no such message or signal.
    pub fn extended_value_type(&self, id: u32, extended: bool, signal_name: &String) -> (r: Option<
        ExtendedValueType,
    >)
        ensures
            r == (match find_message(self@, catalog_key(id, extended)) {
                Some(m) => match find_signal(m.signals, signal_name@) {
                    Some(s) => Some(value_type_or_integer(s.annotation)),
                    None => None,
                },
                None => None,
            }),
    {
        let m = match self.lookup(id, extended) {
            Some(m) => m,
            None => return None,
        };
        let n = m.signals.len();
        let mut i: usize = 0;
        assert(m@.signals.subrange(0, n as int) =~= m@.signals);
        while i < n
            invariant
                i <= n,
                n == m@.signals.len(),
                n == m.signals@.len(),
                find_message(self@, catalog_key(id, extended)) == Some(m@),
                find_signal(m@.signals.subrange(i as int, n as int), signal_name@) == find_signal(
                    m@.signals,
                    signal_name@,
                ),
            decreases n - i,
        {
            assert(m@.signals.subrange(i as int, n as int).drop_first() =~= m@.signals.subrange(
                i + 1,
                n as int,
            ));
            assert(m@.signals.subrange(i as int, n as int)[0] == m.signals@[i as int]@);
            if m.signals[i].name == *signal_name {
                return Some(integer_unless(m.signals[i].annotation));
            }
            i = i + 1;
        }
        None
    }
}

} // verus!
