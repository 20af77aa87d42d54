//! AMF values, and the AMF0 codec of the `flash-lso` crate behind a pair of
//! functions on bytes.

pub mod number;

use crate::errors::Error;
use crate::utils::bytes::RTMPResult;
use flash_lso::amf0::read::AMF0Decoder;
use flash_lso::packet::write::write_to_bytes;
use flash_lso::packet::{Message, Packet};
use flash_lso::types::{
    AMFVersion, ClassDefinition, ECMAArrayObjectValue, Element, ObjectId, ObjectValue, Reference,
    Value,
};
use vstd::prelude::*;
use vstd::slice::slice_subrange;

verus! {

/// A value as `flash-lso` holds it. The client keeps such a value only
/// for what AMF3 has put into an AMF0 stream, and never looks inside.
#[verifier::external_type_specification]
#[verifier::external_body]
pub struct ExValue(Value);

/// A reference to an earlier value of a stream as `flash-lso` holds it.
/// The client carries it through and never looks inside.
#[verifier::external_type_specification]
#[verifier::external_body]
pub struct ExReference(flash_lso::types::Reference);

/// A named member of an object as `flash-lso` holds it. It only passes
/// between the functions that turn the crate's values into the client's
/// own and back.
#[verifier::external_type_specification]
#[verifier::external_body]
pub struct ExElement(Element);

/// A named member of an AMF object.
#[derive(Debug, PartialEq)]
pub struct AmfProperty {
    pub name: String,
    pub value: AmfValue,
}

/// An AMF0 value. A number is held as the 64 bits of its IEEE 754 double.
#[derive(Debug, PartialEq)]
pub enum AmfValue {
    Number(u64),
    Bool(bool),
    String(String),
    Object(Vec<AmfProperty>),
    Null,
    Undefined,
    StrictArray(Vec<AmfValue>),
    /// An object that names its class.
    TypedObject { class_name: String, properties: Vec<AmfProperty> },
    /// An ECMA array: the length it declares, its items by place, and its
    /// items by name.
    EcmaArray { length: u32, dense: Vec<AmfValue>, properties: Vec<AmfProperty> },
    /// A date: the bits of the double that counts the milliseconds, and
    /// the time zone.
    Date { time: u64, timezone: Option<u16> },
    /// An XML document.
    Xml { value: String, is_string: bool },
    /// What the sender could not encode.
    Unsupported,
    /// A reference to an earlier value of the stream.
    Reference(Reference),
    /// An AMF3 value inside the AMF0 stream. It is carried through as it
    /// was read; the client does not encode it.
    Amf3(Value),
}

/// An AMF value, its strings and lists as sequences.
pub enum AmfValueView {
    Number(u64),
    Bool(bool),
    String(Seq<char>),
    Object(Seq<(Seq<char>, AmfValueView)>),
    Null,
    Undefined,
    StrictArray(Seq<AmfValueView>),
    TypedObject { class_name: Seq<char>, properties: Seq<(Seq<char>, AmfValueView)> },
    EcmaArray {
        length: u32,
        dense: Seq<AmfValueView>,
        properties: Seq<(Seq<char>, AmfValueView)>,
    },
    Date { time: u64, timezone: Option<u16> },
    Xml { value: Seq<char>, is_string: bool },
    Unsupported,
    Reference(Reference),
    Amf3(Value),
}

impl View for AmfProperty {
    type V = (Seq<char>, AmfValueView);

    open spec fn view(&self) -> (Seq<char>, AmfValueView)
        decreases self,
    {
        (self.name@, self.value.view())
    }
}

/// The views of the properties of a list, one by one.
pub open spec fn spec_property_views(properties: Vec<AmfProperty>) -> Seq<
    (Seq<char>, AmfValueView),
>
    decreases properties,
{
    Seq::new(
        properties@.len(),
        |i: int|
            if 0 <= i < properties@.len() {
                properties@[i].view()
            } else {
                (Seq::empty(), AmfValueView::Null)
            },
    )
}

/// The views of the values of a list, one by one.
pub open spec fn spec_item_views(items: Vec<AmfValue>) -> Seq<AmfValueView>
    decreases items,
{
    Seq::new(
        items@.len(),
        |i: int|
            if 0 <= i < items@.len() {
                items@[i].view()
            } else {
                AmfValueView::Null
            },
    )
}

impl View for AmfValue {
    type V = AmfValueView;

    open spec fn view(&self) -> AmfValueView
        decreases self,
    {
        match self {
            AmfValue::Number(bits) => AmfValueView::Number(*bits),
            AmfValue::Bool(b) => AmfValueView::Bool(*b),
            AmfValue::String(s) => AmfValueView::String(s@),
            AmfValue::Object(properties) => AmfValueView::Object(
                spec_property_views(*properties),
            ),
            AmfValue::Null => AmfValueView::Null,
            AmfValue::Undefined => AmfValueView::Undefined,
            AmfValue::StrictArray(items) => AmfValueView::StrictArray(spec_item_views(*items)),
            AmfValue::TypedObject { class_name, properties } => AmfValueView::TypedObject {
                class_name: class_name@,
                properties: spec_property_views(*properties),
            },
            AmfValue::EcmaArray { length, dense, properties } => AmfValueView::EcmaArray {
                length: *length,
                dense: spec_item_views(*dense),
                properties: spec_property_views(*properties),
            },
            AmfValue::Date { time, timezone } => AmfValueView::Date {
                time: *time,
                timezone: *timezone,
            },
            AmfValue::Xml { value, is_string } => AmfValueView::Xml {
                value: value@,
                is_string: *is_string,
            },
            AmfValue::Unsupported => AmfValueView::Unsupported,
            AmfValue::Reference(r) => AmfValueView::Reference(*r),
            AmfValue::Amf3(v) => AmfValueView::Amf3(*v),
        }
    }
}

/// Whether the client encodes a value: it does unless the value is, or
/// holds at any depth, an AMF3 value.
pub open spec fn spec_encodable(value: AmfValueView) -> bool
    decreases value,
{
    match value {
        AmfValueView::Amf3(_) => false,
        AmfValueView::Object(properties) => spec_all_encodable(properties),
        AmfValueView::StrictArray(items) => spec_list_encodable(items),
        AmfValueView::TypedObject { properties, .. } => spec_all_encodable(properties),
        AmfValueView::EcmaArray { dense, properties, .. } => spec_list_encodable(dense)
            && spec_all_encodable(properties),
        _ => true,
    }
}

/// Whether the client encodes every value of a list.
pub open spec fn spec_list_encodable(items: Seq<AmfValueView>) -> bool
    decreases items,
{
    forall|i: int| 0 <= i < items.len() ==> spec_encodable(#[trigger] items[i])
}

/// Whether the client encodes the value of every property of a list.
pub open spec fn spec_all_encodable(properties: Seq<(Seq<char>, AmfValueView)>) -> bool
    decreases properties,
{
    forall|i: int| 0 <= i < properties.len() ==> spec_encodable((#[trigger] properties[i]).1)
}

/// `flash_lso::types::Value` derives `Clone`: the copy is the same value.
pub assume_specification[ <Value as Clone>::clone ](value: &Value) -> (r: Value)
    ensures
        r == *value,
;

impl Clone for AmfProperty {
    fn clone(&self) -> (r: Self)
        ensures
            r@ == self@,
        decreases self,
    {
        AmfProperty { name: self.name.clone(), value: self.value.clone() }
    }
}

impl AmfProperty {
    /// Copies a list of properties.
    #[verifier::loop_isolation(false)]
    pub fn clone_list(properties: &Vec<AmfProperty>) -> (r: Vec<AmfProperty>)
        ensures
            spec_property_views(r) == spec_property_views(*properties),
        decreases properties,
    {
        let mut copy: Vec<AmfProperty> = Vec::new();
        let mut i: usize = 0;
        while i < properties.len()
            invariant
                i <= properties@.len(),
                copy@.len() == i,
                forall|j: int| 0 <= j < i ==> copy@[j]@ == properties@[j]@,
            decreases properties@.len() - i,
        {
            assert(decreases_to!(*properties => properties[i as int]));
            copy.push(properties[i].clone());
            i += 1;
        }
        assert(spec_property_views(copy) =~= spec_property_views(*properties));
        copy
    }

    /// Whether the client encodes the value of every property of a list.
    #[verifier::loop_isolation(false)]
    pub fn all_encodable(properties: &Vec<AmfProperty>) -> (r: bool)
        ensures
            r == spec_all_encodable(spec_property_views(*properties)),
        decreases properties,
    {
        let mut i: usize = 0;
        while i < properties.len()
            invariant
                i <= properties@.len(),
                forall|j: int|
                    0 <= j < i
                        ==> spec_encodable((#[trigger] spec_property_views(*properties)[j]).1),
            decreases properties@.len() - i,
        {
            assert(decreases_to!(*properties => properties[i as int]));
            if !properties[i].value.is_encodable() {
                assert(!spec_encodable(spec_property_views(*properties)[i as int].1));
                return false;
            }
            i += 1;
        }
        true
    }
}

impl Clone for AmfValue {
    fn clone(&self) -> (r: Self)
        ensures
            r@ == self@,
        decreases self,
    {
        match self {
            AmfValue::Number(bits) => AmfValue::Number(*bits),
            AmfValue::Bool(b) => AmfValue::Bool(*b),
            AmfValue::String(s) => AmfValue::String(s.clone()),
            AmfValue::Object(properties) => AmfValue::Object(AmfProperty::clone_list(properties)),
            AmfValue::Null => AmfValue::Null,
            AmfValue::Undefined => AmfValue::Undefined,
            AmfValue::StrictArray(items) => AmfValue::StrictArray(AmfValue::clone_list(items)),
            AmfValue::TypedObject { class_name, properties } => AmfValue::TypedObject {
                class_name: class_name.clone(),
                properties: AmfProperty::clone_list(properties),
            },
            AmfValue::EcmaArray { length, dense, properties } => AmfValue::EcmaArray {
                length: *length,
                dense: AmfValue::clone_list(dense),
                properties: AmfProperty::clone_list(properties),
            },
            AmfValue::Date { time, timezone } => AmfValue::Date {
                time: *time,
                timezone: *timezone,
            },
            AmfValue::Xml { value, is_string } => AmfValue::Xml {
                value: value.clone(),
                is_string: *is_string,
            },
            AmfValue::Unsupported => AmfValue::Unsupported,
            AmfValue::Reference(r) => AmfValue::Reference(*r),
            AmfValue::Amf3(v) => AmfValue::Amf3(v.clone()),
        }
    }
}

impl AmfValue {
    /// Copies a list of values that stands inside a value.
    #[verifier::loop_isolation(false)]
    pub fn clone_list(items: &Vec<AmfValue>) -> (r: Vec<AmfValue>)
        ensures
            spec_item_views(r) == spec_item_views(*items),
        decreases items,
    {
        let mut copy: Vec<AmfValue> = Vec::new();
        let mut i: usize = 0;
        while i < items.len()
            invariant
                i <= items@.len(),
                copy@.len() == i,
                forall|j: int| 0 <= j < i ==> copy@[j]@ == items@[j]@,
            decreases items@.len() - i,
        {
            assert(decreases_to!(*items => items[i as int]));
            copy.push(items[i].clone());
            i += 1;
        }
        assert(spec_item_views(copy) =~= spec_item_views(*items));
        copy
    }

    /// Whether the client encodes every value of a list.
    #[verifier::loop_isolation(false)]
    pub fn list_encodable(items: &Vec<AmfValue>) -> (r: bool)
        ensures
            r == spec_list_encodable(spec_item_views(*items)),
        decreases items,
    {
        let mut i: usize = 0;
        while i < items.len()
            invariant
                i <= items@.len(),
                forall|j: int| 0 <= j < i ==> spec_encodable(#[trigger] spec_item_views(*items)[j]),
            decreases items@.len() - i,
        {
            assert(decreases_to!(*items => items[i as int]));
            if !items[i].is_encodable() {
                assert(!spec_encodable(spec_item_views(*items)[i as int]));
                return false;
            }
            i += 1;
        }
        true
    }

    /// Whether the client encodes this value: it does unless the value is,
    /// or holds at any depth, an AMF3 value.
    pub fn is_encodable(&self) -> (r: bool)
        ensures
            r == spec_encodable(self@),
        decreases self,
    {
        match self {
            AmfValue::Amf3(_) => false,
            AmfValue::Object(properties) => AmfProperty::all_encodable(properties),
            AmfValue::StrictArray(items) => AmfValue::list_encodable(items),
            AmfValue::TypedObject { properties, .. } => AmfProperty::all_encodable(properties),
            AmfValue::EcmaArray { dense, properties, .. } => AmfValue::list_encodable(dense)
                && AmfProperty::all_encodable(properties),
            _ => true,
        }
    }
}

/// Copies a list of values.
pub fn clone_values(values: &Vec<AmfValue>) -> (r: Vec<AmfValue>)
    ensures
        spec_views(r@) == spec_views(values@),
{
    let copy = AmfValue::clone_list(values);
    assert(spec_views(copy@) =~= spec_item_views(copy));
    assert(spec_views(values@) =~= spec_item_views(*values));
    copy
}

/// The views of a list of values, one by one.
pub open spec fn spec_views(values: Seq<AmfValue>) -> Seq<AmfValueView> {
    Seq::new(values.len(), |i: int| values[i]@)
}

/// Turns the named members of a `flash_lso` object into the client's own,
/// one by one.
#[verifier::external_body]
fn properties_from_outside(elements: Vec<Element>) -> Vec<AmfProperty> {
    let convert = |e: Element| AmfProperty { name: e.name, value: from_outside(e.value) };
    elements.into_iter().map(convert).collect()
}

/// Turns a list of `flash_lso` values into the client's own, one by one.
#[verifier::external_body]
fn values_from_outside(values: Vec<Value>) -> Vec<AmfValue> {
    values.into_iter().map(from_outside).collect()
}

/// Turns a `flash_lso::types::Value` that holds other values into the
/// client's own value, variant by variant. An object or an array loses its
/// id, which AMF0 does not carry; a class loses all but its name, which is
/// all that AMF0 carries of it. A value of a kind that only AMF3 has, and
/// that `flash-lso` writes to AMF0 as unsupported, is the unsupported value.
#[verifier::external_body]
fn compound_from_outside(value: Value) -> AmfValue {
    match value {
        Value::Object { data: ObjectValue { elements, class_definition: None }, .. } => {
            AmfValue::Object(properties_from_outside(elements))
        },
        Value::Object { data: ObjectValue { elements, class_definition: Some(c) }, .. } => {
            AmfValue::TypedObject { class_name: c.name, properties: properties_from_outside(elements) }
        },
        Value::ECMAArray { data: ECMAArrayObjectValue { dense, elements, length }, .. } => {
            AmfValue::EcmaArray { length, dense: values_from_outside(dense), properties: properties_from_outside(elements) }
        },
        Value::StrictArray { values, .. } => AmfValue::StrictArray(values_from_outside(values)),
        _ => AmfValue::Unsupported,
    }
}

/// Turns a `flash_lso::types::Value` into the client's own value, variant
/// by variant.
#[verifier::external_body]
fn from_outside(value: Value) -> AmfValue {
    match value {
        Value::Number(n) => AmfValue::Number(n.to_bits()),
        Value::Bool(b) => AmfValue::Bool(b),
        Value::String(s) => AmfValue::String(s),
        Value::Null => AmfValue::Null,
        Value::Undefined => AmfValue::Undefined,
        Value::Unsupported => AmfValue::Unsupported,
        Value::Date { time, timezone_or_utc } => AmfValue::Date { time: time.to_bits(), timezone: timezone_or_utc },
        Value::XML { value, is_string } => AmfValue::Xml { value, is_string },
        Value::Reference(r) => AmfValue::Reference(r),
        Value::AMF3(inner) => AmfValue::Amf3(*inner),
        other => compound_from_outside(other),
    }
}

/// Makes the `flash_lso::types::Value` of the number with the given bits.
/// The crate's decoder is asked for it (`AMF0Decoder::parse_single_element`
/// on the nine bytes that encode the number, which it reads as a number
/// whatever the eight bytes behind the marker are), since a number cannot
/// be written down here in any other way. An error of the decoder comes
/// back as `None`.
#[verifier::external_body]
fn outside_number(bits: u64) -> Option<Value> {
    let b = bits.to_be_bytes();
    let encoded = [0, b[0], b[1], b[2], b[3], b[4], b[5], b[6], b[7]];
    AMF0Decoder::default().parse_single_element(&encoded).ok().map(|(_, value)| value)
}

/// Makes the `flash_lso` date of the time with the given bits, which it
/// has from `outside_number`.
#[verifier::external_body]
fn outside_date(time: u64, timezone_or_utc: Option<u16>) -> Option<Value> {
    match outside_number(time)? {
        Value::Number(time) => Some(Value::Date { time, timezone_or_utc }),
        _ => None,
    }
}

/// Turns the client's named members into those of a `flash_lso` object,
/// one by one; `None` where one of them has no `flash_lso` value.
#[verifier::external_body]
fn properties_to_outside(properties: &Vec<AmfProperty>) -> Option<Vec<Element>> {
    let convert = |p: &AmfProperty| Some(Element::new(p.name.clone(), to_outside(&p.value)?));
    properties.iter().map(convert).collect()
}

/// Turns a list of the client's values into `flash_lso` values, one by one;
/// `None` where one of them has no `flash_lso` value.
#[verifier::external_body]
fn values_to_outside(items: &Vec<AmfValue>) -> Option<Vec<Value>> {
    items.iter().map(to_outside).collect()
}

/// Turns a value of the client that holds other values into a
/// `flash_lso::types::Value`, variant by variant. An object or an array
/// gets the id that marks it as never referred to; a class gets its name
/// and nothing else.
#[verifier::external_body]
fn compound_to_outside(value: &AmfValue) -> Option<Value> {
    let id = ObjectId::INVALID;
    Some(match value {
        AmfValue::Object(p) => Value::Object { id, data: ObjectValue { elements: properties_to_outside(p)?, class_definition: None } },
        AmfValue::TypedObject { class_name, properties } => {
            let class_definition = Some(ClassDefinition::default_with_name(class_name.clone()));
            Value::Object { id, data: ObjectValue { elements: properties_to_outside(properties)?, class_definition } }
        },
        AmfValue::EcmaArray { length, dense, properties } => {
            let data = ECMAArrayObjectValue { dense: values_to_outside(dense)?, elements: properties_to_outside(properties)?, length: *length };
            Value::ECMAArray { id, data }
        },
        AmfValue::StrictArray(items) => Value::StrictArray { id, values: values_to_outside(items)? },
        _ => Value::Unsupported,
    })
}

/// Turns the client's own value into a `flash_lso::types::Value`, variant by
/// variant; `None` where `outside_number` gave none for a number in it.
#[verifier::external_body]
fn to_outside(value: &AmfValue) -> Option<Value> {
    Some(match value {
        AmfValue::Number(bits) => outside_number(*bits)?,
        AmfValue::Bool(b) => Value::Bool(*b),
        AmfValue::String(s) => Value::String(s.clone()),
        AmfValue::Null => Value::Null,
        AmfValue::Undefined => Value::Undefined,
        AmfValue::Date { time, timezone } => outside_date(*time, *timezone)?,
        AmfValue::Xml { value, is_string } => Value::XML { value: value.clone(), is_string: *is_string },
        AmfValue::Reference(r) => Value::Reference(*r),
        AmfValue::Amf3(v) => Value::AMF3(Box::new(v.clone())),
        other => compound_to_outside(other)?,
    })
}

/// What `flash-lso` reads from the front of `bytes` as one AMF0 value, and
/// how many bytes it leaves unread; `None` where it reads no value.
pub uninterp spec fn amf0_decoded(bytes: Seq<u8>) -> Option<(AmfValueView, nat)>;

/// The AMF packet that `flash-lso` writes for a single message whose
/// contents are `value`; `None` where it refuses to write one.
pub uninterp spec fn amf0_packet(value: AmfValueView) -> Option<Seq<u8>>;

/// Reads one value with a fresh `flash_lso::amf0::read::AMF0Decoder`
/// (`parse_single_element`) and gives it back with the length of the input
/// left unread. Nothing is proved of the decoder: its result is only given
/// the name `amf0_decoded`. The decoder calls itself once for each level
/// of nesting, as the functions here that walk a value do, so the stack
/// bounds how deep a value can be read.
#[verifier::external_body]
fn amf0_parse(bytes: &[u8]) -> (r: Option<(AmfValue, usize)>)
    ensures
        match r {
            Some((value, left)) => amf0_decoded(bytes@) == Some((value@, left as nat)),
            None => amf0_decoded(bytes@) is None,
        },
{
    match AMF0Decoder::default().parse_single_element(bytes) {
        Ok((rest, value)) => Some((from_outside(value), rest.len())),
        Err(_) => None,
    }
}

/// The length of the envelope that `flash-lso` puts before the contents of
/// the only message of a packet without headers.
pub const PACKET_ENVELOPE_SIZE: usize = 14;

/// Writes, with `flash_lso::packet::write::write_to_bytes`, an AMF0 packet
/// that has no headers and one message, whose target and response are empty
/// and whose contents are `value`. The crate writes 14 bytes before the
/// contents (version, two counts, two empty strings, the contents' length);
/// that much is claimed here, and the packet's bytes are given the name
/// `amf0_packet`.
///
/// A value that is or holds an AMF3 value is left out: the crate hands
/// such a value to its AMF3 writer, which gives up on a reference. Where
/// `outside_number` gave no number for one in `value`, nothing is written,
/// as where the crate's writer fails.
#[verifier::external_body]
fn amf0_write_packet(value: &AmfValue) -> (r: Option<Vec<u8>>)
    requires
        spec_encodable(value@),
    ensures
        match r {
            Some(bytes) => amf0_packet(value@) == Some(bytes@) && bytes@.len()
                >= PACKET_ENVELOPE_SIZE,
            None => amf0_packet(value@) is None,
        },
{
    let contents = to_outside(value)?;
    let message = Message { target_uri: String::new(), response_uri: String::new(), contents };
    let packet = Packet { version: AMFVersion::AMF0, headers: Vec::new(), messages: vec![message] };
    write_to_bytes(&packet, true).ok()
}

/// The value at the front of `bytes` and the number of bytes behind it, or
/// `None` where the bytes start with no value.
pub open spec fn spec_decode_amf0(bytes: Seq<u8>) -> Option<(AmfValueView, nat)> {
    match amf0_decoded(bytes) {
        Some((value, left)) => if left < bytes.len() {
            Some((value, left))
        } else {
            None
        },
        None => None,
    }
}

/// The AMF0 encoding of `value`: what stands behind the envelope in the
/// packet written for it. A value that is or holds an AMF3 value has none.
pub open spec fn spec_encode_amf0(value: AmfValueView) -> Option<Seq<u8>> {
    if spec_encodable(value) {
        match amf0_packet(value) {
            Some(packet) => if packet.len() >= PACKET_ENVELOPE_SIZE {
                Some(packet.skip(PACKET_ENVELOPE_SIZE as int))
            } else {
                None
            },
            None => None,
        }
    } else {
        None
    }
}

/// Reads one AMF0 value from the front of `bytes`.
pub fn decode_amf0<'a>(bytes: &'a [u8]) -> (r: RTMPResult<'a, AmfValue>)
    ensures
        match r {
            Ok((rest, value)) => spec_decode_amf0(bytes@) == Some((value@, rest@.len()))
                && rest@.len() < bytes@.len() && rest@ == bytes@.skip(
                bytes@.len() - rest@.len(),
            ),
            Err(e) => e == Error::AmfDecode && spec_decode_amf0(bytes@) is None,
        },
{
    match amf0_parse(bytes) {
        Some((value, left)) => {
            if left < bytes.len() {
                let rest = slice_subrange(bytes, bytes.len() - left, bytes.len());
                Ok((rest, value))
            } else {
                Err(Error::AmfDecode)
            }
        },
        None => Err(Error::AmfDecode),
    }
}

/// Appends the AMF0 encoding of `value` to `buffer`. A value that is or
/// holds an AMF3 value is refused, and so is one that `flash-lso` refuses.
pub fn encode_amf0(value: &AmfValue, buffer: &mut Vec<u8>) -> (r: Result<(), Error>)
    ensures
        match r {
            Ok(()) => spec_encode_amf0(value@) matches Some(bytes) && final(buffer)@
                == old(buffer)@ + bytes,
            Err(e) => e == Error::AmfEncode && spec_encode_amf0(value@) is None && final(buffer)@
                == old(buffer)@,
        },
{
    if !value.is_encodable() {
        return Err(Error::AmfEncode);
    }
    match amf0_write_packet(value) {
        Some(packet) => {
            let contents = slice_subrange(
                packet.as_slice(),
                PACKET_ENVELOPE_SIZE,
                packet.len(),
            );
            crate::utils::bytes::put_slice(buffer, contents);
            Ok(())
        },
        None => Err(Error::AmfEncode),
    }
}

/// The values that `bytes` hold one behind the other, or `None` where some
/// byte belongs to no value.
pub open spec fn spec_decode_values(bytes: Seq<u8>) -> Option<Seq<AmfValueView>>
    decreases bytes.len(),
{
    if bytes.len() == 0 {
        Some(Seq::empty())
    } else {
        match spec_decode_amf0(bytes) {
            Some((value, left)) => match spec_decode_values(bytes.skip(bytes.len() - left)) {
                Some(more) => Some(seq![value] + more),
                None => None,
            },
            None => None,
        }
    }
}

/// The encodings of `values` one behind the other, or `None` where one of
/// them has no encoding.
pub open spec fn spec_encode_values(values: Seq<AmfValueView>) -> Option<Seq<u8>>
    decreases values.len(),
{
    if values.len() == 0 {
        Some(Seq::empty())
    } else {
        match spec_encode_amf0(values[0]) {
            Some(first) => match spec_encode_values(values.skip(1)) {
                Some(more) => Some(first + more),
                None => None,
            },
            None => None,
        }
    }
}

/// Reads AMF0 values from `bytes` until none are left.
pub fn decode_values(bytes: &[u8]) -> (r: Result<Vec<AmfValue>, Error>)
    ensures
        match r {
            Ok(values) => spec_decode_values(bytes@) == Some(spec_views(values@)),
            Err(e) => e == Error::AmfDecode && spec_decode_values(bytes@) is None,
        },
{
    let mut values: Vec<AmfValue> = Vec::new();
    let mut i = bytes;
    assert(spec_views(values@) + Seq::<AmfValueView>::empty() =~= spec_views(values@));
    assert(spec_views(values@) =~= Seq::<AmfValueView>::empty());
    assert(Seq::<AmfValueView>::empty() + spec_decode_values(i@)->0 =~= spec_decode_values(
        i@,
    )->0);
    while i.len() > 0
        invariant
            spec_decode_values(bytes@) == (match spec_decode_values(i@) {
                Some(more) => Some(spec_views(values@) + more),
                None => None,
            }),
        decreases i@.len(),
    {
        let ghost before = spec_views(values@);
        let ghost input = i@;
        let (rest, value) = decode_amf0(i)?;
        values.push(value);
        i = rest;
        proof {
            assert(spec_views(values@) =~= before + seq![value@]);
            match spec_decode_values(i@) {
                Some(more) => {
                    assert(before + (seq![value@] + more) =~= spec_views(values@) + more);
                },
                None => {},
            }
        }
    }
    assert(spec_views(values@) + Seq::<AmfValueView>::empty() =~= spec_views(values@));
    Ok(values)
}

/// Appends the AMF0 encodings of `values`, one behind the other, to
/// `buffer`; where one of them has no encoding, nothing is appended.
pub fn encode_values(values: &Vec<AmfValue>, buffer: &mut Vec<u8>) -> (r: Result<(), Error>)
    ensures
        match r {
            Ok(()) => spec_encode_values(spec_views(values@)) matches Some(bytes)
                && final(buffer)@ == old(buffer)@ + bytes,
            Err(e) => e == Error::AmfEncode && spec_encode_values(spec_views(values@)) is None
                && final(buffer)@ == old(buffer)@,
        },
{
    let mut encoded: Vec<u8> = Vec::new();
    let mut k: usize = 0;
    let ghost all = spec_views(values@);
    assert(all.skip(0) =~= all);
    assert(Seq::<u8>::empty() + spec_encode_values(all)->0 =~= spec_encode_values(all)->0);
    while k < values.len()
        invariant
            k <= values@.len(),
            all == spec_views(values@),
            buffer@ == old(buffer)@,
            spec_encode_values(all) == (match spec_encode_values(all.skip(k as int)) {
                Some(more) => Some(encoded@ + more),
                None => None,
            }),
        decreases values@.len() - k,
    {
        let ghost before = encoded@;
        assert(all.skip(k as int)[0] == values@[k as int]@);
        assert(all.skip(k as int).skip(1) =~= all.skip(k as int + 1));
        match encode_amf0(&values[k], &mut encoded) {
            Ok(()) => {},
            Err(e) => { return Err(e); },
        }
        k += 1;
        proof {
            let first = spec_encode_amf0(values@[k as int - 1]@)->0;
            match spec_encode_values(all.skip(k as int)) {
                Some(more) => {
                    assert(before + (first + more) =~= encoded@ + more);
                },
                None => {},
            }
        }
    }
    assert(all.skip(k as int) =~= Seq::<AmfValueView>::empty());
    assert(encoded@ + Seq::<u8>::empty() =~= encoded@);
    crate::utils::bytes::put_slice(buffer, encoded.as_slice());
    Ok(())
}

} // verus!
