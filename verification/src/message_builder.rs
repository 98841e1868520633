//! Messages under construction: their fields, and the values of the fields.
use crate::decimal::{
    parse_i32, parse_i64, parse_u32, parse_u64, signed_value, unsigned_value,
};
use crate::descriptors::{declared_type, text_or_empty, FieldDescriptorProto, FieldType};
use crate::error::{outcome_of, Error, ErrorView};
use crate::text::same_text;
use crate::text_map::{lookup, TextMap};
use crate::utils::{has_repeated_label, is_repeated};
use vstd::prelude::*;
use vstd::utf8::encode_utf8;

verus! {

/// The value of a field, by the Rust type that holds it. Floating-point numbers are held by their
/// bits.
#[derive(Debug, PartialEq, Eq)]
pub enum RType {
    String(String),
    Boolean(bool),
    UInteger32(u32),
    Integer32(i32),
    UInteger64(u64),
    Integer64(i64),
    Float(u32),
    Double(u64),
    Bytes(Vec<u8>),
    Message(Box<MessageBuilder>),
}

/// The value of a field, with the name of the field and the text that it was made from.
#[derive(Debug, PartialEq, Eq)]
pub struct MessageFieldValue {
    pub name: String,
    pub raw_value: Option<String>,
    pub rtype: RType,
}

/// A field of a message with its values: what the descriptor says of it, and one value or, where it
/// is repeated, any number of them.
#[derive(Debug, PartialEq, Eq)]
pub struct FieldEntry {
    pub name: String,
    pub number: Option<i32>,
    pub field_type: FieldType,
    pub repeated: bool,
    pub named_type: String,
    pub values: Vec<MessageFieldValue>,
}

/// A message under construction. Its fields are in the order of their numbers.
#[derive(Debug, PartialEq, Eq)]
pub struct MessageBuilder {
    pub message_name: String,
    pub fields: Vec<FieldEntry>,
}

/// The model of an [`RType`].
pub enum RTypeView {
    String(Seq<char>),
    Boolean(bool),
    UInteger32(u32),
    Integer32(i32),
    UInteger64(u64),
    Integer64(i64),
    Float(u32),
    Double(u64),
    Bytes(Seq<u8>),
    Message(Box<MessageView>),
}

/// The model of a [`MessageFieldValue`].
pub struct FieldValueView {
    pub name: Seq<char>,
    pub raw_value: Option<Seq<char>>,
    pub rtype: RTypeView,
}

/// The model of a [`FieldEntry`].
pub struct FieldEntryView {
    pub name: Seq<char>,
    pub number: Option<i32>,
    pub field_type: FieldType,
    pub repeated: bool,
    pub named_type: Seq<char>,
    pub values: Seq<FieldValueView>,
}

/// The model of a [`MessageBuilder`].
pub struct MessageView {
    pub name: Seq<char>,
    pub fields: Seq<FieldEntryView>,
}

impl View for RType {
    type V = RTypeView;

    open spec fn view(&self) -> RTypeView
        decreases self,
    {
        match self {
            RType::String(text) => RTypeView::String(text@),
            RType::Boolean(b) => RTypeView::Boolean(*b),
            RType::UInteger32(n) => RTypeView::UInteger32(*n),
            RType::Integer32(n) => RTypeView::Integer32(*n),
            RType::UInteger64(n) => RTypeView::UInteger64(*n),
            RType::Integer64(n) => RTypeView::Integer64(*n),
            RType::Float(bits) => RTypeView::Float(*bits),
            RType::Double(bits) => RTypeView::Double(*bits),
            RType::Bytes(bytes) => RTypeView::Bytes(bytes@),
            RType::Message(message) => RTypeView::Message(Box::new((**message).view())),
        }
    }
}

impl View for MessageFieldValue {
    type V = FieldValueView;

    open spec fn view(&self) -> FieldValueView
        decreases self,
    {
        FieldValueView {
            name: self.name@,
            raw_value: match self.raw_value {
                Some(text) => Some(text@),
                None => None,
            },
            rtype: self.rtype.view(),
        }
    }
}

impl View for FieldEntry {
    type V = FieldEntryView;

    open spec fn view(&self) -> FieldEntryView
        decreases self,
    {
        FieldEntryView {
            name: self.name@,
            number: self.number,
            field_type: self.field_type,
            repeated: self.repeated,
            named_type: self.named_type@,
            values: Seq::new(
                self.values@.len(),
                |i: int|
                    if 0 <= i < self.values@.len() {
                        self.values@[i].view()
                    } else {
                        arbitrary()
                    },
            ),
        }
    }
}

impl View for MessageBuilder {
    type V = MessageView;

    open spec fn view(&self) -> MessageView
        decreases self,
    {
        MessageView {
            name: self.message_name@,
            fields: Seq::new(
                self.fields@.len(),
                |i: int|
                    if 0 <= i < self.fields@.len() {
                        self.fields@[i].view()
                    } else {
                        arbitrary()
                    },
            ),
        }
    }
}

/// The number by which a field is ordered.
pub open spec fn order_of(entry: FieldEntryView) -> int {
    match entry.number {
        Some(number) => number as int,
        None => 0,
    }
}

/// Whether fields are in the order of their numbers.
pub open spec fn in_number_order(fields: Seq<FieldEntryView>) -> bool {
    forall|i: int, j: int|
        0 <= i < j < fields.len() ==> order_of(#[trigger] fields[i]) <= order_of(
            #[trigger] fields[j],
        )
}

/// Whether no two fields have the same name.
pub open spec fn names_differ(fields: Seq<FieldEntryView>) -> bool {
    forall|i: int, j: int|
        0 <= i < j < fields.len() ==> (#[trigger] fields[i]).name != (#[trigger] fields[j]).name
}

/// The place of the first field with the given name.
pub open spec fn field_index(fields: Seq<FieldEntryView>, name: Seq<char>) -> Option<int>
    decreases fields.len(),
{
    if fields.len() == 0 {
        None
    } else if fields[0].name == name {
        Some(0)
    } else {
        match field_index(fields.drop_first(), name) {
            Some(i) => Some(i + 1),
            None => None,
        }
    }
}

/// The field with the given name.
pub open spec fn found_field(message: MessageView, name: Seq<char>) -> Option<FieldEntryView> {
    match field_index(message.fields, name) {
        Some(i) => Some(message.fields[i]),
        None => None,
    }
}

/// The place for a field with the given number: behind all fields at the front whose numbers are
/// not larger.
pub open spec fn place_for(fields: Seq<FieldEntryView>, number: int) -> int
    decreases fields.len(),
{
    if fields.len() == 0 || order_of(fields[0]) > number {
        0
    } else {
        1 + place_for(fields.drop_first(), number)
    }
}

/// The field at its place among the others.
pub open spec fn placed(fields: Seq<FieldEntryView>, entry: FieldEntryView) -> Seq<FieldEntryView> {
    fields.insert(place_for(fields, order_of(entry)), entry)
}

/// The message with a field that takes the place of any field with the same name.
pub open spec fn with_field(message: MessageView, entry: FieldEntryView) -> MessageView {
    let others = match field_index(message.fields, entry.name) {
        Some(i) => message.fields.remove(i),
        None => message.fields,
    };
    MessageView { name: message.name, fields: placed(others, entry) }
}

/// The message with the values of `entry` behind those of the field with the same name, or with
/// `entry` itself if there is no such field.
pub open spec fn with_more_values(message: MessageView, entry: FieldEntryView) -> MessageView {
    let fields = match field_index(message.fields, entry.name) {
        Some(i) => message.fields.update(
            i,
            FieldEntryView { values: message.fields[i].values + entry.values, ..message.fields[i] },
        ),
        None => placed(message.fields, entry),
    };
    MessageView { name: message.name, fields }
}

/// A field with one value, as its descriptor and the name that it goes by say.
pub open spec fn entry_for(
    field: FieldDescriptorProto,
    name: Seq<char>,
    value: FieldValueView,
) -> FieldEntryView {
    FieldEntryView {
        name,
        number: field.number,
        field_type: declared_type(field),
        repeated: has_repeated_label(field),
        named_type: text_or_empty(field.named_type),
        values: seq![value],
    }
}

/// A message without fields.
pub open spec fn empty_message(name: Seq<char>) -> MessageView {
    MessageView { name, fields: Seq::empty() }
}

/// The place of a field is found where the field is, or nowhere.
pub proof fn field_index_is_first(fields: Seq<FieldEntryView>, name: Seq<char>)
    ensures
        match field_index(fields, name) {
            Some(i) => 0 <= i < fields.len() && fields[i].name == name && forall|j: int|
                0 <= j < i ==> (#[trigger] fields[j]).name != name,
            None => forall|j: int| 0 <= j < fields.len() ==> (#[trigger] fields[j]).name != name,
        },
    decreases fields.len(),
{
    if fields.len() > 0 && fields[0].name != name {
        let rest = fields.drop_first();
        field_index_is_first(rest, name);
        assert forall|j: int|
            0 <= j < fields.len() && (field_index(fields, name) matches Some(i) ==> j
                < i) implies (#[trigger] fields[j]).name != name by {
            if j > 0 {
                assert(rest[j - 1] == fields[j]);
            }
        }
    }
}

/// The place for a number parts the fields: those before it have no larger numbers, and the one at
/// it has a larger one.
pub proof fn place_for_parts(fields: Seq<FieldEntryView>, number: int)
    ensures
        0 <= place_for(fields, number) <= fields.len(),
        forall|j: int|
            0 <= j < place_for(fields, number) ==> order_of(#[trigger] fields[j]) <= number,
        place_for(fields, number) < fields.len() ==> order_of(fields[place_for(fields, number)])
            > number,
    decreases fields.len(),
{
    if fields.len() > 0 && order_of(fields[0]) <= number {
        let rest = fields.drop_first();
        place_for_parts(rest, number);
        assert forall|j: int| 0 <= j < place_for(fields, number) implies order_of(
            #[trigger] fields[j],
        ) <= number by {
            if j > 0 {
                assert(rest[j - 1] == fields[j]);
            }
        }
    }
}

/// A field at its place leaves fields in the order of their numbers, and different names different.
proof fn placed_keeps_order(fields: Seq<FieldEntryView>, entry: FieldEntryView)
    requires
        in_number_order(fields),
        names_differ(fields),
        forall|i: int| 0 <= i < fields.len() ==> (#[trigger] fields[i]).name != entry.name,
    ensures
        in_number_order(placed(fields, entry)),
        names_differ(placed(fields, entry)),
{
    let place = place_for(fields, order_of(entry));
    let after = placed(fields, entry);
    place_for_parts(fields, order_of(entry));
    assert forall|i: int, j: int| 0 <= i < j < after.len() implies order_of(#[trigger] after[i])
        <= order_of(#[trigger] after[j]) && after[i].name != after[j].name by {
        let a = if i < place {
            i
        } else {
            i - 1
        };
        let b = if j < place {
            j
        } else {
            j - 1
        };
        if i != place {
            assert(after[i] == fields[a]);
        }
        if j != place {
            assert(after[j] == fields[b]);
        }
        if i == place {
            assert(order_of(fields[place]) <= order_of(fields[b]));
        }
    }
}

/// Setting a field leaves the fields of a message in the order of their numbers, and no two with
/// the same name.
pub proof fn with_field_keeps_order(message: MessageView, entry: FieldEntryView)
    requires
        in_number_order(message.fields),
        names_differ(message.fields),
    ensures
        in_number_order(with_field(message, entry).fields),
        names_differ(with_field(message, entry).fields),
{
    field_index_is_first(message.fields, entry.name);
    let others = match field_index(message.fields, entry.name) {
        Some(i) => message.fields.remove(i),
        None => message.fields,
    };
    assert forall|j: int| 0 <= j < others.len() implies (#[trigger] others[j]).name
        != entry.name by {
        match field_index(message.fields, entry.name) {
            Some(i) => {
                let k = if j < i {
                    j
                } else {
                    j + 1
                };
                assert(others[j] == message.fields[k]);
                assert(message.fields[i].name == entry.name);
            },
            None => {},
        }
    }
    placed_keeps_order(others, entry);
}

/// Giving a field more values leaves the fields of a message in the order of their numbers, and no
/// two with the same name.
pub proof fn with_more_values_keeps_order(message: MessageView, entry: FieldEntryView)
    requires
        in_number_order(message.fields),
        names_differ(message.fields),
    ensures
        in_number_order(with_more_values(message, entry).fields),
        names_differ(with_more_values(message, entry).fields),
{
    field_index_is_first(message.fields, entry.name);
    match field_index(message.fields, entry.name) {
        Some(i) => {
            let after = with_more_values(message, entry).fields;
            assert forall|a: int, b: int| 0 <= a < b < after.len() implies order_of(
                #[trigger] after[a],
            ) <= order_of(#[trigger] after[b]) && after[a].name != after[b].name by {
                assert(after[a].name == message.fields[a].name);
                assert(after[b].name == message.fields[b].name);
                assert(order_of(after[a]) == order_of(message.fields[a]));
                assert(order_of(after[b]) == order_of(message.fields[b]));
            }
        },
        None => {
            placed_keeps_order(message.fields, entry);
        },
    }
}

/// A field that was set is found in the message as it was set, and every other field is found as it
/// was.
pub proof fn set_field_is_found(message: MessageView, entry: FieldEntryView, name: Seq<char>)
    requires
        in_number_order(message.fields),
        names_differ(message.fields),
    ensures
        found_field(with_field(message, entry), name) == (if name == entry.name {
            Some(entry)
        } else {
            found_field(message, name)
        }),
        with_field(message, entry).name == message.name,
{
    let before = message.fields;
    let after = with_field(message, entry).fields;
    field_index_is_first(before, entry.name);
    field_index_is_first(before, name);
    field_index_is_first(after, name);
    with_field_keeps_order(message, entry);
    let others = match field_index(before, entry.name) {
        Some(i) => before.remove(i),
        None => before,
    };
    let place = place_for(others, order_of(entry));
    place_for_parts(others, order_of(entry));
    assert(after[place] == entry);
    if name != entry.name {
        match field_index(before, name) {
            Some(at) => {
                let kept = match field_index(before, entry.name) {
                    Some(i) => if at < i {
                        at
                    } else {
                        at - 1
                    },
                    None => at,
                };
                assert(others[kept] == before[at]);
                let moved = if kept < place {
                    kept
                } else {
                    kept + 1
                };
                assert(after[moved] == before[at]);
            },
            None => {
                assert forall|j: int| 0 <= j < after.len() implies (#[trigger] after[j]).name
                    != name by {
                    if j != place {
                        let kept = if j < place {
                            j
                        } else {
                            j - 1
                        };
                        assert(after[j] == others[kept]);
                        let at = match field_index(before, entry.name) {
                            Some(i) => if kept < i {
                                kept
                            } else {
                                kept + 1
                            },
                            None => kept,
                        };
                        assert(others[kept] == before[at]);
                    }
                }
            },
        }
    }
}

/// A field that is given more values is found with them behind the values that it had, or as it was
/// given if it was not there; every other field is found as it was.
pub proof fn more_values_are_found(message: MessageView, entry: FieldEntryView, name: Seq<char>)
    requires
        in_number_order(message.fields),
        names_differ(message.fields),
    ensures
        found_field(with_more_values(message, entry), name) == (if name != entry.name {
            found_field(message, name)
        } else {
            match found_field(message, name) {
                Some(had) => Some(FieldEntryView { values: had.values + entry.values, ..had }),
                None => Some(entry),
            }
        }),
        with_more_values(message, entry).name == message.name,
{
    let before = message.fields;
    let after = with_more_values(message, entry).fields;
    field_index_is_first(before, entry.name);
    field_index_is_first(before, name);
    field_index_is_first(after, name);
    match field_index(before, entry.name) {
        Some(at) => {
            assert forall|j: int| 0 <= j < after.len() implies (#[trigger] after[j]).name
                == before[j].name by {}
            match field_index(before, name) {
                Some(i) => {
                    assert(after[i].name == name);
                },
                None => {},
            }
        },
        None => {
            set_field_is_found(message, entry, name);
        },
    }
}

/// Setting a field twice is setting it to the last value.
pub proof fn last_value_stays(message: MessageView, first: FieldEntryView, second: FieldEntryView)
    requires
        in_number_order(message.fields),
        names_differ(message.fields),
        first.name == second.name,
    ensures
        with_field(with_field(message, first), second) == with_field(message, second),
{
    let name = first.name;
    let between = with_field(message, first).fields;
    field_index_is_first(message.fields, name);
    field_index_is_first(between, name);
    with_field_keeps_order(message, first);
    let others = match field_index(message.fields, name) {
        Some(i) => message.fields.remove(i),
        None => message.fields,
    };
    let place = place_for(others, order_of(first));
    place_for_parts(others, order_of(first));
    assert(between[place].name == name);
    assert(field_index(between, name) == Some(place));
    assert(between.remove(place) =~= others);
}

impl FieldEntry {
    /// The number by which the field is ordered.
    pub(crate) fn order(&self) -> (order: i32)
        ensures
            order == order_of(self@),
    {
        match self.number {
            Some(number) => number,
            None => 0,
        }
    }
}

impl MessageBuilder {
    /// A message without fields.
    pub fn new(message_name: &str) -> (builder: MessageBuilder)
        ensures
            builder@ == empty_message(message_name@),
    {
        let builder = MessageBuilder { message_name: message_name.to_owned(), fields: Vec::new() };
        assert(builder@.fields =~= Seq::empty());
        builder
    }

    /// The place of the first field with the given name.
    fn index_of(&self, name: &str) -> (index: Option<usize>)
        ensures
            match index {
                Some(i) => i < self.fields@.len() && field_index(self@.fields, name@) == Some(
                    i as int,
                ),
                None => field_index(self@.fields, name@) is None,
            },
    {
        let mut i: usize = 0;
        let ghost fields = self@.fields;
        proof {
            field_index_is_first(fields, name@);
        }
        while i < self.fields.len()
            invariant
                i <= self.fields@.len(),
                fields == self@.fields,
                forall|j: int| 0 <= j < i ==> (#[trigger] fields[j]).name != name@,
            decreases self.fields.len() - i,
        {
            if same_text(self.fields[i].name.as_str(), name) {
                proof {
                    field_index_is_first(fields, name@);
                    assert(fields[i as int].name == name@);
                }
                return Some(i);
            }
            i += 1;
        }
        proof {
            field_index_is_first(fields, name@);
        }
        None
    }

    /// Puts a field at its place among the others.
    fn place(&mut self, entry: FieldEntry)
        ensures
            final(self)@ == (MessageView {
                name: old(self)@.name,
                fields: placed(old(self)@.fields, entry@),
            }),
    {
        let mut i: usize = 0;
        let ghost fields = self@.fields;
        let ghost number = order_of(entry@);
        let order: i32 = entry.order();
        assert(fields.skip(0) =~= fields);
        while i < self.fields.len() && self.fields[i].order() <= order
            invariant
                i <= self.fields@.len(),
                *self == *old(self),
                fields == self@.fields,
                number == order,
                place_for(fields, number) == i + place_for(fields.skip(i as int), number),
            decreases self.fields.len() - i,
        {
            assert(fields.skip(i as int).drop_first() =~= fields.skip(i + 1));
            i += 1;
        }
        self.fields.insert(i, entry);
        proof {
            place_for_parts(fields, number);
            assert(self@.fields =~= placed(fields, entry@));
        }
    }

    /// Gives a field the value `value`, in place of any value that it had.
    pub fn set_field(
        &mut self,
        field: &FieldDescriptorProto,
        name: &str,
        value: MessageFieldValue,
    )
        ensures
            final(self)@ == with_field(old(self)@, entry_for(*field, name@, value@)),
    {
        let entry = new_entry(field, name, value);
        proof {
            field_index_is_first(self@.fields, name@);
        }
        let ghost before = self@.fields;
        match self.index_of(name) {
            Some(i) => {
                let _ = self.fields.remove(i);
                assert(self@.fields =~= before.remove(i as int));
            },
            None => {},
        }
        self.place(entry);
    }

    /// Gives a repeated field one more value.
    pub fn add_repeated_field_value(
        &mut self,
        field: &FieldDescriptorProto,
        name: &str,
        value: MessageFieldValue,
    )
        ensures
            final(self)@ == with_more_values(old(self)@, entry_for(*field, name@, value@)),
    {
        let ghost before = self@.fields;
        let ghost added = value@;
        match self.index_of(name) {
            Some(i) => {
                let mut entry = self.fields.remove(i);
                let ghost kept = entry@;
                entry.values.push(value);
                assert(entry@.values =~= kept.values.push(added));
                self.fields.insert(i, entry);
                assert(kept == before[i as int]);
                assert(self@.fields =~= with_more_values(
                    old(self)@,
                    entry_for(*field, name@, added),
                ).fields) by {
                    assert(kept.values.push(added) =~= kept.values + seq![added]);
                }
            },
            None => {
                let entry = new_entry(field, name, value);
                self.place(entry);
            },
        }
    }
}

/// A field with one value.
fn new_entry(field: &FieldDescriptorProto, name: &str, value: MessageFieldValue) -> (entry:
    FieldEntry)
    ensures
        entry@ == entry_for(*field, name@, value@),
{
    let named_type = match &field.named_type {
        Some(text) => text.clone(),
        None => String::new(),
    };
    let mut values: Vec<MessageFieldValue> = Vec::new();
    let ghost model = value@;
    values.push(value);
    let entry = FieldEntry {
        name: name.to_owned(),
        number: field.number,
        field_type: field.field_type(),
        repeated: is_repeated(field),
        named_type,
        values,
    };
    assert(entry@.values =~= seq![model]);
    entry
}

/// The bits of the floating-point numbers that a text stands for, read with double and with single
/// precision, where it stands for any.
#[derive(Clone, Copy, Debug)]
pub struct FloatBits {
    pub double: Option<u64>,
    pub float: Option<u32>,
}

/// A value that was made from a text.
pub open spec fn made_from(name: Seq<char>, text: Seq<char>, rtype: RTypeView) -> FieldValueView {
    FieldValueView { name, raw_value: Some(text), rtype }
}

/// The error of a text that does not stand for a value of the type.
pub open spec fn invalid_value(name: Seq<char>, text: Seq<char>, field_type: FieldType) -> Result<
    FieldValueView,
    ErrorView,
> {
    Err(ErrorView::InvalidValue { field: name, value: text, field_type })
}

/// The double that a text stands for.
pub open spec fn double_value(
    name: Seq<char>,
    text: Seq<char>,
    numbers: Seq<(String, FloatBits)>,
) -> Result<FieldValueView, ErrorView> {
    match lookup(numbers, text) {
        None => Err(ErrorView::NumberNotRead { text }),
        Some(bits) => match bits.double {
            Some(double) => Ok(made_from(name, text, RTypeView::Double(double))),
            None => invalid_value(name, text, FieldType::Double),
        },
    }
}

/// The float that a text stands for.
pub open spec fn float_value(
    name: Seq<char>,
    text: Seq<char>,
    numbers: Seq<(String, FloatBits)>,
) -> Result<FieldValueView, ErrorView> {
    match lookup(numbers, text) {
        None => Err(ErrorView::NumberNotRead { text }),
        Some(bits) => match bits.float {
            Some(float) => Ok(made_from(name, text, RTypeView::Float(float))),
            None => invalid_value(name, text, FieldType::Float),
        },
    }
}

/// The signed number of 64 bits that a text stands for.
pub open spec fn integer_64_value(name: Seq<char>, text: Seq<char>) -> Result<
    FieldValueView,
    ErrorView,
> {
    match signed_value(text, i64::MIN as int, i64::MAX as int) {
        Some(n) => Ok(made_from(name, text, RTypeView::Integer64(n as i64))),
        None => invalid_value(name, text, FieldType::Int64),
    }
}

/// The unsigned number of 64 bits that a text stands for.
pub open spec fn uinteger_64_value(name: Seq<char>, text: Seq<char>) -> Result<
    FieldValueView,
    ErrorView,
> {
    match unsigned_value(text, u64::MAX as nat) {
        Some(n) => Ok(made_from(name, text, RTypeView::UInteger64(n as u64))),
        None => invalid_value(name, text, FieldType::Uint64),
    }
}

/// The signed number of 32 bits that a text stands for.
pub open spec fn integer_32_value(name: Seq<char>, text: Seq<char>) -> Result<
    FieldValueView,
    ErrorView,
> {
    match signed_value(text, i32::MIN as int, i32::MAX as int) {
        Some(n) => Ok(made_from(name, text, RTypeView::Integer32(n as i32))),
        None => invalid_value(name, text, FieldType::Int32),
    }
}

/// The unsigned number of 32 bits that a text stands for.
pub open spec fn uinteger_32_value(name: Seq<char>, text: Seq<char>) -> Result<
    FieldValueView,
    ErrorView,
> {
    match unsigned_value(text, u32::MAX as nat) {
        Some(n) => Ok(made_from(name, text, RTypeView::UInteger32(n as u32))),
        None => invalid_value(name, text, FieldType::Uint32),
    }
}

/// The Boolean that a text stands for: `true` or `false`, and nothing else.
pub open spec fn boolean_value(name: Seq<char>, text: Seq<char>) -> Result<
    FieldValueView,
    ErrorView,
> {
    if text == "true"@ {
        Ok(made_from(name, text, RTypeView::Boolean(true)))
    } else if text == "false"@ {
        Ok(made_from(name, text, RTypeView::Boolean(false)))
    } else {
        invalid_value(name, text, FieldType::Bool)
    }
}

/// A value that was made from a text.
fn make(name: &str, text: &str, rtype: RType) -> (value: MessageFieldValue)
    ensures
        value@ == made_from(name@, text@, rtype@),
{
    MessageFieldValue { name: name.to_owned(), raw_value: Some(text.to_owned()), rtype }
}

/// The error of a text that does not stand for a value of the type.
fn refuse(name: &str, text: &str, field_type: FieldType) -> (error: Error)
    ensures
        invalid_value(name@, text@, field_type) == Err::<FieldValueView, ErrorView>(error@),
{
    Error::InvalidValue { field: name.to_owned(), value: text.to_owned(), field_type }
}

impl MessageFieldValue {
    /// The value of a field of type double. `numbers` holds the bits of the numbers that texts
    /// stand for.
    pub fn double(name: &str, text: &str, numbers: &TextMap<FloatBits>) -> (value: Result<
        MessageFieldValue,
        Error,
    >)
        ensures
            outcome_of(value) == double_value(name@, text@, numbers.entries@),
    {
        match numbers.get(text) {
            None => Err(Error::NumberNotRead { text: text.to_owned() }),
            Some(bits) => match bits.double {
                Some(double) => Ok(make(name, text, RType::Double(double))),
                None => Err(refuse(name, text, FieldType::Double)),
            },
        }
    }

    /// The value of a field of type float. `numbers` holds the bits of the numbers that texts stand
    /// for.
    pub fn float(name: &str, text: &str, numbers: &TextMap<FloatBits>) -> (value: Result<
        MessageFieldValue,
        Error,
    >)
        ensures
            outcome_of(value) == float_value(name@, text@, numbers.entries@),
    {
        match numbers.get(text) {
            None => Err(Error::NumberNotRead { text: text.to_owned() }),
            Some(bits) => match bits.float {
                Some(float) => Ok(make(name, text, RType::Float(float))),
                None => Err(refuse(name, text, FieldType::Float)),
            },
        }
    }

    /// The value of a field that holds a signed number of 64 bits.
    pub fn integer_64(name: &str, text: &str) -> (value: Result<MessageFieldValue, Error>)
        ensures
            outcome_of(value) == integer_64_value(name@, text@),
    {
        match parse_i64(text) {
            Some(n) => Ok(make(name, text, RType::Integer64(n))),
            None => Err(refuse(name, text, FieldType::Int64)),
        }
    }

    /// The value of a field that holds an unsigned number of 64 bits.
    pub fn uinteger_64(name: &str, text: &str) -> (value: Result<MessageFieldValue, Error>)
        ensures
            outcome_of(value) == uinteger_64_value(name@, text@),
    {
        match parse_u64(text) {
            Some(n) => Ok(make(name, text, RType::UInteger64(n))),
            None => Err(refuse(name, text, FieldType::Uint64)),
        }
    }

    /// The value of a field that holds a signed number of 32 bits.
    pub fn integer_32(name: &str, text: &str) -> (value: Result<MessageFieldValue, Error>)
        ensures
            outcome_of(value) == integer_32_value(name@, text@),
    {
        match parse_i32(text) {
            Some(n) => Ok(make(name, text, RType::Integer32(n))),
            None => Err(refuse(name, text, FieldType::Int32)),
        }
    }

    /// The value of a field that holds an unsigned number of 32 bits.
    pub fn uinteger_32(name: &str, text: &str) -> (value: Result<MessageFieldValue, Error>)
        ensures
            outcome_of(value) == uinteger_32_value(name@, text@),
    {
        match parse_u32(text) {
            Some(n) => Ok(make(name, text, RType::UInteger32(n))),
            None => Err(refuse(name, text, FieldType::Uint32)),
        }
    }

    /// The value of a field of type bool.
    pub fn boolean(name: &str, text: &str) -> (value: Result<MessageFieldValue, Error>)
        ensures
            outcome_of(value) == boolean_value(name@, text@),
    {
        if same_text(text, "true") {
            Ok(make(name, text, RType::Boolean(true)))
        } else if same_text(text, "false") {
            Ok(make(name, text, RType::Boolean(false)))
        } else {
            Err(refuse(name, text, FieldType::Bool))
        }
    }

    /// The value of a field of type string.
    pub fn string(name: &str, text: &str) -> (value: MessageFieldValue)
        ensures
            value@ == made_from(name@, text@, RTypeView::String(text@)),
    {
        make(name, text, RType::String(text.to_owned()))
    }

    /// The value of a field of type bytes: the bytes of the text in UTF-8.
    pub fn bytes(name: &str, text: &str) -> (value: MessageFieldValue)
        ensures
            value@ == made_from(name@, text@, RTypeView::Bytes(encode_utf8(text@))),
    {
        make(name, text, RType::Bytes(text.as_bytes_vec()))
    }
}

} // verus!
