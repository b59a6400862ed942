use crate::bytes::str_eq;
use vstd::prelude::*;

verus! {

/// Errors of the layout system and of the message catalogue.
#[derive(Clone, Copy, Debug, PartialEq, Eq, Structural)]
pub enum ProtocolError {
    ProtocolNotFound,
    StructureNotFound,
    DuplicateName,
    OutOfOrder,
    LengthMismatch,
    EmptyArrayLayout,
    ArrayLengthMismatch,
    InvalidRawData,
    WrongFieldKind,
    DynamicNotLast,
    SizeMismatch,
}

impl ProtocolError {
    /// A sentence that describes the error.
    pub fn message(&self) -> &'static str {
        match self {
            ProtocolError::ProtocolNotFound => "Protocol not found.",
            ProtocolError::StructureNotFound => "Protocol structure not found.",
            ProtocolError::DuplicateName => "Data structure name already exists.",
            ProtocolError::OutOfOrder => "Bytes must be added in structure order.",
            ProtocolError::LengthMismatch => "Data length is not valid.",
            ProtocolError::EmptyArrayLayout => "Array structure is empty.",
            ProtocolError::ArrayLengthMismatch => "Array data length is not valid.",
            ProtocolError::InvalidRawData => "Raw data is invalid.",
            ProtocolError::WrongFieldKind => "Wrong structure data type.",
            ProtocolError::DynamicNotLast => "Dynamic data must be last.",
            ProtocolError::SizeMismatch => "Vector length does not match with structure length.",
        }
    }
}

/// The kind of a layout field.
#[derive(Clone, Copy, Debug, PartialEq, Eq, Structural)]
pub enum DataType {
    /// A string of exactly `length` bytes, padded with zero bytes.
    FixedString,
    /// A string that runs to the end of the data.
    DynamicString,
    /// `length` raw bytes; integers are big-endian.
    Number,
    /// Elements of an inner layout, repeated to the end of the data.
    Array,
}

/// One field of a layout: where it starts, how long it is, and for an array
/// the layout of one element (its `length` is the size of one element).
#[derive(Debug)]
pub struct DataStructure {
    pub data_type: DataType,
    pub start_byte: usize,
    pub length: usize,
    pub array_structure: Option<Layout>,
}

/// Named fields in byte order.
#[derive(Debug)]
pub struct Layout {
    pub fields: Vec<(String, DataStructure)>,
}

pub type Fields = Seq<(String, DataStructure)>;

pub open spec fn is_dynamic(t: DataType) -> bool {
    t == DataType::DynamicString || t == DataType::Array
}

/// The sum of the lengths of the first `n` fields.
pub open spec fn prefix_length(fields: Fields, n: int) -> nat
    decreases n,
{
    if n <= 0 || n > fields.len() {
        0
    } else {
        prefix_length(fields, n - 1) + fields[n - 1].1.length as nat
    }
}

pub open spec fn total_length(fields: Fields) -> nat {
    prefix_length(fields, fields.len() as int)
}

pub open spec fn names_unique(fields: Fields) -> bool {
    forall|i: int, j: int| 0 <= i < j < fields.len() ==> fields[i].0@ != fields[j].0@
}

/// Names unique, each field starting where the previous ones end, and a
/// dynamic field only in last place.
pub open spec fn flat_wf(fields: Fields) -> bool {
    &&& names_unique(fields)
    &&& forall|i: int| 0 <= i < fields.len() ==> #[trigger] fields[i].1.start_byte == prefix_length(fields, i)
    &&& total_length(fields) <= usize::MAX
    &&& forall|i: int| 0 <= i < fields.len() - 1 ==> !is_dynamic(#[trigger] fields[i].1.data_type)
}

pub open spec fn is_fixed(t: DataType) -> bool {
    t == DataType::Number || t == DataType::FixedString
}

/// Only fields of a fixed width.
pub open spec fn fixed_only(fields: Fields) -> bool {
    forall|i: int| 0 <= i < fields.len() ==> is_fixed(#[trigger] fields[i].1.data_type)
}

pub open spec fn no_inner_layouts(fields: Fields) -> bool {
    forall|i: int| 0 <= i < fields.len() ==> (#[trigger] fields[i].1.array_structure) is None
}

/// A valid element layout of an array field.
pub open spec fn element_layout_ok(d: DataStructure) -> bool {
    &&& d.array_structure is Some
    &&& flat_wf(d.array_structure->0.fields@)
    &&& no_inner_layouts(d.array_structure->0.fields@)
    &&& fixed_only(d.array_structure->0.fields@)
    &&& d.length == total_length(d.array_structure->0.fields@)
    &&& d.length > 0
}

pub open spec fn arrays_ok(fields: Fields) -> bool {
    forall|i: int|
        0 <= i < fields.len() ==> ((#[trigger] fields[i].1.data_type == DataType::Array)
            == (fields[i].1.array_structure is Some)) && (fields[i].1.data_type == DataType::Array
            ==> element_layout_ok(fields[i].1))
}

pub open spec fn has_name(fields: Fields, name: Seq<char>) -> bool {
    exists|i: int| 0 <= i < fields.len() && fields[i].0@ == name
}

pub open spec fn has_dynamic(fields: Fields) -> bool {
    exists|i: int| 0 <= i < fields.len() && is_dynamic(#[trigger] fields[i].1.data_type)
}

/// The field of a given name.
pub open spec fn lookup(fields: Fields, name: Seq<char>) -> Option<DataStructure> {
    if has_name(fields, name) {
        Some(fields[choose|i: int| 0 <= i < fields.len() && fields[i].0@ == name].1)
    } else {
        None
    }
}

impl Layout {
    pub open spec fn wf(&self) -> bool {
        flat_wf(self.fields@) && arrays_ok(self.fields@)
    }

    pub open spec fn spec_total_length(&self) -> nat {
        total_length(self.fields@)
    }
}

/// The position of the field of a given name.
pub fn find_field(fields: &Vec<(String, DataStructure)>, name: &str) -> (r: Option<usize>)
    ensures
        match r {
            Some(i) => i < fields@.len() && fields@[i as int].0@ == name@,
            None => !has_name(fields@, name@),
        },
{
    let mut i: usize = 0;
    while i < fields.len()
        invariant
            i <= fields@.len(),
            forall|j: int| 0 <= j < i ==> fields@[j].0@ != name@,
        decreases fields@.len() - i,
    {
        if str_eq(fields[i].0.as_str(), name) {
            return Some(i);
        }
        i = i + 1;
    }
    None
}

/// With unique names, the field found at `i` is the field of that name.
pub proof fn lemma_lookup_at(fields: Fields, name: Seq<char>, i: int)
    requires
        names_unique(fields),
        0 <= i < fields.len(),
        fields[i].0@ == name,
    ensures
        lookup(fields, name) == Some(fields[i].1),
{
    assert(has_name(fields, name));
    let c = choose|c: int| 0 <= c < fields.len() && fields[c].0@ == name;
    if c < i {
        assert(fields[c].0@ != fields[i].0@);
    } else if c > i {
        assert(fields[i].0@ != fields[c].0@);
    }
}

/// Looks a field up by name in a layout.
pub fn get_field<'a>(layout: &'a Layout, name: &str) -> (r: Result<&'a DataStructure, ProtocolError>)
    requires
        layout.wf(),
    ensures
        match r {
            Ok(d) => lookup(layout.fields@, name@) == Some(*d),
            Err(e) => e == ProtocolError::StructureNotFound && lookup(layout.fields@, name@) is None,
        },
{
    match find_field(&layout.fields, name) {
        Some(i) => {
            proof {
                lemma_lookup_at(layout.fields@, name@, i as int);
            }
            Ok(&layout.fields[i].1)
        },
        None => Err(ProtocolError::StructureNotFound),
    }
}

/// The sum of the field lengths of a layout.
pub fn get_protocol_total_length(structures: &Layout) -> (r: usize)
    requires
        structures.wf(),
    ensures
        r == structures.spec_total_length(),
{
    let fields = &structures.fields;
    let mut total: usize = 0;
    let mut i: usize = 0;
    while i < fields.len()
        invariant
            i <= fields@.len(),
            total == prefix_length(fields@, i as int),
            flat_wf(fields@),
        decreases fields@.len() - i,
    {
        proof {
            lemma_prefix_monotone(fields@, (i + 1) as int, fields@.len() as int);
        }
        total = total + fields[i].1.length;
        i = i + 1;
    }
    total
}

/// Prefix sums grow with the prefix.
pub proof fn lemma_prefix_monotone(fields: Fields, a: int, b: int)
    requires
        0 <= a <= b <= fields.len(),
    ensures
        prefix_length(fields, a) <= prefix_length(fields, b),
    decreases b - a,
{
    if a < b {
        lemma_prefix_monotone(fields, a, b - 1);
    }
}

/// Prefix sums of `fields.push(x)` agree with those of `fields` up to its length.
pub proof fn lemma_prefix_push(fields: Fields, x: (String, DataStructure), n: int)
    requires
        0 <= n <= fields.len(),
    ensures
        prefix_length(fields.push(x), n) == prefix_length(fields, n),
    decreases n,
{
    if n > 0 {
        lemma_prefix_push(fields, x, n - 1);
    }
}

} // verus!

verus! {

/// Length that a new field takes: one element for an array, else as given.
pub open spec fn new_field_length(length: nat, data_type: DataType, inner: Option<Layout>) -> nat {
    if data_type == DataType::Array && inner is Some {
        total_length(inner->0.fields@)
    } else {
        length
    }
}

/// The error that adding a field to `fields` meets, if any, in the order the
/// builder checks them.
pub open spec fn structure_error(
    fields: Fields,
    name: Seq<char>,
    length: nat,
    data_type: DataType,
    inner: Option<Layout>,
) -> Option<ProtocolError> {
    if has_dynamic(fields) {
        Some(ProtocolError::DynamicNotLast)
    } else if has_name(fields, name) {
        Some(ProtocolError::DuplicateName)
    } else if data_type == DataType::Array && (inner is None || inner->0.fields@.len() == 0) {
        Some(ProtocolError::EmptyArrayLayout)
    } else if data_type == DataType::Array && !fixed_only(inner->0.fields@) {
        Some(ProtocolError::WrongFieldKind)
    } else if data_type == DataType::Array && total_length(inner->0.fields@) == 0 {
        Some(ProtocolError::EmptyArrayLayout)
    } else if total_length(fields) + new_field_length(length, data_type, inner) > usize::MAX {
        Some(ProtocolError::LengthMismatch)
    } else {
        None
    }
}

/// Builds a layout one field at a time.
pub struct DataStructuresFactory {
    structures: Layout,
}

impl DataStructuresFactory {
    /// The fields added so far form a valid layout.
    pub closed spec fn wf(&self) -> bool {
        self.structures.wf()
    }

    /// The fields added so far.
    pub closed spec fn spec_fields(&self) -> Fields {
        self.structures.fields@
    }

    pub fn new() -> (r: DataStructuresFactory)
        ensures
            r.wf(),
            r.spec_fields() == Seq::<(String, DataStructure)>::empty(),
    {
        DataStructuresFactory { structures: Layout { fields: Vec::new() } }
    }

    /// Adds a field after the ones added so far. An array field takes the
    /// layout of one element, and its length is the size of that element.
    pub fn structure(
        &mut self,
        name_literal: &str,
        length: usize,
        data_type: DataType,
        array_structure: Option<Layout>,
    ) -> (r: Result<(), ProtocolError>)
        requires
            old(self).wf(),
            array_structure is Some ==> array_structure->0.wf(),
        ensures
            final(self).wf(),
            r is Err <==> structure_error(
                old(self).spec_fields(),
                name_literal@,
                length as nat,
                data_type,
                array_structure,
            ) is Some,
            r is Err ==> r->Err_0 == structure_error(
                old(self).spec_fields(),
                name_literal@,
                length as nat,
                data_type,
                array_structure,
            )->0 && final(self).spec_fields() == old(self).spec_fields(),
            r is Ok ==> {
                let old_fields = old(self).spec_fields();
                let new_fields = final(self).spec_fields();
                let added = new_fields.last().1;
                &&& new_fields.len() == old_fields.len() + 1
                &&& new_fields.subrange(0, old_fields.len() as int) == old_fields
                &&& new_fields.last().0@ == name_literal@
                &&& added.data_type == data_type
                &&& added.start_byte == total_length(old_fields)
                &&& added.length == new_field_length(length as nat, data_type, array_structure)
                &&& added.array_structure == (if data_type == DataType::Array {
                    array_structure
                } else {
                    None
                })
            },
    {
        let ghost old_fields = self.structures.fields@;
        if self.has_dynamic_data() {
            return Err(ProtocolError::DynamicNotLast);
        }
        if find_field(&self.structures.fields, name_literal).is_some() {
            return Err(ProtocolError::DuplicateName);
        }
        let mut inner: Option<Layout> = None;
        let mut length_calc: usize = length;
        if data_type == DataType::Array {
            match array_structure {
                None => {
                    return Err(ProtocolError::EmptyArrayLayout);
                },
                Some(a) => {
                    if a.fields.len() == 0 {
                        return Err(ProtocolError::EmptyArrayLayout);
                    }
                    if !all_fixed(&a) {
                        return Err(ProtocolError::WrongFieldKind);
                    }
                    length_calc = get_protocol_total_length(&a);
                    if length_calc == 0 {
                        return Err(ProtocolError::EmptyArrayLayout);
                    }
                    inner = Some(a);
                },
            }
        }
        let start_byte = self.calculate_start_byte();
        if length_calc > usize::MAX - start_byte {
            return Err(ProtocolError::LengthMismatch);
        }
        let entry = (
            name_literal.to_owned(),
            DataStructure {
                data_type,
                start_byte,
                length: length_calc,
                array_structure: inner,
            },
        );
        let ghost new_fields = old_fields.push(entry);
        proof {
            assert forall|i: int| 0 <= i <= old_fields.len() implies prefix_length(new_fields, i)
                == prefix_length(old_fields, i) by {
                lemma_prefix_push(old_fields, entry, i);
            }
            assert(prefix_length(new_fields, new_fields.len() as int) == total_length(old_fields)
                + length_calc);
            assert forall|i: int, j: int| 0 <= i < j < new_fields.len() implies new_fields[i].0@
                != new_fields[j].0@ by {
                if j < old_fields.len() {
                    assert(old_fields[i].0@ != old_fields[j].0@);
                } else {
                    assert(old_fields[i].0@ != name_literal@);
                }
            }
            assert forall|i: int| 0 <= i < new_fields.len() - 1 implies !is_dynamic(
                #[trigger] new_fields[i].1.data_type,
            ) by {
                assert(old_fields[i] == new_fields[i]);
                if is_dynamic(old_fields[i].1.data_type) {
                    assert(has_dynamic(old_fields));
                }
            }
            assert forall|i: int| 0 <= i < new_fields.len() implies #[trigger] new_fields[i].1.start_byte
                == prefix_length(new_fields, i) by {
                if i < old_fields.len() {
                    assert(old_fields[i] == new_fields[i]);
                }
            }
            assert forall|i: int| 0 <= i < new_fields.len() implies ((
            #[trigger] new_fields[i].1.data_type == DataType::Array) == (
            new_fields[i].1.array_structure is Some)) && (new_fields[i].1.data_type
                == DataType::Array ==> element_layout_ok(new_fields[i].1)) by {
                if i < old_fields.len() {
                    assert(old_fields[i] == new_fields[i]);
                } else if data_type == DataType::Array {
                    let inner_fields = array_structure->0.fields@;
                    assert forall|k: int| 0 <= k < inner_fields.len() implies (
                    #[trigger] inner_fields[k].1.array_structure) is None by {
                        assert(is_fixed(inner_fields[k].1.data_type));
                    }
                }
            }
        }
        self.structures.fields.push(entry);
        assert(self.structures.fields@ == new_fields);
        assert(new_fields.subrange(0, old_fields.len() as int) =~= old_fields);
        Ok(())
    }

    /// The layout built so far; the factory is left empty.
    pub fn get_structures(&mut self) -> (r: Layout)
        requires
            old(self).wf(),
        ensures
            final(self).wf(),
            r.wf(),
            r.fields@ == old(self).spec_fields(),
            final(self).spec_fields() == Seq::<(String, DataStructure)>::empty(),
    {
        let mut empty = Layout { fields: Vec::new() };
        std::mem::swap(&mut self.structures, &mut empty);
        empty
    }

    /// Whether an array or a dynamic string has been added.
    fn has_dynamic_data(&self) -> (r: bool)
        ensures
            r == has_dynamic(self.spec_fields()),
    {
        let fields = &self.structures.fields;
        assert(fields@ == self.structures.fields@);
        let mut i: usize = 0;
        while i < fields.len()
            invariant
                fields@ == self.structures.fields@,
                i <= fields@.len(),
                forall|j: int| 0 <= j < i ==> !is_dynamic(#[trigger] fields@[j].1.data_type),
            decreases fields@.len() - i,
        {
            let t = fields[i].1.data_type;
            assert(t == fields@[i as int].1.data_type);
            match t {
                DataType::DynamicString => {
                    assert(is_dynamic(fields@[i as int].1.data_type));
                    return true;
                },
                DataType::Array => {
                    assert(is_dynamic(fields@[i as int].1.data_type));
                    return true;
                },
                _ => {},
            }
            i = i + 1;
        }
        false
    }

    /// Where the next field starts.
    fn calculate_start_byte(&self) -> (r: usize)
        requires
            self.wf(),
        ensures
            r == total_length(self.spec_fields()),
    {
        get_protocol_total_length(&self.structures)
    }
}

/// Whether every field of a layout has a fixed width.
fn all_fixed(layout: &Layout) -> (r: bool)
    ensures
        r == fixed_only(layout.fields@),
{
    let fields = &layout.fields;
    assert(fields@ == layout.fields@);
    let mut i: usize = 0;
    while i < fields.len()
        invariant
            fields@ == layout.fields@,
            i <= fields@.len(),
            forall|j: int| 0 <= j < i ==> is_fixed(#[trigger] fields@[j].1.data_type),
        decreases fields@.len() - i,
    {
        let t = fields[i].1.data_type;
        assert(t == fields@[i as int].1.data_type);
        match t {
            DataType::Number => {},
            DataType::FixedString => {},
            _ => {
                assert(!is_fixed(fields@[i as int].1.data_type));
                return false;
            },
        }
        i = i + 1;
    }
    true
}

/// A field can never follow an array or a dynamic string.
pub proof fn lemma_field_after_dynamic_rejected(
    fields: Fields,
    name: Seq<char>,
    length: nat,
    data_type: DataType,
    inner: Option<Layout>,
)
    requires
        exists|i: int| 0 <= i < fields.len() && is_dynamic(#[trigger] fields[i].1.data_type),
    ensures
        structure_error(fields, name, length, data_type, inner) == Some(ProtocolError::DynamicNotLast),
{
}

} // verus!
