use crate::bits::u16_to_be_bytes;
use crate::bytes::{append_bytes, fixed_width, to_fixed_width};
use crate::layout::{get_field, lookup, DataStructure, DataType, Fields, Layout, ProtocolError};
use vstd::prelude::*;
use vstd::utf8::encode_utf8;

verus! {

/// What a builder holds: the bytes so far, where the current array element
/// started, and whether it builds array elements.
pub ghost struct BuilderView {
    pub raw: Seq<u8>,
    pub array_start: nat,
    pub is_array: bool,
}

/// Encodes the fields of a layout, in order, into bytes.
pub struct RawDataBuilder {
    raw_data: Vec<u8>,
    array_start_byte: usize,
    is_array: bool,
}

impl View for RawDataBuilder {
    type V = BuilderView;

    closed spec fn view(&self) -> BuilderView {
        BuilderView {
            raw: self.raw_data@,
            array_start: self.array_start_byte as nat,
            is_array: self.is_array,
        }
    }
}

/// Whether field `f` comes next. In array element mode a field that starts at
/// byte 0 opens a new element.
pub open spec fn in_order(b: BuilderView, f: DataStructure) -> bool {
    if b.is_array && f.start_byte == 0 {
        true
    } else {
        b.raw.len() == b.array_start + f.start_byte
    }
}

/// Where the current element starts once field `f` is added.
pub open spec fn next_array_start(b: BuilderView, f: DataStructure) -> nat {
    if b.is_array && f.start_byte == 0 {
        b.raw.len()
    } else {
        b.array_start
    }
}

pub open spec fn appended(b: BuilderView, f: DataStructure, bytes: Seq<u8>) -> BuilderView {
    BuilderView { raw: b.raw + bytes, array_start: next_array_start(b, f), is_array: b.is_array }
}

/// What adding raw bytes to field `name` does.
pub open spec fn add_vec_result(b: BuilderView, fields: Fields, name: Seq<char>, data: Seq<u8>) -> Result<
    BuilderView,
    ProtocolError,
> {
    match lookup(fields, name) {
        None => Err(ProtocolError::StructureNotFound),
        Some(f) => if f.data_type == DataType::Array {
            Err(ProtocolError::WrongFieldKind)
        } else if !in_order(b, f) {
            Err(ProtocolError::OutOfOrder)
        } else if f.data_type != DataType::DynamicString && data.len() != f.length {
            Err(ProtocolError::SizeMismatch)
        } else {
            Ok(appended(b, f, data))
        },
    }
}

/// What adding a string to field `name` does.
pub open spec fn add_string_result(
    b: BuilderView,
    fields: Fields,
    name: Seq<char>,
    data: Seq<char>,
) -> Result<BuilderView, ProtocolError> {
    match lookup(fields, name) {
        None => Err(ProtocolError::StructureNotFound),
        Some(f) => if f.data_type == DataType::Array || f.data_type == DataType::Number {
            Err(ProtocolError::WrongFieldKind)
        } else if !in_order(b, f) {
            Err(ProtocolError::OutOfOrder)
        } else if f.data_type == DataType::DynamicString {
            Ok(appended(b, f, encode_utf8(data)))
        } else {
            Ok(appended(b, f, fixed_width(encode_utf8(data), f.length as nat)))
        },
    }
}

/// Whether array elements may be appended to array field `f` now.
pub open spec fn array_in_order(b: BuilderView, f: DataStructure) -> bool {
    b.raw.len() >= b.array_start + f.start_byte && (b.raw.len() - b.array_start - f.start_byte)
        % (f.length as int) == 0
}

/// What appending whole elements to array field `name` does.
pub open spec fn add_array_result(b: BuilderView, fields: Fields, name: Seq<char>, data: Seq<u8>) -> Result<
    BuilderView,
    ProtocolError,
> {
    match lookup(fields, name) {
        None => Err(ProtocolError::StructureNotFound),
        Some(f) => if f.data_type != DataType::Array {
            Err(ProtocolError::WrongFieldKind)
        } else if data.len() % (f.length as nat) != 0 {
            Err(ProtocolError::ArrayLengthMismatch)
        } else if !array_in_order(b, f) {
            Err(ProtocolError::OutOfOrder)
        } else {
            Ok(BuilderView { raw: b.raw + data, array_start: b.array_start, is_array: b.is_array })
        },
    }
}

pub open spec fn same_result(r: Result<RawDataBuilder, ProtocolError>, s: Result<BuilderView, ProtocolError>) -> bool {
    match r {
        Ok(b) => s == Ok::<BuilderView, ProtocolError>(b@),
        Err(e) => s == Err::<BuilderView, ProtocolError>(e),
    }
}

impl RawDataBuilder {
    /// An empty builder; `is_array` selects array element mode.
    pub fn new(is_array: bool) -> (r: RawDataBuilder)
        ensures
            r@ == (BuilderView { raw: Seq::empty(), array_start: 0, is_array }),
    {
        RawDataBuilder { raw_data: Vec::new(), array_start_byte: 0, is_array }
    }

    /// Whether field `f` comes next (see `in_order`), and where the current
    /// element then starts.
    fn check_order(&self, f: &DataStructure) -> (r: (bool, usize))
        ensures
            r.0 == in_order(self@, *f),
            r.0 ==> r.1 == next_array_start(self@, *f),
    {
        let len = self.raw_data.len();
        if self.is_array && f.start_byte == 0 {
            (true, len)
        } else {
            let ok = len >= self.array_start_byte && len - self.array_start_byte == f.start_byte;
            (ok, self.array_start_byte)
        }
    }

    /// Appends whole elements to an array field. Elements carry no count:
    /// the array runs to the end of the data.
    pub fn add_array_data(self, structure_name_str: &str, structures: &Layout, raw_data: Vec<u8>) -> (r:
        Result<RawDataBuilder, ProtocolError>)
        requires
            structures.wf(),
        ensures
            same_result(r, add_array_result(self@, structures.fields@, structure_name_str@, raw_data@)),
    {
        let f = match get_field(structures, structure_name_str) {
            Ok(f) => f,
            Err(e) => {
                return Err(e);
            },
        };
        if f.data_type != DataType::Array {
            return Err(ProtocolError::WrongFieldKind);
        }
        proof {
            lemma_lookup_element_size(structures, structure_name_str@);
        }
        if raw_data.len() % f.length != 0 {
            return Err(ProtocolError::ArrayLengthMismatch);
        }
        let len = self.raw_data.len();
        if len < self.array_start_byte || len - self.array_start_byte < f.start_byte || (len
            - self.array_start_byte - f.start_byte) % f.length != 0 {
            return Err(ProtocolError::OutOfOrder);
        }
        let mut b = self;
        append_bytes(&mut b.raw_data, raw_data.as_slice());
        Ok(b)
    }

    /// Appends the bytes of a field. A fixed-width field takes exactly its
    /// length; a dynamic string takes any number of bytes.
    pub fn add_vec_data(self, structure_name: &str, structures: &Layout, raw_data: Vec<u8>) -> (r:
        Result<RawDataBuilder, ProtocolError>)
        requires
            structures.wf(),
        ensures
            same_result(r, add_vec_result(self@, structures.fields@, structure_name@, raw_data@)),
    {
        let f = match get_field(structures, structure_name) {
            Ok(f) => f,
            Err(e) => {
                return Err(e);
            },
        };
        if f.data_type == DataType::Array {
            return Err(ProtocolError::WrongFieldKind);
        }
        let (ok, start) = self.check_order(f);
        if !ok {
            return Err(ProtocolError::OutOfOrder);
        }
        if f.data_type != DataType::DynamicString && raw_data.len() != f.length {
            return Err(ProtocolError::SizeMismatch);
        }
        let mut b = self;
        b.array_start_byte = start;
        append_bytes(&mut b.raw_data, raw_data.as_slice());
        Ok(b)
    }

    /// Appends a big-endian `u16` to a field.
    pub fn add_u16_data(self, structure_name: &str, structures: &Layout, data_u16: u16) -> (r: Result<
        RawDataBuilder,
        ProtocolError,
    >)
        requires
            structures.wf(),
        ensures
            same_result(
                r,
                add_vec_result(
                    self@,
                    structures.fields@,
                    structure_name@,
                    seq![(data_u16 / 256) as u8, (data_u16 % 256) as u8],
                ),
            ),
    {
        let (hi, lo) = u16_to_be_bytes(data_u16);
        let v = vec![hi, lo];
        assert(v@ =~= seq![(data_u16 / 256) as u8, (data_u16 % 256) as u8]);
        self.add_vec_data(structure_name, structures, v)
    }

    /// Appends one byte to a field.
    pub fn add_u8_data(self, structure_name: &str, structures: &Layout, data_u8: u8) -> (r: Result<
        RawDataBuilder,
        ProtocolError,
    >)
        requires
            structures.wf(),
        ensures
            same_result(r, add_vec_result(self@, structures.fields@, structure_name@, seq![data_u8])),
    {
        let v = vec![data_u8];
        assert(v@ =~= seq![data_u8]);
        self.add_vec_data(structure_name, structures, v)
    }

    /// Appends the UTF-8 bytes of a string: all of them for a dynamic
    /// string, cut or padded with zero bytes to the length of a fixed one.
    pub fn add_string_data(self, structure_name: &str, structures: &Layout, data: String) -> (r: Result<
        RawDataBuilder,
        ProtocolError,
    >)
        requires
            structures.wf(),
        ensures
            same_result(r, add_string_result(self@, structures.fields@, structure_name@, data@)),
    {
        let f = match get_field(structures, structure_name) {
            Ok(f) => f,
            Err(e) => {
                return Err(e);
            },
        };
        if f.data_type == DataType::Array || f.data_type == DataType::Number {
            return Err(ProtocolError::WrongFieldKind);
        }
        let (ok, start) = self.check_order(f);
        if !ok {
            return Err(ProtocolError::OutOfOrder);
        }
        let bytes = data.as_str().as_bytes();
        let mut b = self;
        b.array_start_byte = start;
        if f.data_type == DataType::DynamicString {
            append_bytes(&mut b.raw_data, bytes);
        } else {
            let fixed = to_fixed_width(bytes, f.length);
            append_bytes(&mut b.raw_data, fixed.as_slice());
        }
        Ok(b)
    }

    /// The bytes built so far; the builder is left empty.
    pub fn get_raw_data(&mut self) -> (r: Vec<u8>)
        ensures
            r@ == old(self)@.raw,
            final(self)@ == (BuilderView { raw: Seq::empty(), ..old(self)@ }),
    {
        let mut out: Vec<u8> = Vec::new();
        std::mem::swap(&mut self.raw_data, &mut out);
        out
    }
}

/// In a valid layout an array field has a positive element size.
pub proof fn lemma_lookup_element_size(layout: &Layout, name: Seq<char>)
    requires
        layout.wf(),
        lookup(layout.fields@, name) is Some,
        lookup(layout.fields@, name)->0.data_type == DataType::Array,
    ensures
        lookup(layout.fields@, name)->0.length > 0,
        lookup(layout.fields@, name)->0.array_structure is Some,
{
    let fields = layout.fields@;
    let c = choose|i: int| 0 <= i < fields.len() && fields[i].0@ == name;
    assert(fields[c].1.data_type == DataType::Array);
}

} // verus!
