use crate::bits::{be_u16, u16_from_be_bytes};
use crate::bytes::{append_bytes, copy_range, fixed_width, utf8_text, text_from_utf8, to_fixed_width};
use crate::layout::{get_field, lemma_lookup_at, lookup, DataStructure, DataType, Fields, Layout, ProtocolError};
use vstd::prelude::*;
use vstd::utf8::encode_utf8;

verus! {

/// The bytes of field `f` in `raw`: a dynamic string runs to the end, other
/// fields take their length; `None` when `raw` is too short.
pub open spec fn field_bytes(raw: Seq<u8>, f: DataStructure) -> Option<Seq<u8>> {
    if f.data_type == DataType::DynamicString {
        if raw.len() >= f.start_byte {
            Some(raw.subrange(f.start_byte as int, raw.len() as int))
        } else {
            None
        }
    } else if raw.len() >= f.start_byte + f.length {
        Some(raw.subrange(f.start_byte as int, f.start_byte + f.length))
    } else {
        None
    }
}

/// The bytes of field `name` of `raw` read with `fields`.
pub open spec fn get_vec_result(fields: Fields, raw: Seq<u8>, name: Seq<char>) -> Result<Seq<u8>, ProtocolError> {
    match lookup(fields, name) {
        None => Err(ProtocolError::StructureNotFound),
        Some(f) => match field_bytes(raw, f) {
            None => Err(ProtocolError::InvalidRawData),
            Some(b) => Ok(b),
        },
    }
}

/// The first byte of a field.
pub open spec fn u8_result(r: Result<Seq<u8>, ProtocolError>) -> Result<u8, ProtocolError> {
    match r {
        Err(e) => Err(e),
        Ok(b) => if b.len() == 0 {
            Err(ProtocolError::LengthMismatch)
        } else {
            Ok(b[0])
        },
    }
}

/// A two-byte field read as a big-endian `u16`.
pub open spec fn u16_result(r: Result<Seq<u8>, ProtocolError>) -> Result<u16, ProtocolError> {
    match r {
        Err(e) => Err(e),
        Ok(b) => if b.len() != 2 {
            Err(ProtocolError::LengthMismatch)
        } else {
            Ok(be_u16(b[0], b[1]) as u16)
        },
    }
}

/// A field read as lossy UTF-8.
pub open spec fn string_result(r: Result<Seq<u8>, ProtocolError>) -> Result<Seq<char>, ProtocolError> {
    match r {
        Err(e) => Err(e),
        Ok(b) => Ok(utf8_text(b)),
    }
}

pub open spec fn has_array_field(fields: Fields) -> bool {
    exists|i: int| 0 <= i < fields.len() && #[trigger] fields[i].1.data_type == DataType::Array
}

/// Where the elements of array field `name` start, and how long one is.
pub open spec fn array_result(fields: Fields, raw: Seq<u8>, name: Seq<char>) -> Result<(nat, nat), ProtocolError> {
    if !has_array_field(fields) {
        Err(ProtocolError::StructureNotFound)
    } else {
        match lookup(fields, name) {
            None => Err(ProtocolError::StructureNotFound),
            Some(f) => if f.data_type != DataType::Array {
                Err(ProtocolError::WrongFieldKind)
            } else if raw.len() < f.start_byte {
                Err(ProtocolError::InvalidRawData)
            } else {
                Ok((f.start_byte as nat, f.length as nat))
            },
        }
    }
}

/// Reads the fields of one layout out of received bytes.
pub struct StructuredData<'a> {
    protocol: &'a Layout,
    raw_data: Vec<u8>,
}

/// Reads the fields of one array element.
pub struct StructuredArray<'a> {
    protocol: &'a Layout,
    raw_data: Vec<u8>,
    array_structure_name: String,
}

/// The elements of an array field, handed out one at a time; a last partial
/// element is never handed out.
pub struct RawArrayData<'a> {
    structure_name: String,
    raw_data: Vec<u8>,
    iterator_index: usize,
    item_size_in_bytes: usize,
    array_structure: &'a Layout,
}

/// The fields of the element layout of array field `name`.
pub open spec fn element_fields(protocol: Layout, name: Seq<char>) -> Result<Fields, ProtocolError> {
    match lookup(protocol.fields@, name) {
        None => Err(ProtocolError::StructureNotFound),
        Some(f) => match f.array_structure {
            None => Err(ProtocolError::EmptyArrayLayout),
            Some(inner) => Ok(inner.fields@),
        },
    }
}

/// The bytes of field `name` of an element of array field `array_name`.
pub open spec fn element_vec_result(
    protocol: Layout,
    array_name: Seq<char>,
    raw: Seq<u8>,
    name: Seq<char>,
) -> Result<Seq<u8>, ProtocolError> {
    match element_fields(protocol, array_name) {
        Err(e) => Err(e),
        Ok(inner) => get_vec_result(inner, raw, name),
    }
}

/// Element `k` of an array body whose elements are `size` bytes long.
pub open spec fn element(data: Seq<u8>, size: nat, k: nat) -> Seq<u8> {
    data.subrange((k * size) as int, ((k + 1) * size) as int)
}

/// The number of whole elements in an array body.
pub open spec fn element_count(data: Seq<u8>, size: nat) -> nat {
    if size == 0 {
        0
    } else {
        data.len() / size
    }
}

impl<'a> StructuredData<'a> {
    pub closed spec fn spec_protocol(&self) -> Layout {
        *self.protocol
    }

    pub closed spec fn spec_raw(&self) -> Seq<u8> {
        self.raw_data@
    }

    pub fn new(protocol: &'a Layout, raw_data: Vec<u8>) -> (r: StructuredData<'a>)
        ensures
            r.spec_protocol() == *protocol,
            r.spec_raw() == raw_data@,
    {
        StructuredData { protocol, raw_data }
    }

    /// Whether the layout has an array field.
    fn has_array_type(&self) -> (r: bool)
        ensures
            r == has_array_field(self.protocol.fields@),
    {
        let fields = &self.protocol.fields;
        let mut i: usize = 0;
        while i < fields.len()
            invariant
                fields@ == self.protocol.fields@,
                i <= fields@.len(),
                forall|j: int| 0 <= j < i ==> #[trigger] fields@[j].1.data_type != DataType::Array,
            decreases fields@.len() - i,
        {
            if fields[i].1.data_type == DataType::Array {
                return true;
            }
            i = i + 1;
        }
        false
    }

    /// The name and the field of the first array field, if any.
    pub fn get_array_key_and_structure(&self) -> (r: Option<(&'a str, &'a DataStructure)>)
        requires
            self.spec_protocol().wf(),
        ensures
            r is None <==> !has_array_field(self.spec_protocol().fields@),
            r matches Some(p) ==> p.1.data_type == DataType::Array && lookup(
                self.spec_protocol().fields@,
                p.0@,
            ) == Some(*p.1),
    {
        let fields = &self.protocol.fields;
        let mut i: usize = 0;
        while i < fields.len()
            invariant
                fields@ == self.protocol.fields@,
                self.protocol.wf(),
                i <= fields@.len(),
                forall|j: int| 0 <= j < i ==> #[trigger] fields@[j].1.data_type != DataType::Array,
            decreases fields@.len() - i,
        {
            if fields[i].1.data_type == DataType::Array {
                proof {
                    lemma_lookup_at(fields@, fields@[i as int].0@, i as int);
                }
                return Some((fields[i].0.as_str(), &fields[i].1));
            }
            i = i + 1;
        }
        None
    }

    /// Replaces the held bytes.
    pub fn insert_data(&mut self, raw_data: Vec<u8>) -> (r: Result<(), ProtocolError>)
        ensures
            r is Ok,
            final(self).spec_raw() == raw_data@,
            final(self).spec_protocol() == old(self).spec_protocol(),
    {
        self.raw_data = raw_data;
        Ok(())
    }

    fn get(&self, structure_name: &str) -> (r: Result<&'a DataStructure, ProtocolError>)
        requires
            self.protocol.wf(),
        ensures
            match r {
                Ok(d) => lookup(self.protocol.fields@, structure_name@) == Some(*d),
                Err(e) => e == ProtocolError::StructureNotFound && lookup(
                    self.protocol.fields@,
                    structure_name@,
                ) is None,
            },
    {
        get_field(self.protocol, structure_name)
    }
}

} // verus!

verus! {

/// What appending a field to held bytes does: the field must start where
/// the held bytes end.
pub open spec fn data_add_result(fields: Fields, raw: Seq<u8>, name: Seq<char>, data: Seq<u8>) -> Result<Seq<u8>, ProtocolError> {
    match lookup(fields, name) {
        None => Err(ProtocolError::StructureNotFound),
        Some(f) => if raw.len() != f.start_byte {
            Err(ProtocolError::OutOfOrder)
        } else {
            Ok(raw + data)
        },
    }
}

/// What appending a string field to held bytes does.
pub open spec fn data_add_string_result(fields: Fields, raw: Seq<u8>, name: Seq<char>, data: Seq<char>) -> Result<Seq<u8>, ProtocolError> {
    match lookup(fields, name) {
        None => Err(ProtocolError::StructureNotFound),
        Some(f) => if f.data_type == DataType::Array || f.data_type == DataType::Number {
            Err(ProtocolError::WrongFieldKind)
        } else if raw.len() != f.start_byte {
            Err(ProtocolError::OutOfOrder)
        } else if f.data_type == DataType::DynamicString {
            Ok(raw + encode_utf8(data))
        } else {
            Ok(raw + fixed_width(encode_utf8(data), f.length as nat))
        },
    }
}

impl<'a> StructuredData<'a> {
    /// Appends the bytes of a field, which must start where the held bytes end.
    pub fn add_vec_data(&mut self, structure_name: &String, raw_data: Vec<u8>) -> (r: Result<(), ProtocolError>)
        requires
            old(self).spec_protocol().wf(),
        ensures
            final(self).spec_protocol() == old(self).spec_protocol(),
            match data_add_result(old(self).spec_protocol().fields@, old(self).spec_raw(), structure_name@, raw_data@) {
                Ok(b) => r is Ok && final(self).spec_raw() == b,
                Err(e) => r == Err::<(), ProtocolError>(e) && final(self).spec_raw() == old(self).spec_raw(),
            },
    {
        let f = self.get(structure_name.as_str())?;
        if self.raw_data.len() != f.start_byte {
            return Err(ProtocolError::OutOfOrder);
        }
        append_bytes(&mut self.raw_data, raw_data.as_slice());
        Ok(())
    }

    /// Appends a string field, which must start where the held bytes end.
    pub fn add_string_data(&mut self, structure_name: &String, data: String) -> (r: Result<(), ProtocolError>)
        requires
            old(self).spec_protocol().wf(),
        ensures
            final(self).spec_protocol() == old(self).spec_protocol(),
            match data_add_string_result(old(self).spec_protocol().fields@, old(self).spec_raw(), structure_name@, data@) {
                Ok(b) => r is Ok && final(self).spec_raw() == b,
                Err(e) => r == Err::<(), ProtocolError>(e) && final(self).spec_raw() == old(self).spec_raw(),
            },
    {
        let f = self.get(structure_name.as_str())?;
        if f.data_type == DataType::Array || f.data_type == DataType::Number {
            return Err(ProtocolError::WrongFieldKind);
        }
        if self.raw_data.len() != f.start_byte {
            return Err(ProtocolError::OutOfOrder);
        }
        let bytes = data.as_str().as_bytes();
        if f.data_type == DataType::DynamicString {
            append_bytes(&mut self.raw_data, bytes);
        } else {
            let fixed = to_fixed_width(bytes, f.length);
            append_bytes(&mut self.raw_data, fixed.as_slice());
        }
        Ok(())
    }

    /// The number of bytes held.
    pub fn raw_count(&self) -> (r: usize)
        ensures
            r == self.spec_raw().len(),
    {
        self.raw_data.len()
    }

    /// The bytes of a field.
    pub fn get_vec_data(&self, structure_name: &str) -> (r: Result<Vec<u8>, ProtocolError>)
        requires
            self.spec_protocol().wf(),
        ensures
            match r {
                Ok(v) => get_vec_result(self.spec_protocol().fields@, self.spec_raw(), structure_name@) == Ok::<Seq<u8>, ProtocolError>(v@),
                Err(e) => get_vec_result(self.spec_protocol().fields@, self.spec_raw(), structure_name@) == Err::<Seq<u8>, ProtocolError>(e),
            },
    {
        let structure = self.get(structure_name)?;
        read_field(self.raw_data.as_slice(), structure)
    }

    /// The first byte of a field.
    pub fn get_u8_data(&self, structure_name: &str) -> (r: Result<u8, ProtocolError>)
        requires
            self.spec_protocol().wf(),
        ensures
            r == u8_result(get_vec_result(self.spec_protocol().fields@, self.spec_raw(), structure_name@)),
    {
        let data = self.get_vec_data(structure_name)?;
        if data.len() == 0 {
            return Err(ProtocolError::LengthMismatch);
        }
        Ok(data[0])
    }

    /// A two-byte field read as a big-endian `u16`.
    pub fn get_u16_data(&self, structure_name: &str) -> (r: Result<u16, ProtocolError>)
        requires
            self.spec_protocol().wf(),
        ensures
            r == u16_result(get_vec_result(self.spec_protocol().fields@, self.spec_raw(), structure_name@)),
    {
        let data = self.get_vec_data(structure_name)?;
        if data.len() != 2 {
            return Err(ProtocolError::LengthMismatch);
        }
        Ok(u16_from_be_bytes(data[0], data[1]))
    }

    /// A field read as UTF-8, invalid sequences replaced.
    pub fn get_string_data(&self, structure_name: &str) -> (r: Result<String, ProtocolError>)
        requires
            self.spec_protocol().wf(),
        ensures
            match r {
                Ok(s) => string_result(get_vec_result(self.spec_protocol().fields@, self.spec_raw(), structure_name@)) == Ok::<Seq<char>, ProtocolError>(s@),
                Err(e) => string_result(get_vec_result(self.spec_protocol().fields@, self.spec_raw(), structure_name@)) == Err::<Seq<char>, ProtocolError>(e),
            },
    {
        let string_vec = self.get_vec_data(structure_name)?;
        Ok(text_from_utf8(string_vec.as_slice()))
    }

    /// The element size and the bytes from where array field `structure` starts.
    fn get_raw_array_data(&self, structure: &DataStructure) -> (r: Result<(usize, Vec<u8>), ProtocolError>)
        ensures
            match r {
                Ok(p) => self.raw_data@.len() >= structure.start_byte && p.0 == structure.length
                    && p.1@ == self.raw_data@.subrange(structure.start_byte as int, self.raw_data@.len() as int),
                Err(e) => e == ProtocolError::InvalidRawData && self.raw_data@.len() < structure.start_byte,
            },
    {
        if self.raw_data.len() < structure.start_byte {
            return Err(ProtocolError::InvalidRawData);
        }
        Ok((structure.length, copy_range(self.raw_data.as_slice(), structure.start_byte, self.raw_data.len())))
    }

    /// The elements of an array field, which run from where the field starts
    /// to the end of the data.
    pub fn get_iterable_array(&self, structure_name: &str) -> (r: Result<RawArrayData<'a>, ProtocolError>)
        requires
            self.spec_protocol().wf(),
        ensures
            match array_result(self.spec_protocol().fields@, self.spec_raw(), structure_name@) {
                Err(e) => r == Err::<RawArrayData<'a>, ProtocolError>(e),
                Ok(p) => r matches Ok(a) && a.wf() && a.spec_index() == 0 && a.spec_item_size() == p.1
                    && a.spec_data() == self.spec_raw().subrange(p.0 as int, self.spec_raw().len() as int)
                    && a.spec_protocol() == self.spec_protocol() && a.spec_name() == structure_name@,
            },
    {
        if !self.has_array_type() {
            return Err(ProtocolError::StructureNotFound);
        }
        let structure = self.get(structure_name)?;
        if structure.data_type != DataType::Array {
            return Err(ProtocolError::WrongFieldKind);
        }
        proof {
            crate::builders::lemma_lookup_element_size(self.protocol, structure_name@);
        }
        let (item_size_in_bytes, array_data) = self.get_raw_array_data(structure)?;
        Ok(RawArrayData {
            structure_name: structure_name.to_owned(),
            raw_data: array_data,
            iterator_index: 0,
            item_size_in_bytes,
            array_structure: self.protocol,
        })
    }
}

/// Reads field `f` out of `raw`.
fn read_field(raw: &[u8], f: &DataStructure) -> (r: Result<Vec<u8>, ProtocolError>)
    ensures
        match field_bytes(raw@, *f) {
            None => r == Err::<Vec<u8>, ProtocolError>(ProtocolError::InvalidRawData),
            Some(b) => r matches Ok(v) && v@ == b,
        },
{
    if f.data_type == DataType::DynamicString {
        if raw.len() < f.start_byte {
            return Err(ProtocolError::InvalidRawData);
        }
        Ok(copy_range(raw, f.start_byte, raw.len()))
    } else {
        if raw.len() < f.start_byte || raw.len() - f.start_byte < f.length {
            return Err(ProtocolError::InvalidRawData);
        }
        Ok(copy_range(raw, f.start_byte, f.start_byte + f.length))
    }
}

impl<'a> RawArrayData<'a> {
    pub closed spec fn spec_data(&self) -> Seq<u8> {
        self.raw_data@
    }

    pub closed spec fn spec_index(&self) -> nat {
        self.iterator_index as nat
    }

    pub closed spec fn spec_item_size(&self) -> nat {
        self.item_size_in_bytes as nat
    }

    pub closed spec fn spec_protocol(&self) -> Layout {
        *self.array_structure
    }

    pub closed spec fn spec_name(&self) -> Seq<char> {
        self.structure_name@
    }

    /// Elements are at least one byte long, and those handed out lie within the data.
    pub closed spec fn wf(&self) -> bool {
        self.item_size_in_bytes > 0 && self.iterator_index * self.item_size_in_bytes <= self.raw_data@.len()
    }

    /// The next whole element, if there is one.
    pub fn next(&mut self) -> (r: Option<StructuredArray<'a>>)
        requires
            old(self).wf(),
        ensures
            final(self).wf(),
            final(self).spec_data() == old(self).spec_data(),
            final(self).spec_item_size() == old(self).spec_item_size(),
            final(self).spec_protocol() == old(self).spec_protocol(),
            final(self).spec_name() == old(self).spec_name(),
            old(self).spec_index() < element_count(old(self).spec_data(), old(self).spec_item_size()) ==> {
                &&& r matches Some(item)
                &&& item.spec_raw() == element(old(self).spec_data(), old(self).spec_item_size(), old(self).spec_index())
                &&& item.spec_protocol() == old(self).spec_protocol()
                &&& item.spec_name() == old(self).spec_name()
                &&& final(self).spec_index() == old(self).spec_index() + 1
            },
            old(self).spec_index() >= element_count(old(self).spec_data(), old(self).spec_item_size()) ==> {
                &&& r is None
                &&& final(self).spec_index() == old(self).spec_index()
            },
    {
        let len = self.raw_data.len();
        assert(self.iterator_index * self.item_size_in_bytes <= len);
        let item_start = self.iterator_index * self.item_size_in_bytes;
        proof {
            let size = self.item_size_in_bytes as int;
            let idx = self.iterator_index as int;
            assert((idx + 1) * size == idx * size + size) by (nonlinear_arith);
            vstd::arithmetic::div_mod::lemma_fundamental_div_mod(len as int, size);
            if idx < len as int / size {
                assert((idx + 1) * size <= (len as int / size) * size) by (nonlinear_arith)
                    requires idx + 1 <= len as int / size, size > 0;
            } else {
                assert(idx * size >= (len as int / size) * size) by (nonlinear_arith)
                    requires idx >= len as int / size, size > 0;
                assert(len as int - (len as int / size) * size < size) by {
                    vstd::arithmetic::div_mod::lemma_mod_bound(len as int, size);
                }
            }
        }
        if len - item_start < self.item_size_in_bytes {
            return None;
        }
        let item_end = item_start + self.item_size_in_bytes;
        assert(item_end <= len);
        let bytes = copy_range(self.raw_data.as_slice(), item_start, item_end);
        self.iterator_index = self.iterator_index + 1;
        proof {
            let size = self.item_size_in_bytes as int;
            let idx = self.iterator_index as int;
            assert(idx * size == (idx - 1) * size + size) by (nonlinear_arith);
        }
        Some(StructuredArray {
            protocol: self.array_structure,
            raw_data: bytes,
            array_structure_name: self.structure_name.clone(),
        })
    }
}

impl<'a> StructuredArray<'a> {
    pub closed spec fn spec_protocol(&self) -> Layout {
        *self.protocol
    }

    pub closed spec fn spec_raw(&self) -> Seq<u8> {
        self.raw_data@
    }

    pub closed spec fn spec_name(&self) -> Seq<char> {
        self.array_structure_name@
    }

    /// One element of array field `array_structure_name` of `protocol`.
    pub fn new(protocol: &'a Layout, raw_data: Vec<u8>, array_structure_name: &str) -> (r: StructuredArray<'a>)
        ensures
            r.spec_protocol() == *protocol,
            r.spec_raw() == raw_data@,
            r.spec_name() == array_structure_name@,
    {
        StructuredArray { protocol, raw_data, array_structure_name: array_structure_name.to_owned() }
    }

    fn get(&self, structure_name: &str) -> (r: Result<&'a DataStructure, ProtocolError>)
        requires
            self.protocol.wf(),
        ensures
            match r {
                Ok(d) => lookup(self.protocol.fields@, structure_name@) == Some(*d),
                Err(e) => e == ProtocolError::StructureNotFound && lookup(self.protocol.fields@, structure_name@) is None,
            },
    {
        get_field(self.protocol, structure_name)
    }

    /// The element layout of the array field.
    fn get_array_structure(&self) -> (r: Result<&'a Layout, ProtocolError>)
        requires
            self.protocol.wf(),
        ensures
            match element_fields(*self.protocol, self.array_structure_name@) {
                Ok(inner) => r matches Ok(l) && l.fields@ == inner && l.wf(),
                Err(e) => r == Err::<&Layout, ProtocolError>(e),
            },
    {
        let structure = self.get(self.array_structure_name.as_str())?;
        match &structure.array_structure {
            None => Err(ProtocolError::EmptyArrayLayout),
            Some(inner) => {
                proof {
                    lemma_element_layout_wf(self.protocol, self.array_structure_name@);
                }
                Ok(inner)
            },
        }
    }

    /// The bytes of a field of the element.
    pub fn get_vec_data(&self, structure_name: &str) -> (r: Result<Vec<u8>, ProtocolError>)
        requires
            self.spec_protocol().wf(),
        ensures
            match r {
                Ok(v) => element_vec_result(self.spec_protocol(), self.spec_name(), self.spec_raw(), structure_name@) == Ok::<Seq<u8>, ProtocolError>(v@),
                Err(e) => element_vec_result(self.spec_protocol(), self.spec_name(), self.spec_raw(), structure_name@) == Err::<Seq<u8>, ProtocolError>(e),
            },
    {
        let array_structure = self.get_array_structure()?;
        let structure = get_field(array_structure, structure_name)?;
        read_field(self.raw_data.as_slice(), structure)
    }

    /// The first byte of a field of the element.
    pub fn get_u8_data(&self, structure_name: &str) -> (r: Result<u8, ProtocolError>)
        requires
            self.spec_protocol().wf(),
        ensures
            r == u8_result(element_vec_result(self.spec_protocol(), self.spec_name(), self.spec_raw(), structure_name@)),
    {
        let data = self.get_vec_data(structure_name)?;
        if data.len() == 0 {
            return Err(ProtocolError::LengthMismatch);
        }
        Ok(data[0])
    }

    /// A two-byte field of the element read as a big-endian `u16`.
    pub fn get_u16_data(&self, structure_name: &str) -> (r: Result<u16, ProtocolError>)
        requires
            self.spec_protocol().wf(),
        ensures
            r == u16_result(element_vec_result(self.spec_protocol(), self.spec_name(), self.spec_raw(), structure_name@)),
    {
        let data = self.get_vec_data(structure_name)?;
        if data.len() != 2 {
            return Err(ProtocolError::LengthMismatch);
        }
        Ok(u16_from_be_bytes(data[0], data[1]))
    }

    /// A field of the element read as UTF-8, invalid sequences replaced.
    pub fn get_string_data(&self, structure_name: &str) -> (r: Result<String, ProtocolError>)
        requires
            self.spec_protocol().wf(),
        ensures
            match r {
                Ok(s) => string_result(element_vec_result(self.spec_protocol(), self.spec_name(), self.spec_raw(), structure_name@)) == Ok::<Seq<char>, ProtocolError>(s@),
                Err(e) => string_result(element_vec_result(self.spec_protocol(), self.spec_name(), self.spec_raw(), structure_name@)) == Err::<Seq<char>, ProtocolError>(e),
            },
    {
        let string_vec = self.get_vec_data(structure_name)?;
        Ok(text_from_utf8(string_vec.as_slice()))
    }
}

/// The element layout of an array field of a valid layout is valid.
pub proof fn lemma_element_layout_wf(protocol: &Layout, name: Seq<char>)
    requires
        protocol.wf(),
        lookup(protocol.fields@, name) matches Some(f) && f.array_structure is Some,
    ensures
        lookup(protocol.fields@, name)->0.array_structure->0.wf(),
{
    let fields = protocol.fields@;
    let c = choose|i: int| 0 <= i < fields.len() && fields[i].0@ == name;
    assert(fields[c].1.array_structure is Some);
    assert(fields[c].1.data_type == DataType::Array);
    let inner = fields[c].1.array_structure->0.fields@;
    assert forall|i: int| 0 <= i < inner.len() implies ((#[trigger] inner[i].1.data_type
        == DataType::Array) == (inner[i].1.array_structure is Some)) by {
        assert(crate::layout::is_fixed(inner[i].1.data_type));
        assert(inner[i].1.array_structure is None);
    }
}

} // verus!
