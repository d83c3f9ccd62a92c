use vstd::prelude::*;
use crate::reader::{Endian, Reader, cstr_at, printable_byte, uint_at};
use crate::result::{Error, Result};
use crate::thread_command::{Field, fields_view};

verus! {

/// The text of the name stored at `off`: its zero-terminated bytes, each shown as printable.
pub open spec fn name_text(b: Seq<u8>, off: int) -> Seq<char> {
    cstr_at(b, off).map_values(|c: u8| printable_byte(c) as char)
}

/// A string of a string table, kept as its absolute offset and read only when asked for.
pub struct LcStr {
    pub file_offset: u64,
}

impl LcStr {
    /// Reads the zero-terminated string at `file_offset`. Reading it again over the same
    /// bytes gives the same text.
    pub fn resolve(&self, reader: &mut Reader) -> (r: Result<String>)
        ensures
            final(reader).data() == old(reader).data(),
            self.file_offset <= old(reader).data().len() ==> (r matches Ok(s) && s@ == name_text(
                old(reader).data(),
                self.file_offset as int,
            )),
            self.file_offset > old(reader).data().len() ==> r matches Err(Error::BadBufferLength),
    {
        match reader.seek(self.file_offset) {
            Ok(_) => reader.read_zero_terminated_string(),
            Err(e) => Err(e),
        }
    }
}

/// The value of a symbol: four bytes in a 32-bit image, eight in a 64-bit one.
#[derive(Debug)]
pub enum Nvalue {
    U32(u32),
    U64(u64),
}

impl Nvalue {
    /// The value as a number.
    pub open spec fn value(&self) -> nat {
        match self {
            Nvalue::U32(v) => *v as nat,
            Nvalue::U64(v) => *v as nat,
        }
    }

    /// The value as one field named after its width.
    pub fn all_fields(&self) -> (r: Vec<Field>)
        ensures
            fields_view(r@) == seq![
                (
                    match self {
                        Nvalue::U32(_) => "u32"@,
                        Nvalue::U64(_) => "u64"@,
                    },
                    self.value(),
                ),
            ],
    {
        let field = match self {
            Nvalue::U32(val) => Field { name: "u32", value: *val as u64 },
            Nvalue::U64(val) => Field { name: "u64", value: *val },
        };
        let fields = vec![field];
        assert(fields_view(fields@) =~= seq![(field.name@, field.value as nat)]);
        fields
    }
}

/// A symbol table entry (`nlist` / `nlist_64`); its name is kept as a string-table offset.
pub struct Nlist {
    /// Index of the name in the string table.
    pub n_strx: u32,
    pub n_type: u8,
    pub n_sect: u8,
    pub n_desc: u16,
    pub n_value: Nvalue,
    /// The name, at the string table's base plus `n_strx`.
    pub name: LcStr,
}

/// Bytes of a symbol table entry.
pub open spec fn nlist_size(is_64: bool) -> nat {
    if is_64 {
        16
    } else {
        12
    }
}

/// Whether `n` is the entry stored at `p`, for a string table at `stroff`.
pub open spec fn nlist_at(n: Nlist, b: Seq<u8>, p: int, stroff: nat, is_64: bool, e: Endian) -> bool {
    &&& n.n_strx as nat == uint_at(b, p, 4, e)
    &&& n.n_type as nat == uint_at(b, p + 4, 1, e)
    &&& n.n_sect as nat == uint_at(b, p + 5, 1, e)
    &&& n.n_desc as nat == uint_at(b, p + 6, 2, e)
    &&& if is_64 {
        n.n_value is U64 && n.n_value.value() == uint_at(b, p + 8, 8, e)
    } else {
        n.n_value is U32 && n.n_value.value() == uint_at(b, p + 8, 4, e)
    }
    &&& n.name.file_offset == stroff + n.n_strx
}

impl Nlist {
    /// Decodes the entry at the reader's position. Its name is not read: it is kept as the
    /// offset `stroff + n_strx`, which must fit in a `u64`.
    pub fn parse(reader: &mut Reader, stroff: u64, is_64: bool, endian: Endian) -> (r: Result<Nlist>)
        ensures
            final(reader).data() == old(reader).data(),
            old(reader).position() + nlist_size(is_64) <= old(reader).data().len() && stroff
                + uint_at(old(reader).data(), old(reader).position() as int, 4, endian) <= u64::MAX
                ==> (r matches Ok(n) && nlist_at(
                n,
                old(reader).data(),
                old(reader).position() as int,
                stroff as nat,
                is_64,
                endian,
            ) && final(reader).position() == old(reader).position() + nlist_size(is_64)),
            old(reader).position() + nlist_size(is_64) <= old(reader).data().len() && stroff
                + uint_at(old(reader).data(), old(reader).position() as int, 4, endian) > u64::MAX
                ==> r matches Err(Error::BadBufferLength),
            old(reader).position() + nlist_size(is_64) > old(reader).data().len() ==> r matches Err(
                Error::BadBufferLength,
            ),
    {
        let ghost b = reader.data();
        let ghost p = reader.position() as int;
        let n_strx = match reader.read_u32(endian) {
            Ok(v) => v,
            Err(e) => {
                return Err(e);
            },
        };
        let n_type = match reader.read_u8(endian) {
            Ok(v) => v,
            Err(e) => {
                return Err(e);
            },
        };
        let n_sect = match reader.read_u8(endian) {
            Ok(v) => v,
            Err(e) => {
                return Err(e);
            },
        };
        let n_desc = match reader.read_u16(endian) {
            Ok(v) => v,
            Err(e) => {
                return Err(e);
            },
        };
        let n_value = if is_64 {
            match reader.read_u64(endian) {
                Ok(v) => Nvalue::U64(v),
                Err(e) => {
                    return Err(e);
                },
            }
        } else {
            match reader.read_u32(endian) {
                Ok(v) => Nvalue::U32(v),
                Err(e) => {
                    return Err(e);
                },
            }
        };
        let file_offset = match stroff.checked_add(n_strx as u64) {
            Some(o) => o,
            None => {
                return Err(Error::BadBufferLength);
            },
        };
        Ok(Nlist { n_strx, n_type, n_sect, n_desc, n_value, name: LcStr { file_offset } })
    }
}

/// The name of an entry decoded at `p` is the zero-terminated string at the string table's
/// base plus the entry's string index, and it reads the same each time over the same bytes.
pub proof fn lemma_symbol_name(n: Nlist, b: Seq<u8>, p: int, stroff: nat, is_64: bool, e: Endian)
    requires
        nlist_at(n, b, p, stroff, is_64, e),
    ensures
        n.name.file_offset == stroff + uint_at(b, p, 4, e),
        name_text(b, n.name.file_offset as int) == name_text(b, stroff + n.n_strx),
{
}

} // verus!
