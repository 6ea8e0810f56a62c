//! Symbol tables, and symbols with their names resolved.
use vstd::prelude::*;

use super::bytes::{read_u16, read_u32, read_u64, read_u8, spec_u16_le, spec_u32_le, spec_u64_le};
use super::header::{Headers, SectionHeader};
use super::record::{
    get_record, lemma_first_index_skip, parse_entries, spec_entries, spec_first_index, Record,
};
use super::string::{spec_str_at, StringTable};
use super::{Error, SymbolTableIndex, SHT_DYNSYM, SHT_SYMTAB};

verus! {

/// The type of symbol that a packed info byte names: its low four bits.
pub open spec fn spec_info_type(info: u8) -> u8 {
    info & 0xf
}

/// The binding that a packed info byte names: its high four bits.
pub open spec fn spec_info_bind(info: u8) -> u8 {
    info >> 4
}

/// The two halves of an info byte make up the byte: the binding counts
/// units of 16, the type is what is left.
pub proof fn lemma_info_split(info: u8)
    ensures
        spec_info_type(info) == info % 16,
        spec_info_bind(info) == info / 16,
        info == spec_info_bind(info) * 16 + spec_info_type(info),
{
    assert(info & 0xf == info % 16) by (bit_vector);
    assert(info >> 4 == info / 16) by (bit_vector);
}

/// A symbol as it lies in a symbol table.
#[derive(Debug, Clone, Copy, PartialEq, Eq, Structural)]
pub struct Symbol {
    pub st_name: SymbolTableIndex,
    pub st_info: u8,
    pub st_other: u8,
    pub st_shndx: u16,
    pub st_value: u64,
    pub st_size: u64,
}

impl Symbol {
    /// The offset of the symbol's name in the string table.
    pub fn get_name(&self) -> (r: SymbolTableIndex)
        ensures
            r == self.st_name,
    {
        self.st_name
    }

    /// The numeric code of the symbol's type.
    pub fn get_type(&self) -> (r: u8)
        ensures
            r == spec_info_type(self.st_info),
            r == self.st_info % 16,
    {
        proof {
            lemma_info_split(self.st_info);
        }
        self.st_info & 0xf
    }

    /// The numeric code of the symbol's binding.
    pub fn get_bind(&self) -> (r: u8)
        ensures
            r == spec_info_bind(self.st_info),
            r == self.st_info / 16,
    {
        proof {
            lemma_info_split(self.st_info);
        }
        self.st_info >> 4
    }

    /// The symbol's value: an address or an absolute value.
    pub fn get_value(&self) -> (r: u64)
        ensures
            r == self.st_value,
    {
        self.st_value
    }

    /// The size of what the symbol names.
    pub fn get_size(&self) -> (r: u64)
        ensures
            r == self.st_size,
    {
        self.st_size
    }
}

impl Record for Symbol {
    /// A symbol occupies 24 bytes.
    open spec fn spec_size() -> nat {
        24
    }

    open spec fn spec_decode(bytes: Seq<u8>) -> Symbol {
        Symbol {
            st_name: spec_u32_le(bytes, 0),
            st_info: bytes[4],
            st_other: bytes[5],
            st_shndx: spec_u16_le(bytes, 6),
            st_value: spec_u64_le(bytes, 8),
            st_size: spec_u64_le(bytes, 16),
        }
    }

    fn size() -> (n: u64) {
        24
    }

    fn decode(bytes: &[u8], offset: usize) -> (r: Symbol) {
        let record = get_record(bytes, offset, 24);
        Symbol {
            st_name: read_u32(record, 0),
            st_info: read_u8(record, 4),
            st_other: read_u8(record, 5),
            st_shndx: read_u16(record, 6),
            st_value: read_u64(record, 8),
            st_size: read_u64(record, 16),
        }
    }
}

/// A symbol with its name resolved.
#[derive(Debug, Clone, Copy, PartialEq, Eq)]
pub struct ElfSymbol<'a> {
    pub name: &'a str,
    pub info: u8,
    pub other: u8,
    pub shndx: u16,
    pub value: u64,
    pub size: u64,
}

/// What a resolved symbol holds, as plain values.
pub struct ElfSymbolView {
    pub name: Seq<char>,
    pub info: u8,
    pub other: u8,
    pub shndx: u16,
    pub value: u64,
    pub size: u64,
}

impl<'a> View for ElfSymbol<'a> {
    type V = ElfSymbolView;

    open spec fn view(&self) -> ElfSymbolView {
        ElfSymbolView {
            name: self.name@,
            info: self.info,
            other: self.other,
            shndx: self.shndx,
            value: self.value,
            size: self.size,
        }
    }
}

/// The name of a symbol whose name lies at `index` in a string table with
/// the content `strings`. The name at index 0 is the empty name, whatever
/// the table holds. Any other is the string at `index`, which must exist
/// and be valid UTF-8.
pub open spec fn spec_symbol_name(strings: Seq<u8>, index: u32) -> Result<Seq<char>, Error> {
    if index == 0 {
        Ok(Seq::empty())
    } else {
        spec_str_at(strings, index as int)
    }
}

/// The symbol `symbol` with its name resolved against a string table with
/// the content `strings`.
pub open spec fn spec_elf_symbol(strings: Seq<u8>, symbol: Symbol) -> Result<
    ElfSymbolView,
    Error,
> {
    match spec_symbol_name(strings, symbol.st_name) {
        Err(e) => Err(e),
        Ok(name) => Ok(
            ElfSymbolView {
                name,
                info: symbol.st_info,
                other: symbol.st_other,
                shndx: symbol.st_shndx,
                value: symbol.st_value,
                size: symbol.st_size,
            },
        ),
    }
}

/// Whether the name of the symbol `symbol` does not resolve against a
/// string table with the content `strings`.
pub open spec fn spec_unresolved(strings: Seq<u8>) -> spec_fn(Symbol) -> bool {
    |symbol: Symbol| spec_elf_symbol(strings, symbol) is Err
}

/// What a symbol table holds, as plain values.
pub struct SymbolTableView {
    /// The bytes of the string table that holds the symbols' names.
    pub strings: Seq<u8>,
    /// The symbols, in table order.
    pub symbols: Seq<Symbol>,
}

/// The symbols of a symbol table, with the string table that names them.
#[derive(Debug, Clone)]
pub struct SymbolTable<'a> {
    string_table: StringTable<'a>,
    symbols: Vec<Symbol>,
}

impl<'a> View for SymbolTable<'a> {
    type V = SymbolTableView;

    closed spec fn view(&self) -> SymbolTableView {
        SymbolTableView { strings: self.string_table@, symbols: self.symbols@ }
    }
}

impl<'a> SymbolTable<'a> {
    /// What parsing the section `hdr` of a buffer with the content `buf`
    /// gives, `sections` being the section headers of the object:
    /// `sh_size / sh_entsize` symbols read from the section's bytes, with
    /// the string table that `sh_link` names; or the first of these that
    /// applies: the section is no symbol table; its bytes do not lie within
    /// the buffer; it is empty; `sh_link` names no section; the section
    /// that it names does not parse as a string table; the entry size is
    /// zero or the symbols do not lie within the section.
    pub open spec fn spec_parse(buf: Seq<u8>, sections: Seq<SectionHeader>, hdr: SectionHeader)
        -> Result<SymbolTableView, Error> {
        if hdr.sh_type != SHT_SYMTAB && hdr.sh_type != SHT_DYNSYM {
            Err(Error::WrongKind)
        } else if !hdr.spec_in_bounds(buf.len()) {
            Err(Error::OutOfBounds)
        } else if hdr.sh_size == 0 {
            Err(Error::MalformedTable)
        } else if hdr.sh_link >= sections.len() {
            Err(Error::UnresolvedLink)
        } else {
            match StringTable::spec_parse(buf, sections[hdr.sh_link as int]) {
                Err(e) => Err(e),
                Ok(strings) => match spec_entries::<Symbol>(
                    hdr.spec_section_buffer(buf),
                    hdr.sh_entsize,
                ) {
                    Err(e) => Err(e),
                    Ok(symbols) => Ok(SymbolTableView { strings, symbols }),
                },
            }
        }
    }

    /// Reads the symbol table that lies in the section `hdr` of the file
    /// `buf`, and the string table that its link names among the sections
    /// of `elf`.
    pub fn parse(buf: &'a [u8], elf: &Headers, hdr: &SectionHeader) -> (r: Result<
        SymbolTable<'a>,
        Error,
    >)
        ensures
            match r {
                Ok(table) => Self::spec_parse(buf@, elf.section_headers@, *hdr) == Ok::<
                    SymbolTableView,
                    Error,
                >(table@),
                Err(e) => Self::spec_parse(buf@, elf.section_headers@, *hdr) == Err::<
                    SymbolTableView,
                    Error,
                >(e),
            },
            r is Ok ==> r.unwrap()@.symbols.len() == hdr.sh_size as nat / hdr.sh_entsize as nat,
    {
        if hdr.sh_type != SHT_SYMTAB && hdr.sh_type != SHT_DYNSYM {
            return Err(Error::WrongKind);
        }
        let bytes = match hdr.get_section_buffer(buf) {
            Ok(bytes) => bytes,
            Err(e) => {
                return Err(e);
            },
        };
        if bytes.len() == 0 {
            return Err(Error::MalformedTable);
        }
        let strings_hdr = match elf.get_section_header_by_index(hdr.sh_link as usize) {
            Some(strings_hdr) => strings_hdr,
            None => {
                return Err(Error::UnresolvedLink);
            },
        };
        let string_table = match StringTable::parse(buf, strings_hdr) {
            Ok(table) => table,
            Err(e) => {
                return Err(e);
            },
        };
        match parse_entries::<Symbol>(bytes, hdr.sh_entsize) {
            Ok(symbols) => Ok(SymbolTable { string_table, symbols }),
            Err(e) => Err(e),
        }
    }

    /// The number of symbols.
    pub fn len(&self) -> (n: usize)
        ensures
            n == self@.symbols.len(),
    {
        self.symbols.len()
    }

    /// The symbol at `index`. Fails with `IndexOutOfRange` where `index` is
    /// not below the number of symbols.
    pub fn get_symbol(&self, index: usize) -> (r: Result<&Symbol, Error>)
        ensures
            index < self@.symbols.len() ==> r == Ok::<&Symbol, Error>(
                &self@.symbols[index as int],
            ),
            index >= self@.symbols.len() ==> r == Err::<&Symbol, Error>(Error::IndexOutOfRange),
    {
        if index >= self.symbols.len() {
            return Err(Error::IndexOutOfRange);
        }
        Ok(&self.symbols[index])
    }

    /// The symbol at `index` with its name resolved. Fails with
    /// `IndexOutOfRange` where `index` is not below the number of symbols,
    /// and as `convert_symbol` does where the name does not resolve.
    pub fn get_elf_symbol(&self, index: usize) -> (r: Result<ElfSymbol<'a>, Error>)
        ensures
            index >= self@.symbols.len() ==> r is Err && r->Err_0 == Error::IndexOutOfRange,
            index < self@.symbols.len() ==> match r {
                Ok(resolved) => spec_elf_symbol(self@.strings, self@.symbols[index as int]) == Ok::<
                    ElfSymbolView,
                    Error,
                >(resolved@),
                Err(e) => spec_elf_symbol(self@.strings, self@.symbols[index as int]) == Err::<
                    ElfSymbolView,
                    Error,
                >(e),
            },
    {
        if index >= self.symbols.len() {
            return Err(Error::IndexOutOfRange);
        }
        self.convert_symbol(&self.symbols[index])
    }

    /// `symbol` with its name resolved against the table's string table.
    ///
    /// A name index of 0 gives the empty name without a lookup. For any
    /// other, fails with the error of the lookup where the string table
    /// holds no string there, and with `InvalidString` where the string is
    /// not valid UTF-8.
    pub fn convert_symbol(&self, symbol: &Symbol) -> (r: Result<ElfSymbol<'a>, Error>)
        ensures
            match r {
                Ok(resolved) => spec_elf_symbol(self@.strings, *symbol) == Ok::<
                    ElfSymbolView,
                    Error,
                >(resolved@),
                Err(e) => spec_elf_symbol(self@.strings, *symbol) == Err::<ElfSymbolView, Error>(
                    e,
                ),
            },
    {
        let name: &'a str = if symbol.st_name == 0 {
            proof {
                reveal_strlit("");
            }
            assert(""@ =~= Seq::<char>::empty());
            ""
        } else {
            match self.string_table.get_str(symbol.st_name as usize) {
                Ok(name) => name,
                Err(e) => {
                    return Err(e);
                },
            }
        };
        Ok(
            ElfSymbol {
                name,
                info: symbol.st_info,
                other: symbol.st_other,
                shndx: symbol.st_shndx,
                value: symbol.st_value,
                size: symbol.st_size,
            },
        )
    }

    /// Every symbol, in table order.
    pub fn iter(&self) -> (r: &[Symbol])
        ensures
            r@ == self@.symbols,
    {
        self.symbols.as_slice()
    }

    /// Every symbol with its name resolved, in table order. Fails with the
    /// error of the first symbol whose name does not resolve.
    pub fn symbols_iter(&self) -> (r: Result<Vec<ElfSymbol<'a>>, Error>)
        ensures
            match spec_first_index(self@.symbols, spec_unresolved(self@.strings), 0) {
                Some(i) => r is Err && spec_elf_symbol(self@.strings, self@.symbols[i]) == Err::<
                    ElfSymbolView,
                    Error,
                >(r->Err_0),
                None => {
                    &&& r is Ok
                    &&& r->Ok_0@.len() == self@.symbols.len()
                    &&& forall|i: int|
                        0 <= i < self@.symbols.len() ==> spec_elf_symbol(
                            self@.strings,
                            self@.symbols[i],
                        ) == Ok::<ElfSymbolView, Error>((#[trigger] r->Ok_0@[i])@)
                },
            },
    {
        let mut resolved: Vec<ElfSymbol<'a>> = Vec::new();
        let mut i: usize = 0;
        while i < self.symbols.len()
            invariant
                i <= self.symbols@.len(),
                resolved@.len() == i,
                forall|j: int|
                    0 <= j < i ==> !spec_unresolved(self@.strings)(#[trigger] self@.symbols[j]),
                forall|j: int|
                    0 <= j < i ==> spec_elf_symbol(self@.strings, self@.symbols[j]) == Ok::<
                        ElfSymbolView,
                        Error,
                    >((#[trigger] resolved@[j])@),
            decreases self.symbols@.len() - i,
        {
            proof {
                lemma_first_index_skip(
                    self@.symbols,
                    spec_unresolved(self@.strings),
                    0,
                    i as int,
                );
            }
            match self.convert_symbol(&self.symbols[i]) {
                Ok(symbol) => {
                    resolved.push(symbol);
                },
                Err(e) => {
                    return Err(e);
                },
            }
            i = i + 1;
        }
        proof {
            lemma_first_index_skip(self@.symbols, spec_unresolved(self@.strings), 0, i as int);
        }
        Ok(resolved)
    }
}

} // verus!
