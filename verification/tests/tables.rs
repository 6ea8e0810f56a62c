use elf::raw::dynamic::{Dynamic, DynamicTable};
use elf::raw::header::{FileHeader, Headers, Ident, ProgramHeader, SectionHeader};
use elf::raw::record::Record;
use elf::raw::relocation::{info_symbol, info_type, Rel, Rela, RelocationTable};
use elf::raw::string::StringTable;
use elf::raw::symbol::{ElfSymbol, Symbol, SymbolTable};
use elf::raw::{
    Error, DT_NEEDED, DT_NULL, DT_RELA, DT_RELAENT, DT_RELASZ, DT_STRTAB, ELF_MAGIC, PT_DYNAMIC,
    R_AARCH64_RELATIV, SHT_DYNAMIC, SHT_DYNSYM, SHT_RELA, SHT_STRTAB, SHT_SYMTAB,
};

fn section(sh_type: u32, offset: u64, size: u64, link: u32, entsize: u64) -> SectionHeader {
    SectionHeader {
        sh_name: 0,
        sh_type,
        sh_flags: 0,
        sh_addr: 0,
        sh_offset: offset,
        sh_size: size,
        sh_link: link,
        sh_info: 0,
        sh_addralign: 1,
        sh_entsize: entsize,
    }
}

fn encode_section_header(h: &SectionHeader) -> Vec<u8> {
    let mut v = Vec::new();
    v.extend_from_slice(&h.sh_name.to_le_bytes());
    v.extend_from_slice(&h.sh_type.to_le_bytes());
    v.extend_from_slice(&h.sh_flags.to_le_bytes());
    v.extend_from_slice(&h.sh_addr.to_le_bytes());
    v.extend_from_slice(&h.sh_offset.to_le_bytes());
    v.extend_from_slice(&h.sh_size.to_le_bytes());
    v.extend_from_slice(&h.sh_link.to_le_bytes());
    v.extend_from_slice(&h.sh_info.to_le_bytes());
    v.extend_from_slice(&h.sh_addralign.to_le_bytes());
    v.extend_from_slice(&h.sh_entsize.to_le_bytes());
    v
}

fn encode_symbol(s: &Symbol) -> Vec<u8> {
    let mut v = Vec::new();
    v.extend_from_slice(&s.st_name.to_le_bytes());
    v.push(s.st_info);
    v.push(s.st_other);
    v.extend_from_slice(&s.st_shndx.to_le_bytes());
    v.extend_from_slice(&s.st_value.to_le_bytes());
    v.extend_from_slice(&s.st_size.to_le_bytes());
    v
}

fn encode_rela(r: &Rela) -> Vec<u8> {
    let mut v = Vec::new();
    v.extend_from_slice(&r.r_offset.to_le_bytes());
    v.extend_from_slice(&r.r_info.to_le_bytes());
    v.extend_from_slice(&r.r_addend.to_le_bytes());
    v
}

fn encode_dynamic(d: &Dynamic) -> Vec<u8> {
    let mut v = Vec::new();
    v.extend_from_slice(&d.d_tag.to_le_bytes());
    v.extend_from_slice(&d.d_value.to_le_bytes());
    v
}

fn symbol(name: u32, info: u8, shndx: u16, value: u64, size: u64) -> Symbol {
    Symbol { st_name: name, st_info: info, st_other: 0, st_shndx: shndx, st_value: value, st_size: size }
}

const STRINGS: &[u8] = b"\0main\0foo\0\xff\xfe\0tail";
const NAMES: &[u8] = b"\0.shstrtab\0";

fn symbols() -> Vec<Symbol> {
    vec![symbol(0, 0x00, 0, 0, 0), symbol(1, 0x12, 2, 0x4000, 0x20), symbol(6, 0x21, 3, 0x5000, 8)]
}

fn relas() -> Vec<Rela> {
    vec![
        Rela { r_offset: 0x1000, r_info: 0x0000_0007_0000_0403, r_addend: -8 },
        Rela { r_offset: 0x1008, r_info: 0x0000_0001_0000_0101, r_addend: 0x10 },
    ]
}

struct Object {
    buf: Vec<u8>,
    strtab: SectionHeader,
    symtab: SectionHeader,
    rela: SectionHeader,
    dynamic: SectionHeader,
}

/// An object with the sections: null, names, strings, symbols, relocations,
/// dynamic. The dynamic table locates the relocations at the virtual
/// address that is their file offset.
fn object() -> Object {
    let mut body: Vec<u8> = Vec::new();
    let at = |body: &Vec<u8>| 64 + body.len() as u64;
    let names_at = at(&body);
    body.extend_from_slice(NAMES);
    let strings_at = at(&body);
    body.extend_from_slice(STRINGS);
    let symbols_at = at(&body);
    for s in symbols() {
        body.extend_from_slice(&encode_symbol(&s));
    }
    let relas_at = at(&body);
    for r in relas() {
        body.extend_from_slice(&encode_rela(&r));
    }
    let dynamic_at = at(&body);
    let dynamics = vec![
        Dynamic { d_tag: DT_NEEDED, d_value: 1 },
        Dynamic { d_tag: DT_RELA, d_value: relas_at },
        Dynamic { d_tag: DT_RELASZ, d_value: 48 },
        Dynamic { d_tag: DT_RELAENT, d_value: 24 },
        Dynamic { d_tag: DT_RELA, d_value: 0xbad },
        Dynamic { d_tag: DT_NULL, d_value: 0 },
    ];
    for d in &dynamics {
        body.extend_from_slice(&encode_dynamic(d));
    }
    let shoff = at(&body);
    let names = section(SHT_STRTAB, names_at, NAMES.len() as u64, 0, 0);
    let strtab = section(SHT_STRTAB, strings_at, STRINGS.len() as u64, 0, 0);
    let symtab = section(SHT_SYMTAB, symbols_at, 72, 2, 24);
    let rela = section(SHT_RELA, relas_at, 48, 3, 24);
    let dynamic = section(SHT_DYNAMIC, dynamic_at, 16 * dynamics.len() as u64, 2, 16);
    let shs = vec![section(0, 0, 0, 0, 0), names, strtab, symtab, rela, dynamic];
    for sh in &shs {
        body.extend_from_slice(&encode_section_header(sh));
    }
    let mut buf = Vec::new();
    buf.extend_from_slice(&ELF_MAGIC);
    buf.extend_from_slice(&[2, 1, 1, 0, 0, 0, 0, 0, 0, 0, 0, 0]);
    buf.extend_from_slice(&3u16.to_le_bytes());
    buf.extend_from_slice(&0xb7u16.to_le_bytes());
    buf.extend_from_slice(&1u32.to_le_bytes());
    buf.extend_from_slice(&0x4000u64.to_le_bytes());
    buf.extend_from_slice(&0u64.to_le_bytes());
    buf.extend_from_slice(&shoff.to_le_bytes());
    buf.extend_from_slice(&0u32.to_le_bytes());
    buf.extend_from_slice(&64u16.to_le_bytes());
    buf.extend_from_slice(&0x38u16.to_le_bytes());
    buf.extend_from_slice(&0u16.to_le_bytes());
    buf.extend_from_slice(&0x40u16.to_le_bytes());
    buf.extend_from_slice(&(shs.len() as u16).to_le_bytes());
    buf.extend_from_slice(&1u16.to_le_bytes());
    assert_eq!(buf.len(), 64);
    buf.extend_from_slice(&body);
    Object { buf, strtab, symtab, rela, dynamic }
}

fn dynamic_table(entries: &[Dynamic]) -> DynamicTable {
    let mut buf = Vec::new();
    for d in entries {
        buf.extend_from_slice(&encode_dynamic(d));
    }
    let hdr = section(SHT_DYNAMIC, 0, buf.len() as u64, 0, 16);
    DynamicTable::parse_section(&buf, &hdr).unwrap()
}

fn string_table(bytes: &[u8]) -> Result<StringTable<'_>, Error> {
    StringTable::parse(bytes, &section(SHT_STRTAB, 0, bytes.len() as u64, 0, 0))
}

#[test]
fn string_table_must_start_with_nul() {
    assert!(matches!(string_table(b"a\0"), Err(Error::MalformedStringTable)));
    assert!(matches!(string_table(b"\x01"), Err(Error::MalformedStringTable)));
    assert!(string_table(b"\0a\0").is_ok());
}

#[test]
fn string_table_may_be_empty() {
    let table = string_table(b"").unwrap();
    assert_eq!(table.len(), 0);
    assert_eq!(table.get_string(0), Err(Error::IndexOutOfRange));
    assert_eq!(table.get_all_strings(), Vec::<&[u8]>::new());
}

#[test]
fn string_table_of_the_empty_string() {
    let table = string_table(b"\0").unwrap();
    assert_eq!(table.get_string(0), Ok(&b""[..]));
    assert_eq!(table.get_string(1), Err(Error::IndexOutOfRange));
    assert_eq!(table.get_all_strings(), vec![&b""[..]]);
}

#[test]
fn string_table_must_be_a_string_section() {
    let bytes = b"\0a\0";
    assert!(matches!(
        StringTable::parse(bytes, &section(SHT_SYMTAB, 0, 3, 0, 0)),
        Err(Error::WrongKind)
    ));
    assert!(matches!(
        StringTable::parse(bytes, &section(SHT_STRTAB, 1, 3, 0, 0)),
        Err(Error::OutOfBounds)
    ));
    // The kind is checked before the bounds.
    assert!(matches!(
        StringTable::parse(bytes, &section(SHT_SYMTAB, 1, 3, 0, 0)),
        Err(Error::WrongKind)
    ));
}

#[test]
fn string_table_is_the_section_span() {
    let bytes = b"xx\0ab\0yy";
    let table = StringTable::parse(bytes, &section(SHT_STRTAB, 2, 4, 0, 0)).unwrap();
    assert_eq!(table.len(), 4);
    assert_eq!(table.get_string(1), Ok(&b"ab"[..]));
}

#[test]
fn get_string_runs_to_the_next_nul() {
    let table = string_table(STRINGS).unwrap();
    assert_eq!(table.get_string(0), Ok(&b""[..]));
    assert_eq!(table.get_string(1), Ok(&b"main"[..]));
    assert_eq!(table.get_string(3), Ok(&b"in"[..]));
    assert_eq!(table.get_string(5), Ok(&b""[..]));
    assert_eq!(table.get_string(6), Ok(&b"foo"[..]));
    assert_eq!(table.get_string(10), Ok(&b"\xff\xfe"[..]));
}

#[test]
fn get_str_is_the_string_as_text() {
    let table = string_table(STRINGS).unwrap();
    assert_eq!(table.get_str(0), Ok(""));
    assert_eq!(table.get_str(1), Ok("main"));
    assert_eq!(table.get_str(7), Ok("oo"));
    assert_eq!(table.get_str(10), Err(Error::InvalidString));
    assert_eq!(table.get_str(11), Err(Error::InvalidString));
    assert_eq!(table.get_str(13), Err(Error::MalformedStringTable));
    assert_eq!(table.get_str(17), Err(Error::IndexOutOfRange));
}

#[test]
fn get_string_never_leaves_the_table() {
    let table = string_table(STRINGS).unwrap();
    assert_eq!(table.get_string(13), Err(Error::MalformedStringTable));
    assert_eq!(table.get_string(16), Err(Error::MalformedStringTable));
    assert_eq!(table.get_string(17), Err(Error::IndexOutOfRange));
    assert_eq!(table.get_string(usize::MAX), Err(Error::IndexOutOfRange));
}

#[test]
fn all_strings_are_the_terminated_runs() {
    let table = string_table(STRINGS).unwrap();
    assert_eq!(table.get_all_strings(), vec![&b""[..], &b"main"[..], &b"foo"[..], &b"\xff\xfe"[..]]);
    let table = string_table(b"\0\0a\0\0").unwrap();
    assert_eq!(table.get_all_strings(), vec![&b""[..], &b""[..], &b"a"[..], &b""[..]]);
}

#[test]
fn symbol_info_splits_into_type_and_bind() {
    let s = symbol(7, 0x12, 1, 0x99, 0x10);
    assert_eq!(s.get_name(), 7);
    assert_eq!(s.get_type(), 2);
    assert_eq!(s.get_bind(), 1);
    assert_eq!(s.get_value(), 0x99);
    assert_eq!(s.get_size(), 0x10);
    let s = symbol(0, 0xaf, 0, 0, 0);
    assert_eq!(s.get_type(), 0xf);
    assert_eq!(s.get_bind(), 0xa);
}

#[test]
fn symbol_decodes_every_field() {
    let s = Symbol {
        st_name: 0x0102_0304,
        st_info: 0x05,
        st_other: 0x06,
        st_shndx: 0x0708,
        st_value: 0x1112_1314_1516_1718,
        st_size: 0x2122_2324_2526_2728,
    };
    let mut bytes = vec![0u8; 3];
    bytes.extend_from_slice(&encode_symbol(&s));
    assert_eq!(<Symbol as Record>::decode(&bytes, 3), s);
}

#[test]
fn symtab_of_72_bytes_has_3_symbols() {
    let o = object();
    let elf = Headers::parse(&o.buf).unwrap();
    assert_eq!(o.symtab.sh_size, 72);
    assert_eq!(o.symtab.sh_entsize, 24);
    let table = SymbolTable::parse(&o.buf, &elf, &o.symtab).unwrap();
    assert_eq!(table.len(), 3);
    assert_eq!(table.iter(), &symbols()[..]);
    assert_eq!(table.get_symbol(1), Ok(&symbols()[1]));
    assert_eq!(table.get_symbol(2), Ok(&symbols()[2]));
    assert_eq!(table.get_symbol(3), Err(Error::IndexOutOfRange));
}

#[test]
fn symbol_count_is_size_by_entry_size() {
    let o = object();
    let elf = Headers::parse(&o.buf).unwrap();
    let mut hdr = o.symtab;
    hdr.sh_entsize = 36;
    let table = SymbolTable::parse(&o.buf, &elf, &hdr).unwrap();
    assert_eq!(table.len(), 2);
    assert_eq!(table.iter(), &symbols()[..2]);
    hdr.sh_entsize = 73;
    assert_eq!(SymbolTable::parse(&o.buf, &elf, &hdr).unwrap().len(), 0);
    hdr.sh_type = SHT_DYNSYM;
    hdr.sh_size = 48;
    hdr.sh_entsize = 24;
    assert_eq!(SymbolTable::parse(&o.buf, &elf, &hdr).unwrap().len(), 2);
}

#[test]
fn symbol_table_errors() {
    let o = object();
    let elf = Headers::parse(&o.buf).unwrap();
    let err = |hdr: &SectionHeader| SymbolTable::parse(&o.buf, &elf, hdr).err();
    assert_eq!(err(&o.strtab), Some(Error::WrongKind));
    let mut hdr = o.symtab;
    hdr.sh_offset = o.buf.len() as u64 - 71;
    assert_eq!(err(&hdr), Some(Error::OutOfBounds));
    let mut hdr = o.symtab;
    hdr.sh_size = 0;
    assert_eq!(err(&hdr), Some(Error::MalformedTable));
    let mut hdr = o.symtab;
    hdr.sh_link = 6;
    assert_eq!(err(&hdr), Some(Error::UnresolvedLink));
    hdr.sh_link = 3;
    assert_eq!(err(&hdr), Some(Error::WrongKind));
    let mut hdr = o.symtab;
    hdr.sh_entsize = 0;
    assert_eq!(err(&hdr), Some(Error::MalformedTable));
    // 72 / 17 is 4, and four symbols do not lie within 72 bytes.
    hdr.sh_entsize = 17;
    assert_eq!(err(&hdr), Some(Error::MalformedTable));
}

#[test]
fn symbol_link_to_a_malformed_string_table() {
    let o = object();
    let elf = Headers::parse(&o.buf).unwrap();
    let mut buf = o.buf.clone();
    buf[o.strtab.sh_offset as usize] = b'x';
    assert_eq!(
        SymbolTable::parse(&buf, &elf, &o.symtab).err(),
        Some(Error::MalformedStringTable)
    );
}

#[test]
fn elf_symbol_has_its_name_resolved() {
    let o = object();
    let elf = Headers::parse(&o.buf).unwrap();
    let table = SymbolTable::parse(&o.buf, &elf, &o.symtab).unwrap();
    assert_eq!(
        table.get_elf_symbol(1),
        Ok(ElfSymbol { name: "main", info: 0x12, other: 0, shndx: 2, value: 0x4000, size: 0x20 })
    );
    assert_eq!(
        table.get_elf_symbol(2),
        Ok(ElfSymbol { name: "foo", info: 0x21, other: 0, shndx: 3, value: 0x5000, size: 8 })
    );
    assert_eq!(table.get_elf_symbol(3), Err(Error::IndexOutOfRange));
}

#[test]
fn name_index_zero_is_the_empty_name() {
    let o = object();
    let elf = Headers::parse(&o.buf).unwrap();
    let table = SymbolTable::parse(&o.buf, &elf, &o.symtab).unwrap();
    assert_eq!(table.get_elf_symbol(0).unwrap().name, "");
    // No lookup is made: an empty string table has no string at 0.
    let mut strtab = o.strtab;
    strtab.sh_size = 0;
    let mut buf = o.buf.clone();
    let at = buf.len() - 4 * 64;
    buf[at..at + 64].copy_from_slice(&encode_section_header(&strtab));
    let elf = Headers::parse(&buf).unwrap();
    let table = SymbolTable::parse(&buf, &elf, &o.symtab).unwrap();
    assert_eq!(table.get_elf_symbol(0).unwrap().name, "");
    assert_eq!(table.get_elf_symbol(1), Err(Error::IndexOutOfRange));
}

#[test]
fn convert_symbol_reports_why_a_name_does_not_resolve() {
    let o = object();
    let elf = Headers::parse(&o.buf).unwrap();
    let table = SymbolTable::parse(&o.buf, &elf, &o.symtab).unwrap();
    assert_eq!(table.convert_symbol(&symbol(3, 0, 0, 0, 0)).unwrap().name, "in");
    assert_eq!(table.convert_symbol(&symbol(5, 0, 0, 0, 0)).unwrap().name, "");
    assert_eq!(table.convert_symbol(&symbol(10, 0, 0, 0, 0)), Err(Error::InvalidString));
    assert_eq!(table.convert_symbol(&symbol(13, 0, 0, 0, 0)), Err(Error::MalformedStringTable));
    assert_eq!(table.convert_symbol(&symbol(17, 0, 0, 0, 0)), Err(Error::IndexOutOfRange));
    assert_eq!(table.convert_symbol(&symbol(u32::MAX, 0, 0, 0, 0)), Err(Error::IndexOutOfRange));
}

#[test]
fn names_may_be_any_utf8() {
    let strings = "\0gr\u{fc}\u{df}e\0\u{1f980}\0".as_bytes();
    let mut buf = strings.to_vec();
    let symbols_at = buf.len() as u64;
    buf.extend_from_slice(&encode_symbol(&symbol(1, 0, 0, 0, 0)));
    buf.extend_from_slice(&encode_symbol(&symbol(9, 0, 0, 0, 0)));
    let strtab = section(SHT_STRTAB, 0, strings.len() as u64, 0, 0);
    let elf = Headers {
        header: FileHeader {
            e_ident: Ident {
                magic: ELF_MAGIC,
                class: 2,
                data: 1,
                version: 1,
                os_abi: 0,
                abi_version: 0,
                _padding: [0; 7],
            },
            e_type: 1,
            e_machine: 0,
            e_version: 1,
            e_entry: 0,
            e_phoff: 0,
            e_shoff: 0,
            e_flags: 0,
            e_ehsize: 64,
            e_phentsize: 0,
            e_phnum: 0,
            e_shentsize: 0x40,
            e_shnum: 1,
            e_shstrndx: 0,
        },
        program_headers: vec![],
        section_headers: vec![strtab],
        sh_names: StringTable::parse(&buf, &strtab).unwrap(),
    };
    let table =
        SymbolTable::parse(&buf, &elf, &section(SHT_SYMTAB, symbols_at, 48, 0, 24)).unwrap();
    assert_eq!(table.get_elf_symbol(0).unwrap().name, "gr\u{fc}\u{df}e");
    assert_eq!(table.get_elf_symbol(1).unwrap().name, "\u{1f980}");
}

#[test]
fn symbols_iter_resolves_every_symbol() {
    let o = object();
    let elf = Headers::parse(&o.buf).unwrap();
    let table = SymbolTable::parse(&o.buf, &elf, &o.symtab).unwrap();
    let names: Vec<&str> = table.symbols_iter().unwrap().iter().map(|s| s.name).collect();
    assert_eq!(names, vec!["", "main", "foo"]);
    let values: Vec<u64> = table.symbols_iter().unwrap().iter().map(|s| s.value).collect();
    assert_eq!(values, vec![0, 0x4000, 0x5000]);
}

#[test]
fn symbols_iter_fails_with_the_first_error() {
    let o = object();
    let mut buf = o.buf.clone();
    let at = o.symtab.sh_offset as usize;
    // Symbol 1 gets a name that is not UTF-8, symbol 2 one that lies past the table.
    buf[at + 24..at + 28].copy_from_slice(&10u32.to_le_bytes());
    buf[at + 48..at + 52].copy_from_slice(&100u32.to_le_bytes());
    let elf = Headers::parse(&buf).unwrap();
    let table = SymbolTable::parse(&buf, &elf, &o.symtab).unwrap();
    assert_eq!(table.symbols_iter(), Err(Error::InvalidString));
    assert_eq!(table.get_elf_symbol(2), Err(Error::IndexOutOfRange));
}

#[test]
fn rela_info_splits_into_type_and_symbol() {
    let r = Rela { r_offset: 0x10, r_info: 0x0000_0007_0000_0403, r_addend: -3 };
    assert_eq!(r.get_type(), 0x403);
    assert_eq!(r.get_type(), R_AARCH64_RELATIV);
    assert_eq!(r.get_symbol(), 7);
    assert_eq!(r.get_info(), 0x0000_0007_0000_0403);
    assert_eq!(r.get_offset(), 0x10);
    assert_eq!(r.get_addend(), -3);
    assert_eq!(info_type(u64::MAX), u32::MAX);
    assert_eq!(info_symbol(u64::MAX), u32::MAX);
    assert_eq!(info_type(0xffff_ffff_0000_0000), 0);
    assert_eq!(info_symbol(0x0000_0000_ffff_ffff), 0);
}

#[test]
fn rel_info_splits_into_type_and_symbol() {
    let r = Rel { r_offset: 0x20, r_info: 0x0000_0002_0000_0101 };
    assert_eq!(r.get_type(), 0x101);
    assert_eq!(r.get_symbol(), 2);
    assert_eq!(r.get_info(), 0x0000_0002_0000_0101);
    assert_eq!(r.get_offset(), 0x20);
}

#[test]
fn rela_decodes_a_negative_addend() {
    let r = Rela { r_offset: u64::MAX, r_info: 1, r_addend: i64::MIN + 1 };
    assert_eq!(<Rela as Record>::decode(&encode_rela(&r), 0), r);
    let r = Rela { r_offset: 0, r_info: u64::MAX, r_addend: -1 };
    assert_eq!(<Rela as Record>::decode(&encode_rela(&r), 0), r);
}

#[test]
fn relocations_of_a_section() {
    let o = object();
    let table = RelocationTable::<Rela>::parse_section_header(&o.buf, &o.rela).unwrap();
    assert_eq!(table.len(), 2);
    assert_eq!(table.iter(), &relas()[..]);
    assert_eq!(table.get_relocation(0), Ok(&relas()[0]));
    assert_eq!(table.get_relocation(1), Ok(&relas()[1]));
    assert_eq!(table.get_relocation(2), Err(Error::IndexOutOfRange));
    assert_eq!(table.get_relocation(0).unwrap().get_addend(), -8);
}

#[test]
fn relocations_without_addends_of_a_section() {
    let o = object();
    let mut hdr = o.rela;
    hdr.sh_entsize = 16;
    let table = RelocationTable::<Rel>::parse_section_header(&o.buf, &hdr).unwrap();
    assert_eq!(table.len(), 3);
    assert_eq!(table.get_relocation(0), Ok(&Rel { r_offset: 0x1000, r_info: 0x0000_0007_0000_0403 }));
    assert_eq!(
        table.get_relocation(1),
        Ok(&Rel { r_offset: (-8i64) as u64, r_info: 0x1008 })
    );
}

#[test]
fn relocation_section_errors() {
    let o = object();
    let err = |hdr: &SectionHeader| {
        RelocationTable::<Rela>::parse_section_header(&o.buf, hdr).err()
    };
    assert_eq!(err(&o.symtab), Some(Error::WrongKind));
    let mut hdr = o.rela;
    hdr.sh_size = o.buf.len() as u64;
    assert_eq!(err(&hdr), Some(Error::OutOfBounds));
    hdr.sh_size = 0;
    assert_eq!(err(&hdr), Some(Error::MalformedTable));
    let mut hdr = o.rela;
    hdr.sh_entsize = 0;
    assert_eq!(err(&hdr), Some(Error::MalformedTable));
    hdr.sh_entsize = 12;
    assert_eq!(err(&hdr), Some(Error::MalformedTable));
}

#[test]
fn relocations_through_the_dynamic_table() {
    let o = object();
    let dynamic = DynamicTable::parse_section(&o.buf, &o.dynamic).unwrap();
    let table = RelocationTable::<Rela>::parse_rela_dynamic(&o.buf, 0, &dynamic).unwrap();
    assert_eq!(table.iter(), &relas()[..]);
}

#[test]
fn relocations_are_rebased_to_the_load_base() {
    let o = object();
    let dynamic = DynamicTable::parse_section(&o.buf, &o.dynamic).unwrap();
    let mut image = vec![0x55u8; 0x123];
    image.extend_from_slice(&o.buf);
    let table = RelocationTable::<Rela>::parse_rela_dynamic(&image, 0x123, &dynamic).unwrap();
    assert_eq!(table.iter(), &relas()[..]);
    assert_eq!(
        RelocationTable::<Rela>::parse_rela_dynamic(&image, image.len(), &dynamic).err(),
        Some(Error::OutOfBounds)
    );
    assert_eq!(
        RelocationTable::<Rela>::parse_rela_dynamic(&image, usize::MAX, &dynamic).err(),
        Some(Error::OutOfBounds)
    );
}

#[test]
fn dynamic_relocations_need_all_three_entries() {
    let image = vec![0u8; 256];
    let addr = Dynamic { d_tag: DT_RELA, d_value: 16 };
    let size = Dynamic { d_tag: DT_RELASZ, d_value: 48 };
    let ent = Dynamic { d_tag: DT_RELAENT, d_value: 24 };
    let other = Dynamic { d_tag: DT_STRTAB, d_value: 1 };
    let parse = |entries: &[Dynamic]| {
        RelocationTable::<Rela>::parse_rela_dynamic(&image, 0, &dynamic_table(entries))
            .map(|t| t.len())
    };
    assert_eq!(parse(&[addr, size, ent]), Ok(2));
    assert_eq!(parse(&[ent, other, size, addr]), Ok(2));
    assert_eq!(parse(&[other, size, ent]), Err(Error::MissingDynamicEntry));
    assert_eq!(parse(&[addr, other, ent]), Err(Error::MissingDynamicEntry));
    assert_eq!(parse(&[addr, size, other]), Err(Error::MissingDynamicEntry));
    assert_eq!(parse(&[addr]), Err(Error::MissingDynamicEntry));
    assert_eq!(parse(&[other]), Err(Error::MissingDynamicEntry));
}

#[test]
fn dynamic_relocations_are_cross_checked() {
    let image = vec![0u8; 256];
    let parse = |addr: u64, size: u64, ent: u64| {
        let entries = [
            Dynamic { d_tag: DT_RELA, d_value: addr },
            Dynamic { d_tag: DT_RELASZ, d_value: size },
            Dynamic { d_tag: DT_RELAENT, d_value: ent },
        ];
        RelocationTable::<Rela>::parse_rela_dynamic(&image, 8, &dynamic_table(&entries))
            .map(|t| t.len())
    };
    assert_eq!(parse(0, 248, 24), Ok(10));
    assert_eq!(parse(0, 249, 24), Err(Error::OutOfBounds));
    assert_eq!(parse(248, 0, 24), Ok(0));
    assert_eq!(parse(249, 0, 24), Err(Error::OutOfBounds));
    assert_eq!(parse(u64::MAX, 24, 24), Err(Error::OutOfBounds));
    assert_eq!(parse(0, 48, 0), Err(Error::MalformedTable));
    assert_eq!(parse(0, 48, 16), Err(Error::MalformedTable));
    assert_eq!(parse(0, 48, 48), Ok(1));
}

#[test]
fn dynamic_table_of_a_section() {
    let o = object();
    let table = DynamicTable::parse_section(&o.buf, &o.dynamic).unwrap();
    assert_eq!(table.len(), 6);
    assert_eq!(table.get_entry(0), Ok(&Dynamic { d_tag: DT_NEEDED, d_value: 1 }));
    assert_eq!(table.get_entry(5), Ok(&Dynamic { d_tag: DT_NULL, d_value: 0 }));
    assert_eq!(table.get_entry(6), Err(Error::IndexOutOfRange));
    assert_eq!(table.iter().len(), 6);
    assert_eq!(table.iter()[3].get_tag(), DT_RELAENT);
    assert_eq!(table.iter()[3].get_value(), 24);
}

#[test]
fn dynamic_section_errors() {
    let o = object();
    let err = |hdr: &SectionHeader| DynamicTable::parse_section(&o.buf, hdr).err();
    assert_eq!(err(&o.rela), Some(Error::WrongKind));
    let mut hdr = o.dynamic;
    hdr.sh_offset = u64::MAX - 3;
    assert_eq!(err(&hdr), Some(Error::OutOfBounds));
    let mut hdr = o.dynamic;
    hdr.sh_size = 0;
    assert_eq!(err(&hdr), Some(Error::MalformedTable));
    let mut hdr = o.dynamic;
    hdr.sh_entsize = 0;
    assert_eq!(err(&hdr), Some(Error::MalformedTable));
    hdr.sh_entsize = 8;
    assert_eq!(err(&hdr), Some(Error::MalformedTable));
}

#[test]
fn find_entry_is_the_first_with_the_tag() {
    let o = object();
    let table = DynamicTable::parse_section(&o.buf, &o.dynamic).unwrap();
    assert_eq!(
        table.find_entry(DT_RELA),
        Some(&Dynamic { d_tag: DT_RELA, d_value: o.rela.sh_offset })
    );
    assert_eq!(table.find_entry(DT_NULL), Some(&Dynamic { d_tag: DT_NULL, d_value: 0 }));
    assert_eq!(table.find_entry(DT_STRTAB), None);
}

#[test]
fn has_relocations_looks_for_rela() {
    let o = object();
    assert!(DynamicTable::parse_section(&o.buf, &o.dynamic).unwrap().has_relocations());
    assert!(!dynamic_table(&[Dynamic { d_tag: DT_RELASZ, d_value: 7 }]).has_relocations());
    assert!(dynamic_table(&[
        Dynamic { d_tag: DT_NULL, d_value: 0 },
        Dynamic { d_tag: DT_RELA, d_value: 0 }
    ])
    .has_relocations());
}

fn dynamic_segment(vaddr: u64, memsz: u64) -> ProgramHeader {
    ProgramHeader {
        p_type: PT_DYNAMIC,
        p_flags: 6,
        p_offset: 0,
        p_vaddr: vaddr,
        p_paddr: vaddr,
        p_filesz: memsz,
        p_memsz: memsz,
        p_align: 8,
    }
}

#[test]
fn dynamic_table_of_a_segment() {
    let mut image = vec![0xccu8; 40];
    image.extend_from_slice(&encode_dynamic(&Dynamic { d_tag: DT_NEEDED, d_value: 9 }));
    image.extend_from_slice(&encode_dynamic(&Dynamic { d_tag: DT_NULL, d_value: 0 }));
    image.extend_from_slice(&[0xcc; 7]);
    let table = DynamicTable::parse_segment(&image, 8, &dynamic_segment(32, 32)).unwrap();
    assert_eq!(table.len(), 2);
    assert_eq!(table.get_entry(0), Ok(&Dynamic { d_tag: DT_NEEDED, d_value: 9 }));
    // A size that is no multiple of 16 leaves the rest out.
    let table = DynamicTable::parse_segment(&image, 0, &dynamic_segment(40, 39)).unwrap();
    assert_eq!(table.len(), 2);
    let table = DynamicTable::parse_segment(&image, 40, &dynamic_segment(0, 15)).unwrap();
    assert_eq!(table.len(), 0);
}

#[test]
fn error_messages() {
    assert_eq!(Error::TooShort.message(), "invalid header length");
    assert_eq!(Error::InvalidMagicNumber.message(), "invalid magic number");
    assert_eq!(Error::InvalidClass.message(), "invalid class");
    assert_eq!(Error::InvalidEndianness.message(), "invalid endianness");
    assert_eq!(Error::OutOfBounds.message(), "invalid offset and size");
    assert_eq!(Error::MalformedTable.message(), "invalid table");
    assert_eq!(Error::WrongKind.message(), "section or segment not of the expected kind");
    assert_eq!(Error::MalformedStringTable.message(), "invalid string table");
    assert_eq!(Error::InvalidString.message(), "invalid string");
    assert_eq!(Error::UnresolvedLink.message(), "invalid section link");
    assert_eq!(Error::MissingDynamicEntry.message(), "missing dynamic entry");
    assert_eq!(Error::IndexOutOfRange.message(), "invalid index");
}

#[test]
fn dynamic_segment_errors() {
    let image = vec![0u8; 64];
    let mut hdr = dynamic_segment(0, 32);
    hdr.p_type = 1;
    assert_eq!(DynamicTable::parse_segment(&image, 0, &hdr).err(), Some(Error::WrongKind));
    let err = |base: usize, vaddr: u64, memsz: u64| {
        DynamicTable::parse_segment(&image, base, &dynamic_segment(vaddr, memsz)).err()
    };
    assert_eq!(err(0, 0, 64), None);
    assert_eq!(err(0, 0, 65), Some(Error::OutOfBounds));
    assert_eq!(err(1, 0, 64), Some(Error::OutOfBounds));
    assert_eq!(err(32, 33, 0), Some(Error::OutOfBounds));
    assert_eq!(err(32, u64::MAX, 0), Some(Error::OutOfBounds));
    assert_eq!(err(usize::MAX, 1, 0), Some(Error::OutOfBounds));
}
