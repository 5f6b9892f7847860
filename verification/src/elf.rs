//! A minimal ELF image for x86-64: one header, two loadable segments for code
//! and data, and the section headers that name them.

use crate::bytes::{le_bytes, write_u16_le, write_u32_le, write_u64_le};
use vstd::prelude::*;

verus! {

/// The size of the ELF header, in bytes.
pub const EHDR_SIZE: u64 = 64;

/// The size of one program header, in bytes.
pub const PHDR_SIZE: u64 = 56;

/// The offset of the code in the image: behind the ELF header and the two
/// program headers.
pub const TEXT_OFFSET: u64 = 0xb0;

/// The address that the image is loaded to.
pub const TEXT_BASE: u64 = 0x400000;

/// The address that the data segment is counted from.
pub const DATA_BASE: u64 = 0x600000;

/// The names of the sections.
pub open spec fn section_names() -> Seq<u8> {
    seq![
        0u8, 0x2e, 0x74, 0x65, 0x78, 0x74, 0, 0x2e, 0x64, 0x61, 0x74, 0x61, 0, 0x2e, 0x73, 0x68,
        0x73, 0x74, 0x72, 0x74, 0x61, 0x62, 0,
    ]
}

/// The ELF header.
#[derive(Clone, Copy, Debug)]
pub struct Elf64Ehdr {
    /// The bytes that identify the file: the magic number, the class, the
    /// byte order and the version, then padding.
    pub e_ident: [u8; 16],
    pub e_type: u16,
    pub e_machine: u16,
    pub e_version: u32,
    pub e_entry: u64,
    pub e_phoff: u64,
    pub e_shoff: u64,
    pub e_flags: u32,
    pub e_ehsize: u16,
    pub e_phentsize: u16,
    pub e_phnum: u16,
    pub e_shentsize: u16,
    pub e_shnum: u16,
    pub e_shstrndx: u16,
}

/// A program header.
#[derive(Clone, Copy, Debug)]
pub struct Elf64Phdr {
    pub p_type: u32,
    pub p_flags: u32,
    pub p_offset: u64,
    pub p_vaddr: u64,
    pub p_paddr: u64,
    pub p_filesz: u64,
    pub p_memsz: u64,
    pub p_align: u64,
}

/// A section header.
#[derive(Clone, Copy, Debug)]
pub struct Elf64Shdr {
    pub sh_name: u32,
    pub sh_type: u32,
    pub sh_flags: u64,
    pub sh_addr: u64,
    pub sh_offset: u64,
    pub sh_size: u64,
    pub sh_link: u32,
    pub sh_info: u32,
    pub sh_addralign: u64,
    pub sh_entsize: u64,
}

impl Elf64Ehdr {
    /// The header of an executable for x86-64 with two program headers and
    /// four section headers, the latter at `sh_off`.
    pub open spec fn of(sh_off: u64) -> Elf64Ehdr {
        Elf64Ehdr {
            e_ident: [0x7f, 0x45, 0x4c, 0x46, 2, 1, 1, 0, 0, 0, 0, 0, 0, 0, 0, 0],
            e_type: 2,
            e_machine: 0x3e,
            e_version: 1,
            e_entry: 0x4000b0,
            e_phoff: 0x40,
            e_shoff: sh_off,
            e_flags: 0,
            e_ehsize: 64,
            e_phentsize: 56,
            e_phnum: 2,
            e_shentsize: 64,
            e_shnum: 4,
            e_shstrndx: 3,
        }
    }

    /// The header in bytes: its fields in their order, least significant
    /// byte first.
    pub open spec fn bytes(self) -> Seq<u8> {
        self.e_ident@ + le_bytes(self.e_type as nat, 2) + le_bytes(self.e_machine as nat, 2)
            + le_bytes(self.e_version as nat, 4) + le_bytes(self.e_entry as nat, 8) + le_bytes(
            self.e_phoff as nat,
            8,
        ) + le_bytes(self.e_shoff as nat, 8) + le_bytes(self.e_flags as nat, 4) + le_bytes(
            self.e_ehsize as nat,
            2,
        ) + le_bytes(self.e_phentsize as nat, 2) + le_bytes(self.e_phnum as nat, 2) + le_bytes(
            self.e_shentsize as nat,
            2,
        ) + le_bytes(self.e_shnum as nat, 2) + le_bytes(self.e_shstrndx as nat, 2)
    }

    /// The header of an executable for x86-64 whose section headers are at
    /// `sh_off`.
    pub fn new(sh_off: u64) -> (header: Self)
        ensures
            header == Elf64Ehdr::of(sh_off),
    {
        Elf64Ehdr {
            e_ident: [0x7f, 0x45, 0x4c, 0x46, 2, 1, 1, 0, 0, 0, 0, 0, 0, 0, 0, 0],
            e_type: 2,
            e_machine: 0x3e,
            e_version: 1,
            e_entry: 0x4000b0,
            e_phoff: 0x40,
            e_shoff: sh_off,
            e_flags: 0,
            e_ehsize: 64,
            e_phentsize: 56,
            e_phnum: 2,
            e_shentsize: 64,
            e_shnum: 4,
            e_shstrndx: 3,
        }
    }

    /// The header in bytes.
    pub fn to_vec(self) -> (v: Vec<u8>)
        ensures
            v@ == self.bytes(),
    {
        let mut v: Vec<u8> = Vec::new();
        let mut i: usize = 0;
        while i < 16
            invariant
                i <= 16,
                v@ == self.e_ident@.take(i as int),
            decreases 16 - i,
        {
            v.push(self.e_ident[i]);
            assert(self.e_ident@.take(i + 1) =~= self.e_ident@.take(i as int).push(
                self.e_ident@[i as int],
            ));
            i += 1;
        }
        assert(self.e_ident@.take(16) =~= self.e_ident@);
        write_u16_le(&mut v, self.e_type);
        write_u16_le(&mut v, self.e_machine);
        write_u32_le(&mut v, self.e_version);
        write_u64_le(&mut v, self.e_entry);
        write_u64_le(&mut v, self.e_phoff);
        write_u64_le(&mut v, self.e_shoff);
        write_u32_le(&mut v, self.e_flags);
        write_u16_le(&mut v, self.e_ehsize);
        write_u16_le(&mut v, self.e_phentsize);
        write_u16_le(&mut v, self.e_phnum);
        write_u16_le(&mut v, self.e_shentsize);
        write_u16_le(&mut v, self.e_shnum);
        write_u16_le(&mut v, self.e_shstrndx);
        v
    }
}

impl Elf64Phdr {
    /// The header in bytes: its fields in their order, least significant
    /// byte first.
    pub open spec fn bytes(self) -> Seq<u8> {
        le_bytes(self.p_type as nat, 4) + le_bytes(self.p_flags as nat, 4) + le_bytes(
            self.p_offset as nat,
            8,
        ) + le_bytes(self.p_vaddr as nat, 8) + le_bytes(self.p_paddr as nat, 8) + le_bytes(
            self.p_filesz as nat,
            8,
        ) + le_bytes(self.p_memsz as nat, 8) + le_bytes(self.p_align as nat, 8)
    }

    /// The segment of the code: loaded, read and executed.
    pub fn text(offset: u64, size: u64) -> (header: Self)
        ensures
            header == (Elf64Phdr {
                p_type: 1,
                p_flags: 5,
                p_offset: offset,
                p_vaddr: TEXT_BASE,
                p_paddr: TEXT_BASE,
                p_filesz: size,
                p_memsz: size,
                p_align: 0x200000,
            }),
    {
        Elf64Phdr {
            p_type: 1,
            p_flags: 5,
            p_offset: offset,
            p_vaddr: 0x400000,
            p_paddr: 0x400000,
            p_filesz: size,
            p_memsz: size,
            p_align: 0x200000,
        }
    }

    /// The segment of the data: loaded, read and written.
    pub fn data(offset: u64, size: u64) -> (header: Self)
        requires
            DATA_BASE + offset <= u64::MAX,
        ensures
            header == (Elf64Phdr {
                p_type: 1,
                p_flags: 6,
                p_offset: offset,
                p_vaddr: (DATA_BASE + offset) as u64,
                p_paddr: (DATA_BASE + offset) as u64,
                p_filesz: size,
                p_memsz: size,
                p_align: 0x200000,
            }),
    {
        Elf64Phdr {
            p_type: 1,
            p_flags: 6,
            p_offset: offset,
            p_vaddr: 0x600000 + offset,
            p_paddr: 0x600000 + offset,
            p_filesz: size,
            p_memsz: size,
            p_align: 0x200000,
        }
    }

    /// The header in bytes.
    pub fn to_vec(self) -> (v: Vec<u8>)
        ensures
            v@ == self.bytes(),
    {
        let mut v: Vec<u8> = Vec::new();
        write_u32_le(&mut v, self.p_type);
        write_u32_le(&mut v, self.p_flags);
        write_u64_le(&mut v, self.p_offset);
        write_u64_le(&mut v, self.p_vaddr);
        write_u64_le(&mut v, self.p_paddr);
        write_u64_le(&mut v, self.p_filesz);
        write_u64_le(&mut v, self.p_memsz);
        write_u64_le(&mut v, self.p_align);
        assert(v@ =~= self.bytes());
        v
    }
}

impl Elf64Shdr {
    /// The header in bytes: its fields in their order, least significant
    /// byte first.
    pub open spec fn bytes(self) -> Seq<u8> {
        le_bytes(self.sh_name as nat, 4) + le_bytes(self.sh_type as nat, 4) + le_bytes(
            self.sh_flags as nat,
            8,
        ) + le_bytes(self.sh_addr as nat, 8) + le_bytes(self.sh_offset as nat, 8) + le_bytes(
            self.sh_size as nat,
            8,
        ) + le_bytes(self.sh_link as nat, 4) + le_bytes(self.sh_info as nat, 4) + le_bytes(
            self.sh_addralign as nat,
            8,
        ) + le_bytes(self.sh_entsize as nat, 8)
    }

    /// A section header with the given name, type, flags, address, offset,
    /// size and alignment.
    pub open spec fn of(
        sh_name: u32,
        sh_type: u32,
        sh_flags: u64,
        sh_addr: u64,
        sh_offset: u64,
        sh_size: u64,
        sh_addralign: u64,
    ) -> Elf64Shdr {
        Elf64Shdr {
            sh_name,
            sh_type,
            sh_flags,
            sh_addr,
            sh_offset,
            sh_size,
            sh_link: 0,
            sh_info: 0,
            sh_addralign,
            sh_entsize: 0,
        }
    }

    /// The empty header that every section table begins with.
    pub fn null() -> (header: Self)
        ensures
            header == Elf64Shdr::of(0, 0, 0, 0, 0, 0, 0),
    {
        Elf64Shdr {
            sh_name: 0,
            sh_type: 0,
            sh_flags: 0,
            sh_addr: 0,
            sh_offset: 0,
            sh_size: 0,
            sh_link: 0,
            sh_info: 0,
            sh_addralign: 0,
            sh_entsize: 0,
        }
    }

    /// The header of the code section `.text`.
    pub fn text(sh_size: u64) -> (header: Self)
        ensures
            header == Elf64Shdr::of(0x01, 1, 6, 0x4000b0, TEXT_OFFSET, sh_size, 0x10),
    {
        Elf64Shdr {
            sh_name: 0x01,
            sh_type: 1,
            sh_flags: 6,
            sh_addr: 0x4000b0,
            sh_offset: 0xb0,
            sh_size,
            sh_link: 0,
            sh_info: 0,
            sh_addralign: 0x10,
            sh_entsize: 0,
        }
    }

    /// The header of the data section `.data`.
    pub fn data(sh_size: u64, sh_offset: u64) -> (header: Self)
        requires
            DATA_BASE + sh_offset <= u64::MAX,
        ensures
            header == Elf64Shdr::of(
                0x07,
                1,
                3,
                (DATA_BASE + sh_offset) as u64,
                sh_offset,
                sh_size,
                4,
            ),
    {
        Elf64Shdr {
            sh_name: 0x07,
            sh_type: 1,
            sh_flags: 3,
            sh_addr: 0x600000 + sh_offset,
            sh_offset,
            sh_size,
            sh_link: 0,
            sh_info: 0,
            sh_addralign: 4,
            sh_entsize: 0,
        }
    }

    /// The header of the section `.shstrtab`, which holds the names of the
    /// sections.
    pub fn shstrtab(sh_size: u64, sh_offset: u64) -> (header: Self)
        ensures
            header == Elf64Shdr::of(0x0d, 3, 0, 0, sh_offset, sh_size, 1),
    {
        Elf64Shdr {
            sh_name: 0x0d,
            sh_type: 3,
            sh_flags: 0,
            sh_addr: 0,
            sh_offset,
            sh_size,
            sh_link: 0,
            sh_info: 0,
            sh_addralign: 1,
            sh_entsize: 0,
        }
    }

    /// The header in bytes.
    pub fn to_vec(self) -> (v: Vec<u8>)
        ensures
            v@ == self.bytes(),
    {
        let mut v: Vec<u8> = Vec::new();
        write_u32_le(&mut v, self.sh_name);
        write_u32_le(&mut v, self.sh_type);
        write_u64_le(&mut v, self.sh_flags);
        write_u64_le(&mut v, self.sh_addr);
        write_u64_le(&mut v, self.sh_offset);
        write_u64_le(&mut v, self.sh_size);
        write_u32_le(&mut v, self.sh_link);
        write_u32_le(&mut v, self.sh_info);
        write_u64_le(&mut v, self.sh_addralign);
        write_u64_le(&mut v, self.sh_entsize);
        assert(v@ =~= self.bytes());
        v
    }
}

/// The offset of the data in an image with `program` bytes of code.
pub open spec fn data_offset(program: nat) -> nat {
    (TEXT_OFFSET + program) as nat
}

/// Whether every offset and every address in the image of `program` bytes
/// of code and `data` bytes of data fits in the 64 bits of a header field:
/// the address of the data, and the offset of the section headers, which
/// stand last.
pub open spec fn offsets_fit(program: nat, data: nat) -> bool {
    &&& DATA_BASE + data_offset(program) <= u64::MAX
    &&& data_offset(program) + data + section_names().len() <= u64::MAX
}

/// The image of an executable with the given code and data: the ELF header,
/// the program headers of code and data, the code, the data, the names of
/// the sections, and the four section headers.
pub open spec fn image(program: Seq<u8>, data: Seq<u8>) -> Seq<u8> {
    let data_at = data_offset(program.len()) as u64;
    let names_at = (data_at + data.len()) as u64;
    let sections_at = (names_at + section_names().len()) as u64;
    Elf64Ehdr::of(sections_at).bytes() + (Elf64Phdr {
        p_type: 1,
        p_flags: 5,
        p_offset: 0,
        p_vaddr: TEXT_BASE,
        p_paddr: TEXT_BASE,
        p_filesz: data_at,
        p_memsz: data_at,
        p_align: 0x200000,
    }).bytes() + (Elf64Phdr {
        p_type: 1,
        p_flags: 6,
        p_offset: data_at,
        p_vaddr: (DATA_BASE + data_at) as u64,
        p_paddr: (DATA_BASE + data_at) as u64,
        p_filesz: data.len() as u64,
        p_memsz: data.len() as u64,
        p_align: 0x200000,
    }).bytes() + program + data + section_names() + Elf64Shdr::of(0, 0, 0, 0, 0, 0, 0).bytes()
        + Elf64Shdr::of(
        0x01,
        1,
        6,
        0x4000b0,
        TEXT_OFFSET,
        program.len() as u64,
        0x10,
    ).bytes() + Elf64Shdr::of(
        0x07,
        1,
        3,
        (DATA_BASE + data_at) as u64,
        data_at,
        data.len() as u64,
        4,
    ).bytes() + Elf64Shdr::of(0x0d, 3, 0, 0, names_at, section_names().len() as u64, 1).bytes()
}

/// An executable that is ready to be written out.
pub struct Elf {
    e_hdr: Elf64Ehdr,
    p_hdr: Vec<Elf64Phdr>,
    program: Vec<u8>,
    data: Vec<u8>,
    shstrtab: Vec<u8>,
    s_hdr: Vec<Elf64Shdr>,
}

impl Elf {
    /// The code of the executable.
    pub closed spec fn program(&self) -> Seq<u8> {
        self.program@
    }

    /// The data of the executable.
    pub closed spec fn data(&self) -> Seq<u8> {
        self.data@
    }

    /// The headers are those of the code and the data.
    #[verifier::type_invariant]
    spec fn headers_fit(&self) -> bool {
        let data_at = data_offset(self.program@.len()) as u64;
        let names_at = (data_at + self.data@.len()) as u64;
        let sections_at = (names_at + section_names().len()) as u64;
        &&& offsets_fit(self.program@.len(), self.data@.len())
        &&& self.shstrtab@ == section_names()
        &&& self.e_hdr == Elf64Ehdr::of(sections_at)
        &&& self.p_hdr@.len() == 2
        &&& self.p_hdr@[0] == (Elf64Phdr {
            p_type: 1,
            p_flags: 5,
            p_offset: 0,
            p_vaddr: TEXT_BASE,
            p_paddr: TEXT_BASE,
            p_filesz: data_at,
            p_memsz: data_at,
            p_align: 0x200000,
        })
        &&& self.p_hdr@[1] == (Elf64Phdr {
            p_type: 1,
            p_flags: 6,
            p_offset: data_at,
            p_vaddr: (DATA_BASE + data_at) as u64,
            p_paddr: (DATA_BASE + data_at) as u64,
            p_filesz: self.data@.len() as u64,
            p_memsz: self.data@.len() as u64,
            p_align: 0x200000,
        })
        &&& self.s_hdr@.len() == 4
        &&& self.s_hdr@[0] == Elf64Shdr::of(0, 0, 0, 0, 0, 0, 0)
        &&& self.s_hdr@[1] == Elf64Shdr::of(
            0x01,
            1,
            6,
            0x4000b0,
            TEXT_OFFSET,
            self.program@.len() as u64,
            0x10,
        )
        &&& self.s_hdr@[2] == Elf64Shdr::of(
            0x07,
            1,
            3,
            (DATA_BASE + data_at) as u64,
            data_at,
            self.data@.len() as u64,
            4,
        )
        &&& self.s_hdr@[3] == Elf64Shdr::of(
            0x0d,
            3,
            0,
            0,
            names_at,
            section_names().len() as u64,
            1,
        )
    }

    /// Whether code and data of these lengths make an image whose offsets
    /// fit in its header fields.
    pub fn fits(program: &Vec<u8>, data: &Vec<u8>) -> (fit: bool)
        ensures
            fit == offsets_fit(program@.len(), data@.len()),
    {
        let code: u64 = program.len() as u64;
        let rest: u64 = data.len() as u64;
        assert(section_names().len() == 23);
        code <= u64::MAX - 0x6000b0 && rest <= u64::MAX - 0xb0 - 23 - code
    }

    /// The executable with the given code and data.
    pub fn new(program: Vec<u8>, data: Vec<u8>) -> (elf: Self)
        requires
            offsets_fit(program@.len(), data@.len()),
        ensures
            elf.program() == program@,
            elf.data() == data@,
    {
        let shstrtab: Vec<u8> = vec![
            0, 0x2e, 0x74, 0x65, 0x78, 0x74, 0, 0x2e, 0x64, 0x61, 0x74, 0x61, 0, 0x2e, 0x73, 0x68,
            0x73, 0x74, 0x72, 0x74, 0x61, 0x62, 0,
        ];
        assert(shstrtab@ =~= section_names());
        let data_offset = 64 + 56 + 56 + program.len() as u64;
        let p_hdr_size = data_offset;
        let shstrtab_offset = data_offset + data.len() as u64;
        let sh_off = shstrtab_offset + shstrtab.len() as u64;
        Elf {
            e_hdr: Elf64Ehdr::new(sh_off),
            p_hdr: vec![
                Elf64Phdr::text(0, p_hdr_size),
                Elf64Phdr::data(data_offset, data.len() as u64),
            ],
            shstrtab,
            s_hdr: vec![
                Elf64Shdr::null(),
                Elf64Shdr::text(program.len() as u64),
                Elf64Shdr::data(data.len() as u64, data_offset),
                Elf64Shdr::shstrtab(23, shstrtab_offset),
            ],
            data,
            program,
        }
    }

    /// The image of the executable.
    pub fn to_vec(self) -> (v: Vec<u8>)
        ensures
            v@ == image(self.program(), self.data()),
    {
        proof {
            use_type_invariant(&self);
        }
        let Elf { e_hdr, p_hdr, program, data, shstrtab, s_hdr } = self;
        let mut program = program;
        let mut data = data;
        let mut shstrtab = shstrtab;
        let mut v: Vec<u8> = Vec::new();
        let mut bytes = e_hdr.to_vec();
        v.append(&mut bytes);
        assert(v@ =~= e_hdr.bytes());
        let mut bytes = p_hdr[0].to_vec();
        v.append(&mut bytes);
        let mut bytes = p_hdr[1].to_vec();
        v.append(&mut bytes);
        v.append(&mut program);
        v.append(&mut data);
        v.append(&mut shstrtab);
        let mut bytes = s_hdr[0].to_vec();
        v.append(&mut bytes);
        let mut bytes = s_hdr[1].to_vec();
        v.append(&mut bytes);
        let mut bytes = s_hdr[2].to_vec();
        v.append(&mut bytes);
        let mut bytes = s_hdr[3].to_vec();
        v.append(&mut bytes);
        v
    }
}

} // verus!
