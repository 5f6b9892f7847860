use incarnation::elf::{Elf, Elf64Ehdr, Elf64Phdr, Elf64Shdr};

fn u64_at(bytes: &[u8], at: usize) -> u64 {
    u64::from_le_bytes(bytes[at..at + 8].try_into().unwrap())
}

fn u32_at(bytes: &[u8], at: usize) -> u32 {
    u32::from_le_bytes(bytes[at..at + 4].try_into().unwrap())
}

fn u16_at(bytes: &[u8], at: usize) -> u16 {
    u16::from_le_bytes(bytes[at..at + 2].try_into().unwrap())
}

#[test]
fn elf_header_layout() {
    let bytes = Elf64Ehdr::new(0x1234).to_vec();
    assert_eq!(bytes.len(), 64);
    assert_eq!(
        bytes,
        vec![
            0x7f, b'E', b'L', b'F', 2, 1, 1, 0, 0, 0, 0, 0, 0, 0, 0, 0, // identification
            2, 0, 0x3e, 0, 1, 0, 0, 0, // type, machine, version
            0xb0, 0, 0x40, 0, 0, 0, 0, 0, // entry
            0x40, 0, 0, 0, 0, 0, 0, 0, // program headers
            0x34, 0x12, 0, 0, 0, 0, 0, 0, // section headers
            0, 0, 0, 0, 64, 0, 56, 0, 2, 0, 64, 0, 4, 0, 3, 0,
        ]
    );
}

#[test]
fn elf_program_header_layout() {
    let text = Elf64Phdr::text(0, 0xb1).to_vec();
    assert_eq!(text.len(), 56);
    assert_eq!(u32_at(&text, 0), 1);
    assert_eq!(u32_at(&text, 4), 5);
    assert_eq!(u64_at(&text, 8), 0);
    assert_eq!(u64_at(&text, 16), 0x400000);
    assert_eq!(u64_at(&text, 24), 0x400000);
    assert_eq!(u64_at(&text, 32), 0xb1);
    assert_eq!(u64_at(&text, 40), 0xb1);
    assert_eq!(u64_at(&text, 48), 0x200000);
    let data = Elf64Phdr::data(0xb1, 2).to_vec();
    assert_eq!(u32_at(&data, 4), 6);
    assert_eq!(u64_at(&data, 8), 0xb1);
    assert_eq!(u64_at(&data, 16), 0x6000b1);
    assert_eq!(u64_at(&data, 24), 0x6000b1);
    assert_eq!(u64_at(&data, 32), 2);
}

#[test]
fn elf_section_header_layout() {
    assert_eq!(Elf64Shdr::null().to_vec(), vec![0; 64]);
    let text = Elf64Shdr::text(7).to_vec();
    assert_eq!(text.len(), 64);
    assert_eq!(u32_at(&text, 0), 1);
    assert_eq!(u32_at(&text, 4), 1);
    assert_eq!(u64_at(&text, 8), 6);
    assert_eq!(u64_at(&text, 16), 0x4000b0);
    assert_eq!(u64_at(&text, 24), 0xb0);
    assert_eq!(u64_at(&text, 32), 7);
    assert_eq!(u64_at(&text, 48), 0x10);
    let data = Elf64Shdr::data(2, 0xb7).to_vec();
    assert_eq!(u32_at(&data, 0), 7);
    assert_eq!(u64_at(&data, 8), 3);
    assert_eq!(u64_at(&data, 16), 0x6000b7);
    assert_eq!(u64_at(&data, 24), 0xb7);
    assert_eq!(u64_at(&data, 32), 2);
    assert_eq!(u64_at(&data, 48), 4);
    let names = Elf64Shdr::shstrtab(23, 0xb9).to_vec();
    assert_eq!(u32_at(&names, 0), 0x0d);
    assert_eq!(u32_at(&names, 4), 3);
    assert_eq!(u64_at(&names, 24), 0xb9);
    assert_eq!(u64_at(&names, 32), 23);
    assert_eq!(u64_at(&names, 48), 1);
}

#[test]
fn elf_image() {
    let program = vec![0x0f, 0x05, 0xc3];
    let data = vec![b'h', b'i'];
    let image = Elf::new(program.clone(), data.clone()).to_vec();
    assert_eq!(image.len(), 64 + 2 * 56 + 3 + 2 + 23 + 4 * 64);
    assert_eq!(image[..4], [0x7f, b'E', b'L', b'F']);
    assert_eq!(u64_at(&image, 0x28), 0xb0 + 3 + 2 + 23);
    assert_eq!(u16_at(&image, 0x3c), 4);
    assert_eq!(image[..64], Elf64Ehdr::new(0xb0 + 28).to_vec()[..]);
    assert_eq!(image[64..120], Elf64Phdr::text(0, 0xb3).to_vec()[..]);
    assert_eq!(image[120..176], Elf64Phdr::data(0xb3, 2).to_vec()[..]);
    assert_eq!(image[0xb0..0xb3], program[..]);
    assert_eq!(image[0xb3..0xb5], data[..]);
    assert_eq!(image[0xb5..0xb5 + 23], b"\0.text\0.data\0.shstrtab\0"[..]);
    let sections = 0xb5 + 23;
    assert_eq!(image[sections..sections + 64], Elf64Shdr::null().to_vec()[..]);
    assert_eq!(image[sections + 64..sections + 128], Elf64Shdr::text(3).to_vec()[..]);
    assert_eq!(image[sections + 128..sections + 192], Elf64Shdr::data(2, 0xb3).to_vec()[..]);
    assert_eq!(image[sections + 192..], Elf64Shdr::shstrtab(23, 0xb5).to_vec()[..]);
}

#[test]
fn elf_image_of_nothing() {
    let image = Elf::new(vec![], vec![]).to_vec();
    assert_eq!(image.len(), 64 + 2 * 56 + 23 + 4 * 64);
    assert_eq!(u64_at(&image, 0x28), 0xb0 + 23);
}

#[test]
fn elf_offsets_fit() {
    assert!(Elf::fits(&vec![], &vec![]));
    assert!(Elf::fits(&vec![0; 5000], &vec![1; 70000]));
    let image = Elf::new(vec![0x90; 5000], vec![1; 70000]).to_vec();
    assert_eq!(image.len(), 0xb0 + 5000 + 70000 + 23 + 4 * 64);
    assert_eq!(u64_at(&image, 0x28), 0xb0 + 5000 + 70000 + 23);
}
