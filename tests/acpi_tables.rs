use tdx_acpi::bytes::{push_le_u32, read_le_u32};
use tdx_acpi::{
    find_acpi_table, synthesize_loader, synthesize_rsdp, AcpiError, LoaderCmd, Machine,
    TableLoader,
};

/// A table of `len` bytes with the given signature; the body is filled
/// with a recognizable pattern.
fn make_table(sig: &str, len: u32) -> Vec<u8> {
    let mut t = Vec::new();
    t.extend_from_slice(sig.as_bytes());
    t.extend_from_slice(&len.to_le_bytes());
    while t.len() < len as usize {
        t.push((t.len() % 251) as u8);
    }
    t
}

fn concat(tables: &[Vec<u8>]) -> Vec<u8> {
    tables.iter().flat_map(|t| t.iter().copied()).collect()
}

/// FACP(244), APIC(136), MCFG(60), WAET(40), DSDT(200), RSDT(52).
fn standard_blob() -> Vec<u8> {
    concat(&[
        make_table("FACP", 244),
        make_table("APIC", 136),
        make_table("MCFG", 60),
        make_table("WAET", 40),
        make_table("DSDT", 200),
        make_table("RSDT", 52),
    ])
}

fn record(script: &[u8], k: usize) -> &[u8] {
    &script[128 * k..128 * (k + 1)]
}

fn u32_at(b: &[u8], i: usize) -> u32 {
    u32::from_le_bytes([b[i], b[i + 1], b[i + 2], b[i + 3]])
}

fn name_field(s: &str) -> Vec<u8> {
    let mut v = s.as_bytes().to_vec();
    v.resize(56, 0);
    v
}

#[test]
fn locate_offsets_are_sums_of_preceding_lengths() {
    let blob = standard_blob();
    let expected = [
        ("FACP", 0u32, 244u32),
        ("APIC", 244, 136),
        ("MCFG", 380, 60),
        ("WAET", 440, 40),
        ("DSDT", 480, 200),
        ("RSDT", 680, 52),
    ];
    for (sig, off, len) in expected {
        assert_eq!(find_acpi_table(&blob, sig), Ok((off, off + 9, len)));
    }
}

#[test]
fn locate_returns_first_match() {
    let blob = concat(&[make_table("SSDT", 20), make_table("SSDT", 30)]);
    assert_eq!(find_acpi_table(&blob, "SSDT"), Ok((0, 9, 20)));
}

#[test]
fn locate_zero_length_table_is_malformed() {
    let mut blob = concat(&[make_table("FACP", 16), make_table("APIC", 12)]);
    blob.extend_from_slice(b"XXXX");
    blob.extend_from_slice(&0u32.to_le_bytes());
    blob.extend_from_slice(&[0; 16]);
    assert_eq!(find_acpi_table(&blob, "RSDT"), Err(AcpiError::MalformedTable { offset: 28 }));
}

#[test]
fn locate_zero_length_table_found_by_its_own_signature() {
    let mut blob = make_table("FACP", 16);
    blob.extend_from_slice(b"RSDT");
    blob.extend_from_slice(&0u32.to_le_bytes());
    assert_eq!(find_acpi_table(&blob, "RSDT"), Ok((16, 25, 0)));
}

#[test]
fn locate_truncated_header_is_not_found() {
    let mut blob = make_table("FACP", 16);
    blob.extend_from_slice(b"RSDT\x10\x00");
    assert_eq!(find_acpi_table(&blob, "RSDT"), Err(AcpiError::TableNotFound));
}

#[test]
fn locate_in_empty_blob_is_not_found() {
    assert_eq!(find_acpi_table(&[], "DSDT"), Err(AcpiError::TableNotFound));
}

#[test]
fn locate_past_the_end_is_not_found() {
    let mut blob = make_table("FACP", 16);
    blob[4] = 200;
    assert_eq!(find_acpi_table(&blob, "DSDT"), Err(AcpiError::TableNotFound));
    let blob = make_table("FACP", 16);
    assert_eq!(find_acpi_table(&blob, "DSDT"), Err(AcpiError::TableNotFound));
}

#[test]
fn locate_rejects_signatures_not_four_bytes() {
    let blob = standard_blob();
    assert_eq!(find_acpi_table(&blob, "DSD"), Err(AcpiError::InvalidSignature));
    assert_eq!(find_acpi_table(&blob, "DSDTX"), Err(AcpiError::InvalidSignature));
    assert_eq!(find_acpi_table(&blob, ""), Err(AcpiError::InvalidSignature));
    assert_eq!(find_acpi_table(&[], "é1"), Err(AcpiError::InvalidSignature));
}

#[test]
fn little_endian_fields() {
    let mut v = vec![9u8];
    push_le_u32(&mut v, 0x1234_5678);
    assert_eq!(v, vec![9, 0x78, 0x56, 0x34, 0x12]);
    assert_eq!(read_le_u32(&v, 1), 0x1234_5678);
}

#[test]
fn every_record_is_128_bytes() {
    let long = "x".repeat(100);
    let cmds = [
        LoaderCmd::Allocate { file: "etc/acpi/rsdp", alignment: 16, zone: 2 },
        LoaderCmd::Allocate { file: &long, alignment: u32::MAX, zone: 255 },
        LoaderCmd::AddPtr { pointer_file: "", pointee_file: &long, pointer_offset: 7, pointer_size: 8 },
        LoaderCmd::AddChecksum { file: "a", result_offset: 1, start: 2, length: u32::MAX },
    ];
    for cmd in cmds {
        let mut loader = TableLoader::new();
        loader.append(cmd);
        assert_eq!(loader.as_bytes().len(), 128);
    }
}

#[test]
fn allocate_record_layout() {
    let mut loader = TableLoader::new();
    loader.append(LoaderCmd::Allocate { file: "etc/acpi/tables", alignment: 64, zone: 1 });
    let b = loader.into_bytes();
    assert_eq!(&b[0..4], &[1, 0, 0, 0]);
    assert_eq!(&b[4..60], name_field("etc/acpi/tables").as_slice());
    assert_eq!(&b[60..64], &[64, 0, 0, 0]);
    assert_eq!(b[64], 1);
    assert!(b[65..].iter().all(|&x| x == 0));
}

#[test]
fn add_pointer_record_layout() {
    let mut loader = TableLoader::new();
    loader.append(LoaderCmd::AddPtr {
        pointer_file: "etc/acpi/rsdp",
        pointee_file: "etc/acpi/tables",
        pointer_offset: 0x0102_0304,
        pointer_size: 4,
    });
    let b = loader.as_bytes();
    assert_eq!(&b[0..4], &[2, 0, 0, 0]);
    assert_eq!(&b[4..60], name_field("etc/acpi/rsdp").as_slice());
    assert_eq!(&b[60..116], name_field("etc/acpi/tables").as_slice());
    assert_eq!(&b[116..120], &[4, 3, 2, 1]);
    assert_eq!(b[120], 4);
    assert_eq!(&b[121..128], &[0; 7]);
}

#[test]
fn add_checksum_record_layout() {
    let mut loader = TableLoader::new();
    loader.append(LoaderCmd::AddChecksum { file: "f", result_offset: 9, start: 300, length: 70000 });
    let b = loader.as_bytes();
    assert_eq!(&b[0..4], &[3, 0, 0, 0]);
    assert_eq!(&b[4..60], name_field("f").as_slice());
    assert_eq!(u32_at(b, 60), 9);
    assert_eq!(u32_at(b, 64), 300);
    assert_eq!(u32_at(b, 68), 70000);
    assert_eq!(&b[72..128], &[0; 56]);
}

#[test]
fn records_are_appended_in_order() {
    let mut loader = TableLoader::new();
    loader.append(LoaderCmd::Allocate { file: "a", alignment: 1, zone: 1 });
    loader.append(LoaderCmd::AddChecksum { file: "b", result_offset: 0, start: 0, length: 1 });
    let b = loader.as_bytes();
    assert_eq!(b.len(), 256);
    assert_eq!(b[0], 1);
    assert_eq!(b[128], 3);
    assert_eq!(b[132], b'b');
}

#[test]
fn name_of_56_bytes_is_kept_whole() {
    let name = "n".repeat(56);
    let mut data = vec![7u8];
    TableLoader::append_fixed_string(&mut data, &name);
    assert_eq!(data.len(), 57);
    assert_eq!(&data[1..], name.as_bytes());
}

#[test]
fn name_of_55_bytes_gets_one_zero() {
    let name = "m".repeat(55);
    let mut data = Vec::new();
    TableLoader::append_fixed_string(&mut data, &name);
    assert_eq!(data.len(), 56);
    assert_eq!(&data[..55], name.as_bytes());
    assert_eq!(data[55], 0);
}

#[test]
fn name_of_57_bytes_is_cut_to_56() {
    let name: String = (0..57).map(|i| char::from(b'a' + (i % 26) as u8)).collect();
    let mut data = Vec::new();
    TableLoader::append_fixed_string(&mut data, &name);
    assert_eq!(data, name.as_bytes()[..56].to_vec());
}

#[test]
fn empty_name_is_all_zero() {
    let mut data = Vec::new();
    TableLoader::append_fixed_string(&mut data, "");
    assert_eq!(data, vec![0; 56]);
}

#[test]
fn rsdp_layout() {
    let r = synthesize_rsdp(0x0a0b_0c0d);
    let mut expected = b"RSD PTR ".to_vec();
    expected.push(0);
    expected.extend_from_slice(b"BOCHS ");
    expected.push(0);
    expected.extend_from_slice(&[0x0d, 0x0c, 0x0b, 0x0a]);
    assert_eq!(r, expected);
    assert_eq!(r.len(), 20);
}

#[test]
fn loader_script_commands() {
    let blob = standard_blob();
    let s = synthesize_loader(&blob).unwrap();
    let tables = name_field("etc/acpi/tables");
    let rsdp = name_field("etc/acpi/rsdp");
    // DSDT checksum
    let r = record(&s, 2);
    assert_eq!((u32_at(r, 0), u32_at(r, 60), u32_at(r, 64), u32_at(r, 68)), (3, 489, 480, 200));
    // FACP pointers to the DSDT
    for (k, off, size) in [(3, 36u32, 4u8), (4, 40, 4), (5, 140, 8)] {
        let r = record(&s, k);
        assert_eq!(u32_at(r, 0), 2);
        assert_eq!(&r[4..60], tables.as_slice());
        assert_eq!(&r[60..116], tables.as_slice());
        assert_eq!(u32_at(r, 116), off);
        assert_eq!(r[120], size);
    }
    // FACP, APIC, MCFG, WAET checksums
    for (k, start, len) in [(6, 0u32, 244u32), (7, 244, 136), (8, 380, 60), (9, 440, 40)] {
        let r = record(&s, k);
        assert_eq!((u32_at(r, 0), u32_at(r, 60), u32_at(r, 64), u32_at(r, 68)), (3, start + 9, start, len));
    }
    // RSDT entries
    for (k, off) in [(10, 716u32), (11, 720), (12, 724), (13, 728)] {
        let r = record(&s, k);
        assert_eq!((u32_at(r, 0), u32_at(r, 116), r[120]), (2, off, 4));
    }
    // RSDT checksum
    let r = record(&s, 14);
    assert_eq!((u32_at(r, 0), u32_at(r, 60), u32_at(r, 64), u32_at(r, 68)), (3, 689, 680, 52));
    // RSDP pointer to the RSDT
    let r = record(&s, 15);
    assert_eq!(&r[4..60], rsdp.as_slice());
    assert_eq!(&r[60..116], tables.as_slice());
    assert_eq!((u32_at(r, 0), u32_at(r, 116), r[120]), (2, 16, 4));
}

#[test]
fn rsdp_checksum_command_does_not_depend_on_layout() {
    let other = concat(&[
        make_table("RSDT", 52),
        make_table("DSDT", 1000),
        make_table("WAET", 40),
        make_table("MCFG", 60),
        make_table("APIC", 136),
        make_table("FACP", 244),
    ]);
    for blob in [standard_blob(), other] {
        let s = synthesize_loader(&blob).unwrap();
        let r = record(&s, 16);
        assert_eq!(u32_at(r, 0), 3);
        assert_eq!(&r[4..60], name_field("etc/acpi/rsdp").as_slice());
        assert_eq!((u32_at(r, 60), u32_at(r, 64), u32_at(r, 68)), (8, 0, 20));
    }
}

#[test]
fn loader_script_is_padded_to_4096() {
    let s = synthesize_loader(&standard_blob()).unwrap();
    assert_eq!(s.len(), 4096);
    assert!(s[17 * 128..].iter().all(|&x| x == 0));
    assert_ne!(record(&s, 16)[0], 0);
}

#[test]
fn loader_fails_on_missing_table() {
    let blob = concat(&[
        make_table("FACP", 244),
        make_table("APIC", 136),
        make_table("MCFG", 60),
        make_table("DSDT", 200),
        make_table("RSDT", 52),
    ]);
    assert_eq!(synthesize_loader(&blob), Err(AcpiError::TableNotFound));
}

#[test]
fn end_to_end_without_supplied_rsdp_or_loader() {
    let blob = standard_blob();
    let machine = Machine { acpi_tables: blob.clone(), rsdp: None, table_loader: None };
    let out = machine.build_tables().unwrap();
    assert_eq!(out.tables, blob);
    assert_eq!(out.rsdp.len(), 20);
    assert_eq!(u32_at(&out.rsdp, 16), 244 + 136 + 60 + 40 + 200);
    let first = record(&out.loader, 0);
    assert_eq!(u32_at(first, 0), 1);
    assert_eq!(&first[4..60], name_field("etc/acpi/rsdp").as_slice());
    assert_eq!(u32_at(first, 60), 16);
    assert_eq!(first[64], 2);
    let second = record(&out.loader, 1);
    assert_eq!(&second[4..60], name_field("etc/acpi/tables").as_slice());
    assert_eq!((u32_at(second, 60), second[64]), (64, 1));
}

#[test]
fn synthesis_is_idempotent() {
    let machine = Machine { acpi_tables: standard_blob(), rsdp: None, table_loader: None };
    let a = machine.build_tables().unwrap();
    let b = machine.build_tables().unwrap();
    assert_eq!(a.rsdp, b.rsdp);
    assert_eq!(a.loader, b.loader);
    assert_eq!(synthesize_loader(&a.tables), synthesize_loader(&b.tables));
}

#[test]
fn supplied_rsdp_and_loader_are_used_verbatim() {
    let machine = Machine {
        acpi_tables: vec![1, 2, 3],
        rsdp: Some(vec![4, 5]),
        table_loader: Some(vec![6]),
    };
    let out = machine.build_tables().unwrap();
    assert_eq!(out.tables, vec![1, 2, 3]);
    assert_eq!(out.rsdp, vec![4, 5]);
    assert_eq!(out.loader, vec![6]);
}

#[test]
fn supplied_loader_still_needs_rsdt_for_rsdp() {
    let machine = Machine { acpi_tables: make_table("FACP", 244), rsdp: None, table_loader: Some(vec![6]) };
    assert!(matches!(machine.build_tables(), Err(AcpiError::TableNotFound)));
}

#[test]
fn build_fails_on_zero_length_table() {
    let mut blob = make_table("FACP", 16);
    blob.extend_from_slice(b"APIC\0\0\0\0");
    let machine = Machine { acpi_tables: blob, rsdp: Some(vec![0; 20]), table_loader: None };
    assert!(matches!(machine.build_tables(), Err(AcpiError::MalformedTable { offset: 16 })));
}
