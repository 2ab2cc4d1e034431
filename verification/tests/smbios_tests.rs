use fdtshim::dmi::build_dmi_profile;
use fdtshim::smbios::DecodeError;
use fdtshim::smbios::SMBios3;
use fdtshim::smbios::SMBios3EntryPoint;
use fdtshim::smbios::SMBiosTable;
use fdtshim::smbios::SMBiosTableTypes;

/// A synthetic SMBIOS 3 entry point: `_SM3_` anchor, 24-byte length, and
/// the given table size and address.
fn entry_point_bytes(table_size: u32, table_addr: u64) -> Vec<u8> {
    let mut e = Vec::new();
    e.extend_from_slice(b"_SM3_");
    e.push(0x42); // checksum, not validated here
    e.push(24); // entry point length
    e.push(3); // major version
    e.push(7); // minor version
    e.push(0); // docrev
    e.push(1); // entry point revision
    e.push(0); // reserved
    e.extend_from_slice(&table_size.to_le_bytes());
    e.extend_from_slice(&table_addr.to_le_bytes());
    e
}

/// One structure record: header, formatted bytes, then the string pool.
fn table_bytes(table_type: u8, handle: u16, formatted: &[u8], strings: &[&str]) -> Vec<u8> {
    let length = 4 + formatted.len();
    let mut t = Vec::new();
    t.push(table_type);
    t.push(length as u8);
    t.extend_from_slice(&handle.to_le_bytes());
    t.extend_from_slice(formatted);
    if strings.is_empty() {
        t.push(0);
        t.push(0);
    } else {
        for s in strings {
            t.extend_from_slice(s.as_bytes());
            t.push(0);
        }
        t.push(0);
    }
    t
}

fn sentinel_bytes() -> Vec<u8> {
    table_bytes(127, 0xffff, &[], &[])
}

/// System information formatted area (after the header): string
/// references for vendor, name, version, serial, then UUID, wake-up type,
/// SKU, and family.
fn type01_formatted(
    sys_vendor: u8,
    product_name: u8,
    product_version: u8,
    product_sku: u8,
    product_family: u8,
) -> Vec<u8> {
    let mut f = vec![sys_vendor, product_name, product_version, 0];
    f.extend_from_slice(&[0u8; 16]); // uuid
    f.push(0); // wakeup type
    f.push(product_sku);
    f.push(product_family);
    f
}

#[test]
fn entry_point_parses_fields() {
    let e = entry_point_bytes(0x1000, 0xdead_beef_0000_1234);
    let parsed = SMBios3EntryPoint::parse(&e).unwrap();
    assert_eq!(parsed.anchor, b"_SM3_".to_vec());
    assert_eq!(parsed.length, 24);
    assert_eq!(parsed.major_ver, 3);
    assert_eq!(parsed.minor_ver, 7);
    assert_eq!(parsed.table_maximum_size, 0x1000);
    assert_eq!(parsed.struct_table_address, 0xdead_beef_0000_1234);
}

#[test]
fn short_entry_point_is_invalid_pointer() {
    let e = entry_point_bytes(0, 0);
    assert_eq!(
        SMBios3EntryPoint::parse(&e[..23]),
        Err(DecodeError::InvalidPointer)
    );
    assert_eq!(SMBios3::new(&[], &sentinel_bytes()), Err(DecodeError::InvalidPointer));
}

#[test]
fn string_round_trip_at_index_two() {
    // A Type 1 table with a known string at index 2: reading reference 2
    // back yields that exact string, and reference 0 is always empty.
    let mut chain = table_bytes(1, 1, &type01_formatted(1, 2, 0, 0, 0), &["ACME", "Banana"]);
    chain.extend_from_slice(&sentinel_bytes());
    let entry = entry_point_bytes(chain.len() as u32, 0);
    let doc = SMBios3::new(&entry, &chain).unwrap();

    let table = doc.get_table(1).unwrap();
    assert_eq!(table.get_string(2), Some(&b"Banana".to_vec()));
    assert_eq!(table.get_string(1), Some(&b"ACME".to_vec()));
    assert_eq!(table.get_string(0), Some(&Vec::new()));
    assert_eq!(table.get_string(3), None);
}

#[test]
fn chain_stops_at_sentinel_and_drops_it() {
    let mut chain = table_bytes(0, 0, &[0u8; 20], &["BIOS Corp"]);
    chain.extend_from_slice(&table_bytes(1, 1, &type01_formatted(0, 0, 0, 0, 0), &[]));
    chain.extend_from_slice(&sentinel_bytes());
    // Bytes after the sentinel are never looked at.
    chain.extend_from_slice(&[0xAA; 32]);
    let entry = entry_point_bytes(chain.len() as u32, 0);
    let doc = SMBios3::new(&entry, &chain).unwrap();

    assert_eq!(doc.tables.len(), 2);
    assert!(doc.tables.iter().all(|t| t.header.table_type != 127));
    assert!(doc.get_table(127).is_none());
}

#[test]
fn chain_without_sentinel_is_malformed() {
    let chain = table_bytes(1, 1, &type01_formatted(0, 0, 0, 0, 0), &["Only"]);
    let entry = entry_point_bytes(chain.len() as u32, 0);
    assert_eq!(SMBios3::new(&entry, &chain), Err(DecodeError::MalformedTable));
}

#[test]
fn unterminated_string_pool_is_malformed() {
    let mut chain = vec![1u8, 4, 0, 0];
    chain.extend_from_slice(b"runs right off the buffer");
    let entry = entry_point_bytes(chain.len() as u32, 0);
    assert_eq!(SMBios3::new(&entry, &chain), Err(DecodeError::MalformedTable));
}

#[test]
fn record_length_below_header_size_is_malformed() {
    let chain = vec![1u8, 3, 0, 0, 0, 0];
    let entry = entry_point_bytes(chain.len() as u32, 0);
    assert_eq!(SMBios3::new(&entry, &chain), Err(DecodeError::MalformedTable));
}

#[test]
fn last_table_of_a_type_wins_lookup() {
    let mut chain = table_bytes(1, 1, &type01_formatted(1, 0, 0, 0, 0), &["First"]);
    chain.extend_from_slice(&table_bytes(1, 2, &type01_formatted(1, 0, 0, 0, 0), &["Second"]));
    chain.extend_from_slice(&sentinel_bytes());
    let entry = entry_point_bytes(chain.len() as u32, 0);
    let doc = SMBios3::new(&entry, &chain).unwrap();

    let table = doc.get_table(1).unwrap();
    assert_eq!(table.header.handle, 2);
    assert_eq!(table.get_string(1), Some(&b"Second".to_vec()));
}

#[test]
fn table_with_no_strings_has_only_the_reserved_entry() {
    let mut chain = table_bytes(2, 0, &[1u8, 2, 3, 0, 0], &[]);
    chain.extend_from_slice(&sentinel_bytes());
    let entry = entry_point_bytes(chain.len() as u32, 0);
    let doc = SMBios3::new(&entry, &chain).unwrap();

    let table: &SMBiosTable = doc.get_table(2).unwrap();
    assert_eq!(table.strings.len(), 1);
    assert_eq!(table.get_string(0), Some(&Vec::new()));
    assert_eq!(table.get_string(1), None);
}

#[test]
fn typed_records_read_their_string_references() {
    let mut chain = table_bytes(1, 1, &type01_formatted(1, 2, 3, 4, 5), &["V", "N", "R", "S", "F"]);
    chain.extend_from_slice(&sentinel_bytes());
    let entry = entry_point_bytes(chain.len() as u32, 0);
    let doc = SMBios3::new(&entry, &chain).unwrap();

    let info = doc.get_system_information().unwrap();
    assert_eq!(info.sys_vendor, 1);
    assert_eq!(info.product_name, 2);
    assert_eq!(info.product_version, 3);
    assert_eq!(info.product_sku, 4);
    assert_eq!(info.product_family, 5);
    assert!(doc.get_board_information().is_none());
    assert!(doc.get_chassis_information().is_none());
    assert!(doc.get_bios_information().is_none());
}

#[test]
fn classify_tags_records_by_structure_type() {
    let mut chain = table_bytes(1, 1, &type01_formatted(1, 2, 0, 0, 0), &["ACME", "Widget"]);
    chain.extend_from_slice(&table_bytes(42, 5, &[0u8; 4], &[]));
    chain.extend_from_slice(&sentinel_bytes());
    let entry = entry_point_bytes(chain.len() as u32, 0);
    let doc = SMBios3::new(&entry, &chain).unwrap();

    match doc.get_table(1).unwrap().classify() {
        SMBiosTableTypes::System(info) => {
            assert_eq!(info.sys_vendor, 1);
            assert_eq!(info.product_name, 2);
        }
        other => panic!("expected a system record, got {other:?}"),
    }
    assert_eq!(
        doc.get_table(42).unwrap().classify(),
        SMBiosTableTypes::Unknown(42)
    );
}

#[test]
fn profile_resolves_fields_across_tables() {
    let mut chain = table_bytes(
        1,
        1,
        &type01_formatted(1, 2, 0, 0, 3),
        &["ACME", "Widget", "WidgetFamily"],
    );
    // Board table: vendor, name, version references.
    chain.extend_from_slice(&table_bytes(2, 2, &[1u8, 2, 0, 0, 0], &["BoardCo", "MainBoard"]));
    // Chassis table: vendor, type, version references.
    chain.extend_from_slice(&table_bytes(3, 3, &[0u8, 9, 1, 0, 0], &["ChassisCo"]));
    chain.extend_from_slice(&sentinel_bytes());
    let entry = entry_point_bytes(chain.len() as u32, 0);
    let doc = SMBios3::new(&entry, &chain).unwrap();

    let p = build_dmi_profile(&doc);
    assert_eq!(p.sys_vendor, b"ACME".to_vec());
    assert_eq!(p.product_name, b"Widget".to_vec());
    assert_eq!(p.product_family, b"WidgetFamily".to_vec());
    assert_eq!(p.product_version, Vec::<u8>::new());
    assert_eq!(p.board_vendor, b"BoardCo".to_vec());
    assert_eq!(p.board_name, b"MainBoard".to_vec());
    assert_eq!(p.chassis_vendor, Vec::<u8>::new());
    assert_eq!(p.chassis_version, b"ChassisCo".to_vec());
}

#[test]
fn profile_defaults_to_empty_without_tables() {
    let chain = sentinel_bytes();
    let entry = entry_point_bytes(chain.len() as u32, 0);
    let doc = SMBios3::new(&entry, &chain).unwrap();
    let p = build_dmi_profile(&doc);
    assert_eq!(p.sys_vendor, Vec::<u8>::new());
    assert_eq!(p.product_name, Vec::<u8>::new());
    assert_eq!(p.board_name, Vec::<u8>::new());
    assert_eq!(p.chassis_version, Vec::<u8>::new());
}
