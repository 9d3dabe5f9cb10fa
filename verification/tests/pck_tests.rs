use byteorder::{LittleEndian, WriteBytesExt};
use md5::{Digest, Md5};
use std::io::Write;
use sts2_rs::pck::{classify_entry_name, extract_localization_tables, read_directory_entries, PckError, GODOT_PCK_MAGIC};

fn md5(data: &[u8]) -> [u8; 16] {
    let mut hasher = Md5::new();
    hasher.update(data);
    hasher.finalize().into()
}

struct Entry<'a> {
    name: &'a [u8],
    data: &'a [u8],
    digest: [u8; 16],
    flags: u32,
}

fn entry<'a>(name: &'a [u8], data: &'a [u8]) -> Entry<'a> {
    Entry { name, data, digest: md5(data), flags: 0 }
}

/// A version 2 archive holding `entries`, their data stored one after the other after
/// the directory.
fn archive_v2(entries: &[Entry]) -> Vec<u8> {
    let mut directory = Vec::new();
    directory.write_u32::<LittleEndian>(entries.len() as u32).unwrap();
    let mut offset = 0u64;
    for e in entries {
        directory.write_u32::<LittleEndian>(e.name.len() as u32).unwrap();
        directory.write_all(e.name).unwrap();
        directory.write_u64::<LittleEndian>(offset).unwrap();
        directory.write_u64::<LittleEndian>(e.data.len() as u64).unwrap();
        directory.write_all(&e.digest).unwrap();
        directory.write_u32::<LittleEndian>(e.flags).unwrap();
        offset += e.data.len() as u64;
    }
    let header_size: u64 = 96;
    let base = header_size + directory.len() as u64;
    let mut pck = Vec::new();
    pck.write_u32::<LittleEndian>(GODOT_PCK_MAGIC).unwrap();
    pck.write_u32::<LittleEndian>(2).unwrap();
    pck.write_u32::<LittleEndian>(4).unwrap();
    pck.write_u32::<LittleEndian>(5).unwrap();
    pck.write_u32::<LittleEndian>(1).unwrap();
    pck.write_u32::<LittleEndian>(0).unwrap();
    pck.write_u64::<LittleEndian>(base).unwrap();
    pck.write_all(&[0u8; 64]).unwrap();
    pck.write_all(&directory).unwrap();
    for e in entries {
        pck.write_all(e.data).unwrap();
    }
    pck
}

#[test]
fn test_extract_localization_roundtrip() {
    let json_data = br#"{"STRIKE.title":"Strike","DEFEND.title":"Defend"}"#;
    let digest = md5(json_data);

    let file_name = b"localization/eng/cards.json\0";
    let mut directory = Vec::new();
    directory.write_u32::<LittleEndian>(1).unwrap(); // count
    directory.write_u32::<LittleEndian>(file_name.len() as u32).unwrap();
    directory.write_all(file_name).unwrap();
    directory.write_u64::<LittleEndian>(0).unwrap(); // relative offset
    directory.write_u64::<LittleEndian>(json_data.len() as u64).unwrap();
    directory.write_all(&digest).unwrap();
    directory.write_u32::<LittleEndian>(0).unwrap(); // flags

    let header_size: u64 = 96;
    let base = header_size + directory.len() as u64;

    let mut pck = Vec::new();
    pck.write_u32::<LittleEndian>(GODOT_PCK_MAGIC).unwrap();
    pck.write_u32::<LittleEndian>(2).unwrap(); // version 2
    pck.write_u32::<LittleEndian>(4).unwrap();
    pck.write_u32::<LittleEndian>(5).unwrap();
    pck.write_u32::<LittleEndian>(1).unwrap();
    pck.write_u32::<LittleEndian>(0).unwrap(); // flags
    pck.write_u64::<LittleEndian>(base).unwrap();
    pck.write_all(&[0u8; 64]).unwrap(); // padding to 96 bytes

    pck.write_all(&directory).unwrap();
    pck.write_all(json_data).unwrap();

    let extracted = extract_localization_tables(&pck).unwrap();
    assert_eq!(extracted.len(), 1);

    assert_eq!(extracted[0].dir_name, "localization_eng");
    assert_eq!(extracted[0].file_name, "cards.json");
    assert_eq!(extracted[0].data, json_data.to_vec());
}

#[test]
fn directory_keeps_only_localization_tables_in_order() {
    let a = br#"{"a":1}"#;
    let b = br#"["b"]"#;
    let c = br#"{}"#;
    let pck = archive_v2(&[
        entry(b"res://localization/zhs/a.json", a),
        entry(b"res://images/logo.png", b"PNG"),
        entry(b"localization/fra/cards.json", c),
        entry(b"localization/eng/cards.txt", c),
        entry(b"localization/eng/b.json\0\0\0\0", b),
    ]);
    let entries = read_directory_entries(&pck).unwrap();
    assert_eq!(entries.len(), 2);
    assert_eq!(entries[0].path_parts, vec!["localization", "zhs", "a.json"]);
    assert_eq!(entries[1].path_parts, vec!["localization", "eng", "b.json"]);
    assert_eq!(entries[0].size, a.len() as u64);
    let tables = extract_localization_tables(&pck).unwrap();
    assert_eq!(tables.len(), 2);
    assert_eq!(tables[0].dir_name, "localization_zhs");
    assert_eq!(tables[0].data, a.to_vec());
    assert_eq!(tables[1].dir_name, "localization_eng");
    assert_eq!(tables[1].file_name, "b.json");
    assert_eq!(tables[1].data, b.to_vec());
}

#[test]
fn version_3_archive_reads_directory_at_recorded_offset() {
    let data = br#"{"k":"v"}"#;
    let name = b"localization/eng/x.json";
    let mut pck = Vec::new();
    pck.write_u32::<LittleEndian>(GODOT_PCK_MAGIC).unwrap();
    pck.write_u32::<LittleEndian>(3).unwrap();
    pck.write_u32::<LittleEndian>(4).unwrap();
    pck.write_u32::<LittleEndian>(5).unwrap();
    pck.write_u32::<LittleEndian>(1).unwrap();
    pck.write_u32::<LittleEndian>(0).unwrap();
    pck.write_u64::<LittleEndian>(40).unwrap(); // data right after the header
    let dir_offset = 40 + data.len() as u64;
    pck.write_u64::<LittleEndian>(dir_offset).unwrap();
    pck.write_all(data).unwrap();
    pck.write_u32::<LittleEndian>(1).unwrap();
    pck.write_u32::<LittleEndian>(name.len() as u32).unwrap();
    pck.write_all(name).unwrap();
    pck.write_u64::<LittleEndian>(0).unwrap();
    pck.write_u64::<LittleEndian>(data.len() as u64).unwrap();
    pck.write_all(&md5(data)).unwrap();
    pck.write_u32::<LittleEndian>(0).unwrap();
    let tables = extract_localization_tables(&pck).unwrap();
    assert_eq!(tables.len(), 1);
    assert_eq!(tables[0].file_name, "x.json");
    assert_eq!(tables[0].data, data.to_vec());
}

#[test]
fn header_errors() {
    assert!(matches!(extract_localization_tables(&[0x47, 0x44]), Err(PckError::Truncated)));
    let mut bad = archive_v2(&[entry(b"localization/eng/a.json", b"{}")]);
    bad[0] = b'X';
    assert!(matches!(extract_localization_tables(&bad), Err(PckError::BadMagic(m)) if m == 0x43504458));
    let mut v4 = archive_v2(&[entry(b"localization/eng/a.json", b"{}")]);
    v4[4] = 4;
    assert!(matches!(extract_localization_tables(&v4), Err(PckError::UnsupportedVersion(4))));
    let mut enc = archive_v2(&[entry(b"localization/eng/a.json", b"{}")]);
    enc[20] = 3;
    assert!(matches!(extract_localization_tables(&enc), Err(PckError::Encrypted)));
    let mut even_flags = archive_v2(&[entry(b"localization/eng/a.json", b"{}")]);
    even_flags[20] = 2;
    assert!(extract_localization_tables(&even_flags).is_ok());
    let whole = archive_v2(&[entry(b"localization/eng/a.json", b"{}")]);
    assert!(matches!(extract_localization_tables(&whole[..30]), Err(PckError::Truncated)));
    assert!(matches!(extract_localization_tables(&whole[..98]), Err(PckError::Truncated)));
}

#[test]
fn directory_errors() {
    let mut flagged = entry(b"localization/eng/a.json\0", b"{}");
    flagged.flags = 2;
    let pck = archive_v2(&[flagged]);
    match extract_localization_tables(&pck) {
        Err(PckError::UnsupportedEntryFlags { flags, name }) => {
            assert_eq!(flags, 2);
            assert_eq!(name, "localization/eng/a.json");
        }
        other => panic!("unexpected {:?}", other),
    }
    // flags on other files do not matter
    let mut other = entry(b"images/a.png", b"x");
    other.flags = 1;
    let pck = archive_v2(&[other, entry(b"localization/eng/a.json", b"{}")]);
    assert_eq!(extract_localization_tables(&pck).unwrap().len(), 1);

    let none = archive_v2(&[entry(b"images/a.png", b"x")]);
    assert!(matches!(extract_localization_tables(&none), Err(PckError::NoLocalizationTables)));

    let whole = archive_v2(&[entry(b"localization/eng/a.json", b"{}")]);
    let cut = whole.len() - 2;
    assert!(matches!(read_directory_entries(&whole[..cut]), Ok(_)));
    assert!(matches!(extract_localization_tables(&whole[..cut]), Err(PckError::Truncated)));
    assert!(matches!(extract_localization_tables(&whole[..whole.len() - 1]), Err(PckError::Truncated)));
    assert!(matches!(extract_localization_tables(&whole[..110]), Err(PckError::Truncated)));
}

#[test]
fn data_errors() {
    let mut wrong = entry(b"localization/eng/a.json", b"{}");
    wrong.digest[0] ^= 1;
    let pck = archive_v2(&[wrong]);
    match extract_localization_tables(&pck) {
        Err(PckError::ChecksumMismatch { path_parts }) => {
            assert_eq!(path_parts, vec!["localization", "eng", "a.json"]);
        }
        other => panic!("unexpected {:?}", other),
    }
    let pck = archive_v2(&[entry(b"localization/zhs/a.json", b"{not json")]);
    match extract_localization_tables(&pck) {
        Err(PckError::InvalidJson { path_parts }) => {
            assert_eq!(path_parts, vec!["localization", "zhs", "a.json"]);
        }
        other => panic!("unexpected {:?}", other),
    }
    // the first bad table wins
    let mut wrong = entry(b"localization/eng/b.json", b"{}");
    wrong.digest[3] ^= 0xff;
    let pck = archive_v2(&[entry(b"localization/eng/a.json", b"nope"), wrong]);
    assert!(matches!(extract_localization_tables(&pck), Err(PckError::InvalidJson { .. })));
}

#[test]
fn malformed_names_are_decoded_lossily() {
    let pck = archive_v2(&[entry(b"localization/eng/\xffcards.json", b"{}")]);
    let tables = extract_localization_tables(&pck).unwrap();
    assert_eq!(tables[0].file_name, "\u{FFFD}cards.json");
    let pck = archive_v2(&[entry(b"localization/e\xffg/cards.json", b"{}")]);
    assert!(matches!(extract_localization_tables(&pck), Err(PckError::NoLocalizationTables)));
}

#[test]
fn entry_names() {
    let (name, parts) = classify_entry_name("res://localization/eng/cards.json\0\0").unwrap();
    assert_eq!(name, "res://localization/eng/cards.json");
    assert_eq!(parts, vec!["localization", "eng", "cards.json"]);
    assert!(classify_entry_name("localization/eng/sub/cards.json").is_none());
    assert!(classify_entry_name("localization/eng/").is_none());
    assert!(classify_entry_name("localization/deu/cards.json").is_none());
    assert!(classify_entry_name("res:/localization/eng/cards.json").is_none());
    assert!(classify_entry_name("").is_none());
    let (_, parts) = classify_entry_name("localization/zhs/.json").unwrap();
    assert_eq!(parts[2], ".json");
    assert!(classify_entry_name("localization/zhs/a.json\0x").is_none());
}
