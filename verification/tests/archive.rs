use pakify::pak_file::PakFile;
use pakify::pak_header::PakHeader;
use pakify::PakError;

/// A 12-byte header: the `PACK` magic, then the index offset and index
/// size as little-endian 32-bit integers.
fn header(index_offset: u32, index_size: u32) -> Vec<u8> {
    let mut bytes = vec![0x50u8, 0x41, 0x43, 0x4B];
    bytes.extend_from_slice(&index_offset.to_le_bytes());
    bytes.extend_from_slice(&index_size.to_le_bytes());
    bytes
}

/// A 64-byte index record: the name NUL-padded to 56 bytes, then the
/// payload offset and size as little-endian 32-bit integers.
fn record(name: &[u8], offset: u32, size: u32) -> Vec<u8> {
    assert!(name.len() <= 56);
    let mut bytes = name.to_vec();
    bytes.resize(56, 0);
    bytes.extend_from_slice(&offset.to_le_bytes());
    bytes.extend_from_slice(&size.to_le_bytes());
    bytes
}

/// The single-entry archive: payload `"hello"` at offset 12, one record
/// named `"greet.txt"` at index offset 17.
fn single_entry_archive() -> Vec<u8> {
    let mut bytes = header(17, 64);
    bytes.extend_from_slice(b"hello");
    bytes.extend_from_slice(&record(b"greet.txt", 12, 5));
    bytes
}

#[test]
fn minimal_empty_archive() {
    let bytes = vec![0x50u8, 0x41, 0x43, 0x4B, 0x0C, 0, 0, 0, 0, 0, 0, 0];
    let mut pak = PakFile::load(bytes).unwrap();
    assert!(pak.entries().is_empty());
    assert_eq!(pak.header().num_entries(), 0);
    let error = pak.load_entry("anything").unwrap_err();
    assert!(matches!(error, PakError::MissingEntry(name) if name == "anything"));
}

#[test]
fn single_entry_archive_contents() {
    let mut pak = PakFile::load(single_entry_archive()).unwrap();
    assert_eq!(pak.entries().len(), 1);
    assert_eq!(pak.entries()[0].name(), "greet.txt");
    assert_eq!(pak.load_entry("greet.txt").unwrap(), b"hello");
    let error = pak.load_entry("nope").unwrap_err();
    assert!(matches!(error, PakError::MissingEntry(name) if name == "nope"));
}

#[test]
fn bad_magic() {
    let mut bytes = single_entry_archive();
    bytes[0] = 0x51;
    let error = PakFile::load(bytes).unwrap_err();
    assert!(matches!(error, PakError::InvalidField("header.id")));
}

#[test]
fn offset_inside_header() {
    let bytes = header(11, 0);
    let error = PakFile::load(bytes).unwrap_err();
    assert!(matches!(error, PakError::InvalidField("header.offset")));
}

#[test]
fn misaligned_index_size() {
    let bytes = vec![0x50u8, 0x41, 0x43, 0x4B, 0x0C, 0, 0, 0, 0x01, 0, 0, 0];
    let error = PakFile::load(bytes).unwrap_err();
    assert!(matches!(error, PakError::InvalidField("header.size")));
}

#[test]
fn source_shorter_than_header() {
    let mut bytes = header(12, 0);
    bytes.truncate(8);
    let error = PakFile::load(bytes).unwrap_err();
    assert!(matches!(error, PakError::UnexpectedEof));

    let error = PakFile::load(vec![0x50u8, 0x41]).unwrap_err();
    assert!(matches!(error, PakError::UnexpectedEof));
}

#[test]
fn truncated_index() {
    // The header claims one 64-byte record, but the source ends at the
    // declared index offset.
    let bytes = header(12, 64);
    let error = PakFile::load(bytes).unwrap_err();
    assert!(matches!(error, PakError::UnexpectedEof));
}

#[test]
fn index_cut_short() {
    // The index begins within the source but its last record is cut off.
    let mut bytes = header(12, 128);
    bytes.extend_from_slice(&record(b"whole", 0, 0));
    bytes.extend_from_slice(&record(b"cut", 0, 0)[..32]);
    let error = PakFile::load(bytes).unwrap_err();
    assert!(matches!(error, PakError::UnexpectedEof));
}

#[test]
fn nul_terminated_name() {
    let mut name_field = [0xAAu8; 56];
    name_field[0] = 0x66;
    name_field[1] = 0x6F;
    name_field[2] = 0x6F;
    name_field[3] = 0x00;
    let mut bytes = header(12, 64);
    bytes.extend_from_slice(&record(&name_field, 0, 0));
    let mut pak = PakFile::load(bytes).unwrap();
    assert_eq!(pak.entries()[0].name(), "foo");
    assert!(pak.load_entry("foo").is_ok());
}

#[test]
fn name_without_nul_fills_the_field() {
    let name_field = [0x61u8; 56];
    let mut bytes = header(12, 64);
    bytes.extend_from_slice(&record(&name_field, 0, 0));
    let pak = PakFile::load(bytes).unwrap();
    assert_eq!(pak.entries()[0].name().len(), 56);
    assert_eq!(pak.entries()[0].name(), "a".repeat(56));
}

#[test]
fn high_bytes_map_to_their_characters() {
    // Name bytes above 0x7F are not UTF-8, yet each maps to the character
    // with its value, and lookup by that character finds the entry.
    let mut bytes = header(12, 64);
    bytes.extend_from_slice(&record(&[0xFF], 0, 0));
    let mut pak = PakFile::load(bytes).unwrap();
    assert_eq!(pak.entries()[0].name(), "\u{00FF}");
    assert!(pak.load_entry("\u{00FF}").is_ok());
}

#[test]
fn zero_size_entry_yields_empty_buffer() {
    let mut bytes = header(12, 64);
    bytes.extend_from_slice(&record(b"empty", 999, 0));
    let mut pak = PakFile::load(bytes).unwrap();
    assert_eq!(pak.load_entry("empty").unwrap(), Vec::<u8>::new());
}

#[test]
fn payload_outside_source() {
    let mut bytes = header(12, 64);
    bytes.extend_from_slice(&record(b"beyond", 76, 1));
    let mut pak = PakFile::load(bytes).unwrap();
    let error = pak.load_entry("beyond").unwrap_err();
    assert!(matches!(error, PakError::UnexpectedEof));
}

#[test]
fn duplicate_names_resolve_to_first_occurrence() {
    // Payloads "one" at 12 and "two" at 15; both records carry the same
    // name, so extraction must return the first record's payload.
    let mut bytes = header(18, 128);
    bytes.extend_from_slice(b"onetwo");
    bytes.extend_from_slice(&record(b"twin", 12, 3));
    bytes.extend_from_slice(&record(b"twin", 15, 3));
    let mut pak = PakFile::load(bytes).unwrap();
    assert_eq!(pak.entries().len(), 2);
    assert_eq!(pak.load_entry("twin").unwrap(), b"one");
}

#[test]
fn extraction_is_idempotent() {
    let mut pak = PakFile::load(single_entry_archive()).unwrap();
    let first = pak.load_entry("greet.txt").unwrap();
    let second = pak.load_entry("greet.txt").unwrap();
    assert_eq!(first, second);
}

#[test]
fn conformant_archive_round_trips() {
    // Two named payloads; the handle must list the records in on-disk
    // order with their exact fields, and extraction must return each
    // payload whole.
    let mut bytes = header(22, 128);
    bytes.extend_from_slice(b"alpha");
    bytes.extend_from_slice(b"beta!");
    bytes.extend_from_slice(&record(b"a/first.txt", 12, 5));
    bytes.extend_from_slice(&record(b"b/second.txt", 17, 5));
    let mut pak = PakFile::load(bytes).unwrap();

    assert_eq!(pak.header().num_entries(), 2);
    assert_eq!(pak.header().offset(), 22);
    assert_eq!(pak.entries().len(), 2);

    let listed: Vec<(String, u32, u32)> = pak
        .entries()
        .iter()
        .map(|e| (e.name().to_string(), e.offset, e.size))
        .collect();
    assert_eq!(
        listed,
        vec![
            (String::from("a/first.txt"), 12, 5),
            (String::from("b/second.txt"), 17, 5),
        ]
    );

    for (name, _, size) in listed {
        let payload = pak.load_entry(&name).unwrap();
        assert_eq!(payload.len(), size as usize);
    }
    assert_eq!(pak.load_entry("a/first.txt").unwrap(), b"alpha");
    assert_eq!(pak.load_entry("b/second.txt").unwrap(), b"beta!");
}

#[test]
fn header_fields_and_id() {
    let source = single_entry_archive();
    let header = PakHeader::from_file(&source).unwrap();
    assert_eq!(header.id(), "PACK");
    assert_eq!(header.offset(), 17);
    assert_eq!(header.num_entries(), 1);
}

#[test]
fn header_rejects_in_field_order() {
    // A wrong magic is reported even when the source is too short to hold
    // the later fields.
    let error = PakHeader::from_file(&vec![0x51u8, 0x41, 0x43, 0x4B, 0x0C]).unwrap_err();
    assert!(matches!(error, PakError::InvalidField("header.id")));

    // A good magic with the offset field cut short is end-of-file.
    let error = PakHeader::from_file(&vec![0x50u8, 0x41, 0x43, 0x4B, 0x0C]).unwrap_err();
    assert!(matches!(error, PakError::UnexpectedEof));
}

#[test]
fn errors_render_their_messages() {
    assert_eq!(
        PakError::InvalidField("header.id").message(),
        "Invalid field (header.id)"
    );
    assert_eq!(
        PakError::MissingEntry(String::from("nope")).message(),
        "Missing entry (nope)"
    );
    assert_eq!(PakError::UnexpectedEof.message(), "Unexpected EOF");
    assert_eq!(
        PakError::Io(String::from("device gone")).message(),
        "device gone"
    );
}

#[test]
fn source_is_retained() {
    let bytes = single_entry_archive();
    let pak = PakFile::load(bytes.clone()).unwrap();
    assert_eq!(pak.source(), &bytes);
}
