use last_stander::paq::{read_u32_le, try_split, Loader, PaqError};

fn pack(assets: &[(&[u8], &[u8])]) -> Vec<u8> {
    let mut out = b"paq\0".to_vec();
    for (name, data) in assets {
        out.extend_from_slice(name);
        out.push(0);
        out.extend_from_slice(&(data.len() as u32).to_le_bytes());
        out.extend_from_slice(data);
    }
    out
}

#[test]
fn reads_assets_in_order() {
    let bytes = pack(&[(b"ship", b"abc"), (b"rock", b""), (b"x", &[0, 1, 2, 0])]);
    let entries = Loader.load(&bytes).unwrap();
    assert_eq!(entries.len(), 3);
    assert_eq!(entries[0].name, b"ship".to_vec());
    assert_eq!(entries[0].data, b"abc".to_vec());
    assert_eq!(entries[1].name, b"rock".to_vec());
    assert!(entries[1].data.is_empty());
    assert_eq!(entries[2].data, vec![0, 1, 2, 0]);
}

#[test]
fn empty_pack() {
    assert_eq!(Loader.load(b"paq\0").unwrap().len(), 0);
}

#[test]
fn bad_magic() {
    assert_eq!(Loader.load(b"pak\0").unwrap_err(), PaqError::BadMagic);
    assert_eq!(Loader.load(b"pa").unwrap_err(), PaqError::BadMagic);
}

#[test]
fn name_without_terminator() {
    assert_eq!(Loader.load(b"paq\0name").unwrap_err(), PaqError::MissingData);
}

#[test]
fn broken_size() {
    assert_eq!(Loader.load(b"paq\0a\0\x01\x00").unwrap_err(), PaqError::BrokenSize);
}

#[test]
fn short_asset() {
    assert_eq!(Loader.load(b"paq\0a\0\x05\x00\x00\x00abc").unwrap_err(), PaqError::ShortAsset);
}

#[test]
fn little_endian_size() {
    assert_eq!(read_u32_le(&[0x78, 0x56, 0x34, 0x12]), 0x1234_5678);
}

#[test]
fn split_only_when_long_enough() {
    let data = [1u8, 2, 3];
    assert_eq!(try_split(&data, 1), Some((&data[..1], &data[1..])));
    assert_eq!(try_split(&data, 3), Some((&data[..], &data[3..])));
    assert_eq!(try_split(&data, 4), None);
}
