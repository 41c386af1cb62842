use d2t_wizard::translate;
use gettext::Catalog;

/// A minimal little-endian MO catalog with one entry:
/// "Hello" -> "Salut".
fn tiny_catalog_bytes() -> Vec<u8> {
    let mut bytes: Vec<u8> = Vec::new();
    let mut put_u32 = |bytes: &mut Vec<u8>, v: u32| bytes.extend_from_slice(&v.to_le_bytes());
    put_u32(&mut bytes, 0x950412de); // magic
    put_u32(&mut bytes, 0); // revision
    put_u32(&mut bytes, 1); // number of strings
    put_u32(&mut bytes, 28); // offset of the originals table
    put_u32(&mut bytes, 36); // offset of the translations table
    put_u32(&mut bytes, 0); // hash table size
    put_u32(&mut bytes, 0); // hash table offset
    put_u32(&mut bytes, 5); // originals table: length of "Hello"
    put_u32(&mut bytes, 44); // originals table: offset of "Hello"
    put_u32(&mut bytes, 5); // translations table: length of "Salut"
    put_u32(&mut bytes, 50); // translations table: offset of "Salut"
    bytes.extend_from_slice(b"Hello\0");
    bytes.extend_from_slice(b"Salut\0");
    bytes
}

#[test]
fn translate_uses_catalog_entry() {
    let bytes = tiny_catalog_bytes();
    let cat = Catalog::parse(&bytes[..]);
    assert!(cat.is_ok());
    assert_eq!(translate(&cat, "Hello"), "Salut");
}

#[test]
fn translate_falls_back_to_key_on_missing_entry() {
    let bytes = tiny_catalog_bytes();
    let cat = Catalog::parse(&bytes[..]);
    assert_eq!(translate(&cat, "Enter Discord Token:"), "Enter Discord Token:");
}

#[test]
fn translate_falls_back_to_key_without_catalog() {
    let cat = Catalog::parse(&b"not a catalog"[..]);
    assert!(cat.is_err());
    assert_eq!(translate(&cat, "Enter Telegram Token:"), "Enter Telegram Token:");
}
