use vector_core::spv::{read_spv_words, SpvError, SPV_MAGIC};

fn le_bytes(words: &[u32]) -> Vec<u8> {
    let mut out = Vec::new();
    for w in words {
        out.extend_from_slice(&w.to_le_bytes());
    }
    out
}

fn be_bytes(words: &[u32]) -> Vec<u8> {
    let mut out = Vec::new();
    for w in words {
        out.extend_from_slice(&w.to_be_bytes());
    }
    out
}

#[test]
fn decodes_a_little_endian_module() {
    let words = [SPV_MAGIC, 0x0001_0000, 42];
    let bytes = le_bytes(&words);
    let decoded = read_spv_words(&bytes).expect("well-formed module");
    assert_eq!(decoded, vec![SPV_MAGIC, 0x0001_0000, 42]);
}

#[test]
fn decodes_a_byte_swapped_module() {
    let words = [SPV_MAGIC, 7, 0xDEAD_BEEF];
    let bytes = be_bytes(&words);
    let decoded = read_spv_words(&bytes).expect("well-formed module");
    assert_eq!(decoded, vec![SPV_MAGIC, 7, 0xDEAD_BEEF]);
}

#[test]
fn rejects_a_length_that_is_not_word_sized() {
    let mut bytes = le_bytes(&[SPV_MAGIC]);
    bytes.push(0);
    assert!(matches!(read_spv_words(&bytes), Err(SpvError::LengthNotWordSized)));
}

#[test]
fn rejects_empty_input() {
    assert!(matches!(read_spv_words(&[]), Err(SpvError::MissingMagic)));
}

#[test]
fn rejects_a_missing_magic_number() {
    let bytes = le_bytes(&[0x1234_5678, 9]);
    assert!(matches!(read_spv_words(&bytes), Err(SpvError::MissingMagic)));
}
