use workshop_manager::digest::{digest_of, digest_of_blocks, Hasher, BUFFER_SIZE};

#[test]
fn digests_of_known_texts() {
    assert_eq!(digest_of(b""), "d41d8cd98f00b204e9800998ecf8427e");
    assert_eq!(digest_of(b"a"), "0cc175b9c0f1b6a831c399e269772661");
    assert_eq!(digest_of(b"abc"), "900150983cd24fb0d6963f7d28e17f72");
    assert_eq!(digest_of(b"message digest"), "f96b697d7cb7938d525a2f31aaf161d0");
    assert_eq!(
        digest_of(b"abcdefghijklmnopqrstuvwxyz"),
        "c3fcd3d76192e4007dfb496cca67e13b"
    );
}

#[test]
fn a_hasher_that_took_nothing_gives_the_digest_of_nothing() {
    assert_eq!(Hasher::new().finish(), "d41d8cd98f00b204e9800998ecf8427e");
}

#[test]
fn blocks_give_the_digest_of_the_whole() {
    let data: Vec<u8> = (0..200_000u32).map(|i| (i * 7 + i / 251) as u8).collect();
    let whole = digest_of(&data);
    let mut hasher = Hasher::new();
    for block in data.chunks(BUFFER_SIZE) {
        hasher.update(block);
    }
    assert_eq!(hasher.finish(), whole);
    for size in [1usize, 3, 63, 64, 65, 1000, 4096] {
        let blocks: Vec<Vec<u8>> = data[..5000].chunks(size).map(|c| c.to_vec()).collect();
        assert_eq!(digest_of_blocks(&blocks), digest_of(&data[..5000]));
    }
    assert_eq!(digest_of_blocks(&vec![]), digest_of(b""));
    assert_eq!(
        digest_of_blocks(&vec![b"ab".to_vec(), vec![], b"c".to_vec()]),
        "900150983cd24fb0d6963f7d28e17f72"
    );
}

#[test]
fn the_order_of_blocks_counts() {
    let mut ab = Hasher::new();
    ab.update(b"a");
    ab.update(b"b");
    let mut ba = Hasher::new();
    ba.update(b"b");
    ba.update(b"a");
    assert_ne!(ab.finish(), ba.finish());
}

#[test]
fn a_digest_has_32_lower_case_hexadecimal_digits() {
    let hex = digest_of(b"workshop");
    assert_eq!(hex.len(), 32);
    assert!(hex.chars().all(|c| c.is_ascii_digit() || ('a'..='f').contains(&c)));
    assert_eq!(BUFFER_SIZE, 64 * 1024);
}
