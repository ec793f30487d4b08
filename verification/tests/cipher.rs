use sm4::{Sm4Cipher, Sm4Error};

#[test]
fn setup_cipher() {
    let key: [u8; 16] = [
        0x01, 0x23, 0x45, 0x67, 0x89, 0xab, 0xcd, 0xef, 0xfe, 0xdc, 0xba, 0x98, 0x76, 0x54,
        0x32, 0x10,
    ];
    let cipher = Sm4Cipher::new(&key).unwrap();
    let rk = &cipher.rk;
    assert_eq!(rk[0], 0xf121_86f9);
    assert_eq!(rk[31], 0x9124_a012);
}

#[test]
fn enc_and_dec() {
    let key: [u8; 16] = [
        0x01, 0x23, 0x45, 0x67, 0x89, 0xab, 0xcd, 0xef, 0xfe, 0xdc, 0xba, 0x98, 0x76, 0x54,
        0x32, 0x10,
    ];
    let cipher = Sm4Cipher::new(&key).unwrap();

    let data: [u8; 16] = [
        0x01, 0x23, 0x45, 0x67, 0x89, 0xab, 0xcd, 0xef, 0xfe, 0xdc, 0xba, 0x98, 0x76, 0x54,
        0x32, 0x10,
    ];
    let ct = cipher.encrypt(&data).unwrap();
    let standard_ct: [u8; 16] = [
        0x68, 0x1e, 0xdf, 0x34, 0xd2, 0x06, 0x96, 0x5e, 0x86, 0xb3, 0xe9, 0x4f, 0x53, 0x6e,
        0x42, 0x46,
    ];

    // Check the example cipher text
    for i in 0..16 {
        assert_eq!(standard_ct[i], ct[i]);
    }

    // Check the result of decryption
    let pt = cipher.decrypt(&ct).unwrap();
    for i in 0..16 {
        assert_eq!(pt[i], data[i]);
    }
}

#[test]
fn enc_and_dec_sm4ni() {
    let key: [u8; 16] = [
        0x01, 0x23, 0x45, 0x67, 0x89, 0xab, 0xcd, 0xef, 0xfe, 0xdc, 0xba, 0x98, 0x76, 0x54,
        0x32, 0x10,
    ];
    let cipher = Sm4Cipher::new(&key).unwrap();

    let data: [u8; 64] = [
        0x01, 0x23, 0x45, 0x67, 0x89, 0xab, 0xcd, 0xef, 0xfe, 0xdc, 0xba, 0x98, 0x76, 0x54,
        0x32, 0x10, 0x01, 0x23, 0x45, 0x67, 0x89, 0xab, 0xcd, 0xef, 0xfe, 0xdc, 0xba, 0x98,
        0x76, 0x54, 0x32, 0x10, 0x01, 0x23, 0x45, 0x67, 0x89, 0xab, 0xcd, 0xef, 0xfe, 0xdc,
        0xba, 0x98, 0x76, 0x54, 0x32, 0x10, 0x01, 0x23, 0x45, 0x67, 0x89, 0xab, 0xcd, 0xef,
        0xfe, 0xdc, 0xba, 0x98, 0x76, 0x54, 0x32, 0x10,
    ];
    let ct = cipher.encrypt_sm4ni(&data).unwrap();
    let standard_ct: [u8; 64] = [
        0x68, 0x1e, 0xdf, 0x34, 0xd2, 0x06, 0x96, 0x5e, 0x86, 0xb3, 0xe9, 0x4f, 0x53, 0x6e,
        0x42, 0x46, 0x68, 0x1e, 0xdf, 0x34, 0xd2, 0x06, 0x96, 0x5e, 0x86, 0xb3, 0xe9, 0x4f,
        0x53, 0x6e, 0x42, 0x46, 0x68, 0x1e, 0xdf, 0x34, 0xd2, 0x06, 0x96, 0x5e, 0x86, 0xb3,
        0xe9, 0x4f, 0x53, 0x6e, 0x42, 0x46, 0x68, 0x1e, 0xdf, 0x34, 0xd2, 0x06, 0x96, 0x5e,
        0x86, 0xb3, 0xe9, 0x4f, 0x53, 0x6e, 0x42, 0x46,
    ];

    // Check the example cipher text
    for i in 0..64 {
        assert_eq!(standard_ct[i], ct[i]);
    }
}

#[test]
fn key_size_boundary() {
    let key15: [u8; 15] = [0u8; 15];
    let key17: [u8; 17] = [0u8; 17];
    assert!(matches!(Sm4Cipher::new(&key15), Err(Sm4Error::InvalidKeySize)));
    assert!(matches!(Sm4Cipher::new(&key17), Err(Sm4Error::InvalidKeySize)));
}

#[test]
fn block_size_boundary() {
    let key: [u8; 16] = [0u8; 16];
    let cipher = Sm4Cipher::new(&key).unwrap();
    let block15: [u8; 15] = [0u8; 15];
    let block17: [u8; 17] = [0u8; 17];
    assert!(matches!(cipher.encrypt(&block15), Err(Sm4Error::InvalidBlockSize)));
    assert!(matches!(cipher.encrypt(&block17), Err(Sm4Error::InvalidBlockSize)));
    assert!(matches!(cipher.decrypt(&block15), Err(Sm4Error::InvalidBlockSize)));
    assert!(matches!(cipher.decrypt(&block17), Err(Sm4Error::InvalidBlockSize)));
}

#[test]
fn batch_size_boundary() {
    let key: [u8; 16] = [0u8; 16];
    let cipher = Sm4Cipher::new(&key).unwrap();
    let batch63: [u8; 63] = [0u8; 63];
    let batch65: [u8; 65] = [0u8; 65];
    assert!(matches!(cipher.encrypt_sm4ni(&batch63), Err(Sm4Error::InvalidBlockSize)));
    assert!(matches!(cipher.encrypt_sm4ni(&batch65), Err(Sm4Error::InvalidBlockSize)));
}

#[test]
fn encrypt_deterministic() {
    let key: [u8; 16] = [
        0x01, 0x23, 0x45, 0x67, 0x89, 0xab, 0xcd, 0xef, 0xfe, 0xdc, 0xba, 0x98, 0x76, 0x54,
        0x32, 0x10,
    ];
    let cipher = Sm4Cipher::new(&key).unwrap();
    let block: [u8; 16] = [
        0xde, 0xad, 0xbe, 0xef, 0x00, 0x11, 0x22, 0x33, 0x44, 0x55, 0x66, 0x77, 0x88, 0x99,
        0xaa, 0xbb,
    ];
    let first = cipher.encrypt(&block).unwrap();
    let second = cipher.encrypt(&block).unwrap();
    assert_eq!(first, second);

    let other = Sm4Cipher::new(&key).unwrap();
    let third = other.encrypt(&block).unwrap();
    assert_eq!(first, third);

    let mut batch = [0u8; 64];
    for i in 0..64 {
        batch[i] = block[i % 16];
    }
    let b1 = cipher.encrypt_sm4ni(&batch).unwrap();
    let b2 = cipher.encrypt_sm4ni(&batch).unwrap();
    assert_eq!(b1.to_vec(), b2.to_vec());
}

#[test]
fn round_trip_other_key() {
    let key: [u8; 16] = [
        0x00, 0x01, 0x02, 0x03, 0x04, 0x05, 0x06, 0x07, 0x08, 0x09, 0x0a, 0x0b, 0x0c, 0x0d,
        0x0e, 0x0f,
    ];
    let cipher = Sm4Cipher::new(&key).unwrap();
    let block: [u8; 16] = [
        0xff, 0xee, 0xdd, 0xcc, 0xbb, 0xaa, 0x99, 0x88, 0x77, 0x66, 0x55, 0x44, 0x33, 0x22,
        0x11, 0x00,
    ];
    let ct = cipher.encrypt(&block).unwrap();
    assert_ne!(ct, block);
    let pt = cipher.decrypt(&ct).unwrap();
    assert_eq!(pt, block);
}

#[test]
fn batch_matches_scalar() {
    let key: [u8; 16] = [
        0x10, 0x32, 0x54, 0x76, 0x98, 0xba, 0xdc, 0xfe, 0xef, 0xcd, 0xab, 0x89, 0x67, 0x45,
        0x23, 0x01,
    ];
    let cipher = Sm4Cipher::new(&key).unwrap();
    let mut batch = [0u8; 64];
    for i in 0..64 {
        batch[i] = i as u8;
    }
    let out = cipher.encrypt_sm4ni(&batch).unwrap();
    for i in 0..4 {
        let scalar = cipher.encrypt(&batch[16 * i..16 * i + 16]).unwrap();
        assert_eq!(&out[16 * i..16 * i + 16], &scalar[..]);
    }
}
