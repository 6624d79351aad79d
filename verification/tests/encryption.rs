use keyframe_indexer::encryption::{
    decode_hex, frame, unframe, EncryptionError, EncryptionManager, SecureParquetWriter,
};

#[test]
fn test_encrypt_decrypt_roundtrip() {
    let key = [0u8; 32]; // Test key
    let manager = EncryptionManager::with_key(&key);

    let original_data = b"Hello, World! This is test data for encryption.";

    let encrypted = manager.encrypt(original_data).unwrap();
    let decrypted = manager.decrypt(&encrypted).unwrap();

    assert_eq!(original_data, decrypted.as_slice());
}

#[test]
fn test_secure_parquet_writer() {
    let key = [0u8; 32]; // Test key
    let manager = EncryptionManager::with_key(&key);
    let writer = SecureParquetWriter { encryption_manager: manager };

    let parquet_data = b"Mock Parquet file content";

    // Write encrypted
    let stored = writer.write_encrypted_parquet(parquet_data).unwrap();

    // Read and decrypt
    let decrypted = writer.read_encrypted_parquet(&stored).unwrap();

    assert_eq!(parquet_data, decrypted.as_slice());
}

#[test]
fn round_trip_of_empty_and_large_inputs() {
    let manager = EncryptionManager::with_key(&[7u8; 32]);
    let empty = manager.encrypt(b"").unwrap();
    assert_eq!(empty.len(), 8 + 12 + 8 + 16);
    assert_eq!(manager.decrypt(&empty).unwrap(), Vec::<u8>::new());
    let large: Vec<u8> = (0..(1 << 20) + 3).map(|i| (i * 31 % 251) as u8).collect();
    let sealed = manager.encrypt(&large).unwrap();
    assert_eq!(sealed.len(), large.len() + 44);
    assert_eq!(manager.decrypt(&sealed).unwrap(), large);
}

#[test]
fn two_encryptions_of_one_plaintext_differ() {
    let manager = EncryptionManager::with_key(&[1u8; 32]);
    let a = manager.encrypt(b"the same words").unwrap();
    let b = manager.encrypt(b"the same words").unwrap();
    assert_ne!(a, b);
    assert_eq!(manager.decrypt(&a).unwrap(), manager.decrypt(&b).unwrap());
}

#[test]
fn another_key_does_not_decrypt() {
    let manager = EncryptionManager::with_key(&[1u8; 32]);
    let other = EncryptionManager::with_key(&[2u8; 32]);
    let sealed = manager.encrypt(b"for one key only").unwrap();
    assert_eq!(other.decrypt(&sealed), Err(EncryptionError::DecryptionFailed));
}

#[test]
fn changed_or_shortened_files_do_not_decrypt() {
    let manager = EncryptionManager::with_key(&[3u8; 32]);
    let sealed = manager.encrypt(b"handle with care").unwrap();
    // A changed byte of the sealed data.
    let mut changed = sealed.clone();
    let last = changed.len() - 1;
    changed[last] ^= 1;
    assert_eq!(manager.decrypt(&changed), Err(EncryptionError::DecryptionFailed));
    let mut changed = sealed.clone();
    changed[30] ^= 0x80;
    assert_eq!(manager.decrypt(&changed), Err(EncryptionError::DecryptionFailed));
    // A changed byte of the nonce.
    let mut changed = sealed.clone();
    changed[8] ^= 1;
    assert_eq!(manager.decrypt(&changed), Err(EncryptionError::DecryptionFailed));
    // Cut short.
    for len in [0, 7, 8, 19, 20, 27, 28, sealed.len() - 1] {
        assert_eq!(manager.decrypt(&sealed[..len]), Err(EncryptionError::Malformed), "{}", len);
    }
    // A nonce of another length.
    let odd = frame(&vec![0u8; 11], &vec![0u8; 16]);
    assert_eq!(manager.decrypt(&odd), Err(EncryptionError::Malformed));
    // Sealed data that is too short to hold a tag.
    let short = frame(&vec![0u8; 12], &vec![0u8; 15]);
    assert_eq!(manager.decrypt(&short), Err(EncryptionError::DecryptionFailed));
    // Bytes behind the sealed data are not looked at.
    let mut longer = sealed.clone();
    longer.extend_from_slice(b"trailing");
    assert_eq!(manager.decrypt(&longer).unwrap(), b"handle with care");
}

#[test]
fn plaintext_does_not_show_in_the_file() {
    let manager = EncryptionManager::with_key(&[9u8; 32]);
    let plaintext = b"password123secret";
    let sealed = manager.encrypt(plaintext).unwrap();
    for start in 0..=plaintext.len() - 8 {
        for end in start + 8..=plaintext.len() {
            let part = &plaintext[start..end];
            assert!(!sealed.windows(part.len()).any(|w| w == part));
        }
    }
}

#[test]
fn encryption_under_a_given_nonce_is_a_function_of_its_inputs() {
    let manager = EncryptionManager::with_key(&[4u8; 32]);
    let nonce = vec![5u8; 12];
    let a = manager.encrypt_with_nonce(&nonce, b"abc").unwrap();
    let b = manager.encrypt_with_nonce(&nonce, b"abc").unwrap();
    assert_eq!(a, b);
    assert_eq!(&a[..8], &12u64.to_le_bytes());
    assert_eq!(&a[8..20], nonce.as_slice());
    assert_eq!(&a[20..28], &19u64.to_le_bytes());
    assert_eq!(a.len(), 28 + 19);
    assert_ne!(&a[28..31], b"abc");
    assert_eq!(manager.decrypt(&a).unwrap(), b"abc");
    let c = manager.encrypt_with_nonce(&vec![6u8; 12], b"abc").unwrap();
    assert_ne!(a[28..], c[28..]);
}

#[test]
fn files_are_laid_out_as_bincode_lays_out_two_byte_vectors() {
    let nonce: Vec<u8> = (0..12).collect();
    let sealed: Vec<u8> = (0..300).map(|i| (i % 256) as u8).collect();
    let ours = frame(&nonce, &sealed);
    let theirs = bincode::serialize(&(nonce.clone(), sealed.clone())).unwrap();
    assert_eq!(ours, theirs);
    assert_eq!(unframe(&ours), Some((nonce.clone(), sealed.clone())));
    let back: (Vec<u8>, Vec<u8>) = bincode::deserialize(&ours).unwrap();
    assert_eq!(back, (nonce, sealed));
    assert_eq!(frame(&Vec::new(), &Vec::new()), vec![0u8; 16]);
    assert_eq!(unframe(&[0u8; 16]), Some((Vec::new(), Vec::new())));
    assert_eq!(unframe(&[0u8; 15]), None);
    // A length that is beyond the bytes.
    let mut liar = vec![0u8; 16];
    liar[0] = 1;
    assert_eq!(unframe(&liar), None);
    assert!(bincode::deserialize::<(Vec<u8>, Vec<u8>)>(&liar).is_err());
    let huge = [0xffu8; 16];
    assert_eq!(unframe(&huge), None);
}

#[test]
fn keys_are_read_from_hexadecimal_digits() {
    let hex = "000102030405060708090a0b0c0d0e0f101112131415161718191A1B1C1D1E1F";
    let manager = EncryptionManager::new(Some(hex)).unwrap();
    let expected: Vec<u8> = (0..32).collect();
    assert_eq!(manager.key.to_vec(), expected);
    let same = EncryptionManager::with_key(&manager.key);
    let sealed = manager.encrypt(b"x").unwrap();
    assert_eq!(same.decrypt(&sealed).unwrap(), b"x");
    assert_eq!(EncryptionManager::new(Some("00ff")).err(), Some(EncryptionError::InvalidKeyLength));
    assert_eq!(EncryptionManager::new(Some("")).err(), Some(EncryptionError::InvalidKeyLength));
    assert_eq!(EncryptionManager::new(Some("abc")).err(), Some(EncryptionError::InvalidKeyFormat));
    assert_eq!(EncryptionManager::new(Some("zz")).err(), Some(EncryptionError::InvalidKeyFormat));
    let long = "0".repeat(66);
    assert_eq!(EncryptionManager::new(Some(long.as_str())).err(), Some(EncryptionError::InvalidKeyLength));
    // Without a key a new one is made each time.
    let a = EncryptionManager::new(None).unwrap();
    let b = EncryptionManager::new(None).unwrap();
    assert_ne!(a.key, b.key);
    assert!(SecureParquetWriter::new(Some(hex)).is_ok());
    assert_eq!(SecureParquetWriter::new(Some("q")).err(), Some(EncryptionError::InvalidKeyFormat));
}

#[test]
fn hexadecimal_digits() {
    assert_eq!(decode_hex("48656c6c6f20776f726c6421"), Some(b"Hello world!".to_vec()));
    assert_eq!(decode_hex("f9b4ca"), Some(vec![0xf9, 0xb4, 0xca]));
    assert_eq!(decode_hex("F9B4CA"), Some(vec![0xf9, 0xb4, 0xca]));
    assert_eq!(decode_hex("f9B4Ca"), Some(vec![0xf9, 0xb4, 0xca]));
    assert_eq!(decode_hex(""), Some(Vec::new()));
    assert_eq!(decode_hex("123"), None);
    assert_eq!(decode_hex("foo"), None);
    assert_eq!(decode_hex("0g"), None);
    assert_eq!(decode_hex("é0"), None);
    assert_eq!(decode_hex(" 00"), None);
    for text in ["00ff", "1234abcdEF", "7", "xy", "0x10"] {
        assert_eq!(decode_hex(text), hex::decode(text).ok());
    }
}

#[test]
fn error_messages() {
    assert_eq!(EncryptionError::DecryptionFailed.to_string(), "Decryption failed");
    assert_eq!(EncryptionError::EncryptionFailed.to_string(), "Encryption failed");
    assert_eq!(EncryptionError::Malformed.to_string(), "Failed to deserialize encrypted data");
    assert_eq!(EncryptionError::InvalidKeyFormat.to_string(), "Invalid encryption key format");
    assert_eq!(EncryptionError::InvalidKeyLength.to_string(), "Encryption key must be 32 bytes");
}
