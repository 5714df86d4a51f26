use parquet_encryption::ciphers::{
    BlockDecryptor, BlockEncryptor, CounterNonce, RingGcmBlockDecryptor, RingGcmBlockEncryptor,
};
use parquet_encryption::column_crypto_metadata::{ColumnCryptoMetaData, EncryptionWithColumnKey};
use parquet_encryption::column_keys::ColumnKeys;
use parquet_encryption::encrypt::{
    encrypt_object, encrypt_object_to_vec, get_column_crypto_metadata, EncryptionKey,
    EncryptionPropertiesBuilder, FileEncryptionProperties, FileEncryptor,
};
use parquet_encryption::errors::ParquetError;
use parquet_encryption::schema::ColumnPath;

const K1: [u8; 16] = [1u8; 16];
const K2: [u8; 16] = [2u8; 16];
const K3: [u8; 16] = [3u8; 16];

fn uniform() -> FileEncryptionProperties {
    FileEncryptionProperties::builder(K1.to_vec()).build().unwrap()
}

fn selective() -> FileEncryptionProperties {
    FileEncryptionProperties::builder(K1.to_vec())
        .with_column_key(
            "col_a".to_string(),
            EncryptionKey::new(K2.to_vec()).with_metadata(b"kms-id-a".to_vec()),
        )
        .build()
        .unwrap()
}

fn path(parts: &[&str]) -> ColumnPath {
    ColumnPath::new(parts.iter().map(|p| p.to_string()).collect())
}

/// Checks that `encryptor` seals under `key`: what it seals opens under `key`.
fn seals_under(encryptor: &mut Box<dyn BlockEncryptor>, key: &[u8]) -> bool {
    let frame = encryptor.encrypt(b"probe", b"aad").unwrap();
    RingGcmBlockDecryptor::new(key).unwrap().decrypt(&frame, b"aad") == Ok(b"probe".to_vec())
}

#[test]
fn encryption_key_keeps_key_and_metadata() {
    let key = EncryptionKey::new(vec![1, 2, 3]);
    assert_eq!(key.key(), &vec![1u8, 2, 3]);
    assert_eq!(key.key_metadata(), None);
    let key = key.with_metadata(vec![9, 8]);
    assert_eq!(key.key(), &vec![1u8, 2, 3]);
    assert_eq!(key.key_metadata(), Some(&vec![9u8, 8]));
    let key = key.with_metadata(vec![7]);
    assert_eq!(key.key_metadata(), Some(&vec![7u8]));
    assert_eq!(key.clone(), key);
}

#[test]
fn builder_defaults() {
    let properties = FileEncryptionProperties::builder(K1.to_vec()).build().unwrap();
    assert!(properties.encrypt_footer());
    assert_eq!(properties.footer_key().key(), &K1.to_vec());
    assert_eq!(properties.footer_key_metadata(), None);
    assert_eq!(properties.aad_prefix(), None);
    assert!(!properties.store_aad_prefix());
    assert!(properties.column_keys().is_empty());

    let same = EncryptionPropertiesBuilder::new(K1.to_vec()).build().unwrap();
    assert!(same.encrypt_footer());
    assert_eq!(same.footer_key().key(), &K1.to_vec());
}

#[test]
fn builder_settings() {
    let properties = FileEncryptionProperties::builder(K1.to_vec())
        .with_plaintext_footer(true)
        .with_footer_key_metadata(b"footer-kms".to_vec())
        .with_aad_prefix(b"prefix".to_vec())
        .with_column_key("a.b".to_string(), EncryptionKey::new(K2.to_vec()))
        .build()
        .unwrap();
    assert!(!properties.encrypt_footer());
    assert_eq!(properties.footer_key_metadata(), Some(&b"footer-kms".to_vec()));
    assert_eq!(properties.aad_prefix(), Some(&b"prefix".to_vec()));
    assert!(properties.store_aad_prefix());
    assert!(properties.column_keys().contains_key("a.b"));
    assert!(!properties.column_keys().contains_key("a"));

    let again = FileEncryptionProperties::builder(K1.to_vec())
        .with_plaintext_footer(true)
        .with_plaintext_footer(false)
        .build()
        .unwrap();
    assert!(again.encrypt_footer());
}

#[test]
fn aad_prefix_is_stored_only_if_there_is_one() {
    let asked_without_prefix = FileEncryptionProperties::builder(K1.to_vec())
        .with_aad_prefix_storage(true)
        .build()
        .unwrap();
    assert!(!asked_without_prefix.store_aad_prefix());

    let prefix_not_stored = FileEncryptionProperties::builder(K1.to_vec())
        .with_aad_prefix(b"p".to_vec())
        .with_aad_prefix_storage(false)
        .build()
        .unwrap();
    assert!(!prefix_not_stored.store_aad_prefix());
    assert_eq!(prefix_not_stored.aad_prefix(), Some(&b"p".to_vec()));

    let prefix_stored = FileEncryptionProperties::builder(K1.to_vec())
        .with_aad_prefix(b"p".to_vec())
        .with_aad_prefix_storage(true)
        .build()
        .unwrap();
    assert!(prefix_stored.store_aad_prefix());
}

#[test]
fn keys_of_wrong_length_are_refused_at_build() {
    for len in [0usize, 15, 17, 24, 32] {
        assert_eq!(
            FileEncryptionProperties::builder(vec![0u8; len]).build().err(),
            Some(ParquetError::CryptoSetup)
        );
        assert_eq!(
            FileEncryptionProperties::builder(K1.to_vec())
                .with_column_key("good".to_string(), EncryptionKey::new(K2.to_vec()))
                .with_column_key("bad".to_string(), EncryptionKey::new(vec![0u8; len]))
                .build()
                .err(),
            Some(ParquetError::CryptoSetup)
        );
    }
}

#[test]
fn replaced_column_key_is_the_one_that_counts() {
    let properties = FileEncryptionProperties::builder(K1.to_vec())
        .with_column_key("c".to_string(), EncryptionKey::new(vec![0u8; 3]))
        .with_column_key("c".to_string(), EncryptionKey::new(K3.to_vec()))
        .build()
        .unwrap();
    assert_eq!(properties.column_keys().get("c").map(|k| k.key().clone()), Some(K3.to_vec()));

    let refused = FileEncryptionProperties::builder(K1.to_vec())
        .with_column_key("c".to_string(), EncryptionKey::new(K3.to_vec()))
        .with_column_key("c".to_string(), EncryptionKey::new(vec![0u8; 3]))
        .build();
    assert_eq!(refused.err(), Some(ParquetError::CryptoSetup));
}

#[test]
fn column_keys_map() {
    let keys = ColumnKeys::new();
    assert!(keys.is_empty());
    assert!(!keys.contains_key("a"));
    assert!(keys.get("a").is_none());
    assert!(keys.all_keys_have_len(16));

    let keys = keys.insert("a".to_string(), EncryptionKey::new(K1.to_vec()));
    let keys = keys.insert("b".to_string(), EncryptionKey::new(K2.to_vec()));
    assert!(!keys.is_empty());
    assert!(keys.contains_key("a"));
    assert!(keys.contains_key("b"));
    assert!(!keys.contains_key("c"));
    assert!(!keys.contains_key(""));
    assert_eq!(keys.get("a").unwrap().key(), &K1.to_vec());
    assert_eq!(keys.get("b").unwrap().key(), &K2.to_vec());
    assert!(keys.all_keys_have_len(16));

    let keys = keys.insert("a".to_string(), EncryptionKey::new(vec![5u8; 4]));
    assert_eq!(keys.get("a").unwrap().key(), &vec![5u8; 4]);
    assert_eq!(keys.get("b").unwrap().key(), &K2.to_vec());
    assert!(!keys.all_keys_have_len(16));
    assert!(!keys.all_keys_have_len(4));
}

#[test]
fn file_aad_is_the_unique_part_without_prefix() {
    let encryptor = FileEncryptor::with_aad_file_unique(uniform(), vec![1, 2, 3, 4, 5, 6, 7, 8]);
    assert_eq!(encryptor.aad_file_unique(), &vec![1u8, 2, 3, 4, 5, 6, 7, 8]);
    assert_eq!(encryptor.file_aad(), &[1u8, 2, 3, 4, 5, 6, 7, 8]);
}

#[test]
fn file_aad_is_prefix_then_unique_part() {
    let properties = FileEncryptionProperties::builder(K1.to_vec())
        .with_aad_prefix(b"prefix".to_vec())
        .build()
        .unwrap();
    let encryptor = FileEncryptor::with_aad_file_unique(properties, vec![1, 2, 3, 4, 5, 6, 7, 8]);
    assert_eq!(encryptor.file_aad(), b"prefix\x01\x02\x03\x04\x05\x06\x07\x08");
    assert_eq!(encryptor.properties().aad_prefix(), Some(&b"prefix".to_vec()));
}

#[test]
fn new_file_encryptor_draws_eight_random_bytes() {
    let first = FileEncryptor::new(uniform()).unwrap();
    let second = FileEncryptor::new(uniform()).unwrap();
    assert_eq!(first.aad_file_unique().len(), 8);
    assert_eq!(first.file_aad(), first.aad_file_unique().as_slice());
    assert_ne!(first.aad_file_unique(), second.aad_file_unique());

    let properties = FileEncryptionProperties::builder(K1.to_vec())
        .with_aad_prefix(b"pre".to_vec())
        .build()
        .unwrap();
    let prefixed = FileEncryptor::new(properties).unwrap();
    assert_eq!(prefixed.file_aad().len(), 11);
    assert_eq!(&prefixed.file_aad()[..3], b"pre");
    assert_eq!(&prefixed.file_aad()[3..], prefixed.aad_file_unique().as_slice());
}

#[test]
fn uniform_mode_encrypts_every_column_with_the_footer_key() {
    let encryptor = FileEncryptor::new(uniform()).unwrap();
    for column in ["col_a", "col_b", "", "a.b.c"] {
        assert!(encryptor.is_column_encrypted(column));
        assert_eq!(encryptor.column_key(column).unwrap().key(), &K1.to_vec());
        let mut block = encryptor.get_column_encryptor(column).unwrap();
        assert!(seals_under(&mut block, &K1));
    }
    let mut footer = encryptor.get_footer_encryptor().unwrap();
    assert!(seals_under(&mut footer, &K1));
}

#[test]
fn selective_mode_encrypts_only_columns_with_a_key() {
    let encryptor = FileEncryptor::new(selective()).unwrap();
    assert!(encryptor.is_column_encrypted("col_a"));
    assert!(!encryptor.is_column_encrypted("col_b"));
    assert!(!encryptor.is_column_encrypted(""));

    let mut block = encryptor.get_column_encryptor("col_a").unwrap();
    assert!(seals_under(&mut block, &K2));
    assert!(!seals_under(&mut encryptor.get_column_encryptor("col_a").unwrap(), &K1));

    assert_eq!(
        encryptor.get_column_encryptor("col_b").err(),
        Some(ParquetError::UnencryptedColumn)
    );
    assert_eq!(encryptor.column_key("col_b").err(), Some(ParquetError::UnencryptedColumn));

    let mut footer = encryptor.get_footer_encryptor().unwrap();
    assert!(seals_under(&mut footer, &K1));
}

#[test]
fn dispensed_encryptors_are_fresh() {
    let encryptor = FileEncryptor::new(uniform()).unwrap();
    let mut first = encryptor.get_column_encryptor("c").unwrap();
    let mut second = encryptor.get_column_encryptor("c").unwrap();
    let a = first.encrypt(b"p", b"a").unwrap();
    let b = second.encrypt(b"p", b"a").unwrap();
    assert_ne!(&a[4..16], &b[4..16]);
}

#[test]
fn crypto_metadata_uniform_and_selective() {
    let properties = uniform();
    for column in [path(&["col_a"]), path(&["col_b"]), path(&["a", "b"])] {
        assert_eq!(
            get_column_crypto_metadata(&properties, &column),
            Some(ColumnCryptoMetaData::EncryptionWithFooterKey)
        );
    }

    let properties = selective();
    assert_eq!(
        get_column_crypto_metadata(&properties, &path(&["col_a"])),
        Some(ColumnCryptoMetaData::EncryptionWithColumnKey(EncryptionWithColumnKey {
            path_in_schema: vec!["col_a".to_string()],
            key_metadata: Some(b"kms-id-a".to_vec()),
        }))
    );
    assert_eq!(get_column_crypto_metadata(&properties, &path(&["col_b"])), None);

    let encryptor = FileEncryptor::new(selective()).unwrap();
    assert_eq!(
        encryptor.get_column_encryptor("col_b").err(),
        Some(ParquetError::UnencryptedColumn)
    );
}

#[test]
fn crypto_metadata_of_a_nested_column() {
    let properties = FileEncryptionProperties::builder(K1.to_vec())
        .with_column_key("a.b.c".to_string(), EncryptionKey::new(K2.to_vec()))
        .build()
        .unwrap();
    assert_eq!(
        get_column_crypto_metadata(&properties, &path(&["a", "b", "c"])),
        Some(ColumnCryptoMetaData::EncryptionWithColumnKey(EncryptionWithColumnKey {
            path_in_schema: vec!["a".to_string(), "b".to_string(), "c".to_string()],
            key_metadata: None,
        }))
    );
    assert_eq!(get_column_crypto_metadata(&properties, &path(&["a", "b"])), None);
    assert_eq!(get_column_crypto_metadata(&properties, &path(&["a.b.c", "d"])), None);
}

#[test]
fn column_path_joins_its_parts_with_dots() {
    assert_eq!(path(&[]).string(), "");
    assert_eq!(path(&["a"]).string(), "a");
    assert_eq!(path(&["a", "b", "c"]).string(), "a.b.c");
    assert_eq!(path(&["", "x"]).string(), ".x");
    assert_eq!(path(&["a", "b"]).parts(), &vec!["a".to_string(), "b".to_string()]);
}

#[test]
fn encrypt_object_appends_one_frame() {
    let nonces = CounterNonce::from_seed(0);
    let mut encryptor: Box<dyn BlockEncryptor> =
        Box::new(RingGcmBlockEncryptor::with_nonce_sequence(&K1, nonces).unwrap());
    let mut sink = b"before".to_vec();
    encrypt_object(b"object bytes", &mut encryptor, &mut sink, b"module aad").unwrap();
    assert_eq!(&sink[..6], b"before");
    assert_eq!(sink.len(), 6 + 4 + 12 + 12 + 16);
    assert_eq!(&sink[6..10], &[40u8, 0, 0, 0]);
    assert_eq!(&sink[10..22], &[1u8, 0, 0, 0, 0, 0, 0, 0, 0, 0, 0, 0]);
    let decryptor = RingGcmBlockDecryptor::new(&K1).unwrap();
    assert_eq!(decryptor.decrypt(&sink[6..], b"module aad"), Ok(b"object bytes".to_vec()));

    let frame = encrypt_object_to_vec(b"object bytes", &mut encryptor, b"module aad").unwrap();
    assert_eq!(&frame[4..16], &[2u8, 0, 0, 0, 0, 0, 0, 0, 0, 0, 0, 0]);
    assert_eq!(decryptor.decrypt(&frame, b"module aad"), Ok(b"object bytes".to_vec()));
}

#[test]
fn encrypt_object_writes_nothing_when_sealing_fails() {
    let nonces = CounterNonce::from_seed_after(0, parquet_encryption::ciphers::MAX_NONCES);
    let mut encryptor: Box<dyn BlockEncryptor> =
        Box::new(RingGcmBlockEncryptor::with_nonce_sequence(&K1, nonces).unwrap());
    let mut sink = b"before".to_vec();
    assert_eq!(
        encrypt_object(b"object", &mut encryptor, &mut sink, b"aad"),
        Err(ParquetError::NonceExhausted)
    );
    assert_eq!(sink, b"before".to_vec());
    assert_eq!(
        encrypt_object_to_vec(b"object", &mut encryptor, b"aad"),
        Err(ParquetError::NonceExhausted)
    );
}

#[test]
fn encryption_keys_are_equal_by_key_and_metadata() {
    let plain = EncryptionKey::new(K1.to_vec());
    assert!(plain == EncryptionKey::new(K1.to_vec()));
    assert!(plain != EncryptionKey::new(K2.to_vec()));
    assert!(plain != EncryptionKey::new(K1[..15].to_vec()));
    let with_metadata = EncryptionKey::new(K1.to_vec()).with_metadata(b"m".to_vec());
    assert!(plain != with_metadata);
    assert!(with_metadata == EncryptionKey::new(K1.to_vec()).with_metadata(b"m".to_vec()));
    assert!(with_metadata != EncryptionKey::new(K1.to_vec()).with_metadata(b"n".to_vec()));
    assert!(with_metadata != EncryptionKey::new(K1.to_vec()).with_metadata(vec![]));
}

#[test]
fn properties_are_equal_by_their_settings() {
    let build = |order: bool| {
        let (first, second) = if order { ("a", "b") } else { ("b", "a") };
        FileEncryptionProperties::builder(K1.to_vec())
            .with_aad_prefix(b"prefix".to_vec())
            .with_column_key(first.to_string(), EncryptionKey::new(K2.to_vec()))
            .with_column_key(second.to_string(), EncryptionKey::new(K2.to_vec()))
            .build()
            .unwrap()
    };
    assert!(build(true) == build(true));
    assert!(build(true) == build(false));
    assert!(build(true) == build(false).clone());
    assert!(uniform() == uniform().clone());
    assert!(uniform() != selective());
    assert!(selective() == selective());
    assert!(build(true) != selective());

    let other_key_for_b = FileEncryptionProperties::builder(K1.to_vec())
        .with_aad_prefix(b"prefix".to_vec())
        .with_column_key("a".to_string(), EncryptionKey::new(K2.to_vec()))
        .with_column_key("b".to_string(), EncryptionKey::new(K3.to_vec()))
        .build()
        .unwrap();
    assert!(build(true) != other_key_for_b);
    let one_more = FileEncryptionProperties::builder(K1.to_vec())
        .with_aad_prefix(b"prefix".to_vec())
        .with_column_key("a".to_string(), EncryptionKey::new(K2.to_vec()))
        .with_column_key("b".to_string(), EncryptionKey::new(K2.to_vec()))
        .with_column_key("c".to_string(), EncryptionKey::new(K2.to_vec()))
        .build()
        .unwrap();
    assert!(build(true) != one_more);
    assert!(one_more != build(true));

    let plaintext_footer =
        FileEncryptionProperties::builder(K1.to_vec()).with_plaintext_footer(true).build().unwrap();
    assert!(uniform() != plaintext_footer);
    let not_stored = FileEncryptionProperties::builder(K1.to_vec())
        .with_aad_prefix_storage(false)
        .build()
        .unwrap();
    assert!(uniform() != not_stored);
    let prefixed =
        FileEncryptionProperties::builder(K1.to_vec()).with_aad_prefix(vec![]).build().unwrap();
    assert!(uniform() != prefixed);
}

#[test]
fn cloned_properties_keep_every_setting() {
    let properties = FileEncryptionProperties::builder(K1.to_vec())
        .with_plaintext_footer(true)
        .with_footer_key_metadata(b"fm".to_vec())
        .with_aad_prefix(b"prefix".to_vec())
        .with_aad_prefix_storage(false)
        .with_column_key("a".to_string(), EncryptionKey::new(K2.to_vec()).with_metadata(vec![1]))
        .build()
        .unwrap();
    let copy = properties.clone();
    assert!(!copy.encrypt_footer());
    assert_eq!(copy.footer_key_metadata(), Some(&b"fm".to_vec()));
    assert_eq!(copy.aad_prefix(), Some(&b"prefix".to_vec()));
    assert!(!copy.store_aad_prefix());
    assert_eq!(copy.column_keys().get("a").unwrap().key_metadata(), Some(&vec![1u8]));
    assert_eq!(copy, properties);
}
