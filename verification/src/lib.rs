//! Parquet modular encryption: the cryptographic core that seals and opens the
//! modules of a Parquet file (footer, column metadata, pages, page headers,
//! indexes, bloom filters) with AES-128-GCM, binding each ciphertext to its
//! place in the file through additional authenticated data.
//!
//! A writer builds [`encrypt::FileEncryptionProperties`], makes one
//! [`encrypt::FileEncryptor`] per file and one
//! [`page_encryptor::PageEncryptor`] per column chunk. A reader builds
//! [`decryption::FileDecryptionProperties`] and makes a
//! [`decryption::FileDecryptor`]. Both build the additional authenticated data
//! of a module with [`modules::create_module_aad`], and seal and open frames
//! through the traits of [`ciphers`]. What is taken on trust about the `ring`
//! crate is stated in [`aead`].

pub mod aead;
pub mod ciphers;
pub mod column_crypto_metadata;
pub mod column_keys;
pub mod decryption;
pub mod encrypt;
pub mod errors;
pub mod little_endian;
pub mod modules;
pub mod page;
pub mod page_encryptor;
pub mod schema;
