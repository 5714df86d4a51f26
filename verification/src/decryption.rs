//! File decryption: decryption properties and the file decryptor that
//! dispenses the block decryptor of the footer.

use crate::aead::KEY_LEN;
use crate::ciphers::{BlockDecryptor, RingGcmBlockDecryptor};
use crate::encrypt::file_aad_of;
use crate::errors::{bytes_equal, bytes_of, ParquetError};
use crate::modules::{create_module_aad, module_aad, ModuleType};
use vstd::prelude::*;

verus! {

/// The bytes of an optional byte string, for use in contracts.
pub open spec fn optional_bytes(bytes: Option<Vec<u8>>) -> Option<Seq<u8>> {
    match bytes {
        Some(present) => Some(present@),
        None => None,
    }
}

/// How a file is decrypted: with which footer key, if the reader has it at
/// hand.
#[derive(Debug)]
pub struct FileDecryptionProperties {
    footer_key: Option<Vec<u8>>,
}

impl FileDecryptionProperties {
    #[verifier::type_invariant]
    spec fn well_formed(self) -> bool {
        self.footer_key matches Some(key) ==> key@.len() == KEY_LEN
    }

    /// The key of the footer, if the properties hold it.
    pub closed spec fn spec_footer_key(&self) -> Option<Seq<u8>> {
        optional_bytes(self.footer_key)
    }

    /// A builder without a footer key.
    pub fn builder() -> (builder: DecryptionPropertiesBuilder)
        ensures
            builder.spec_footer_key() is None,
    {
        DecryptionPropertiesBuilder::with_defaults()
    }

    /// Whether the properties hold the key of the footer.
    pub fn has_footer_key(&self) -> (has: bool)
        ensures
            has == self.spec_footer_key() is Some,
    {
        self.footer_key.is_some()
    }

    /// The key of the footer, if the properties hold it: it has 16 bytes.
    pub fn footer_key(&self) -> (key: Option<&Vec<u8>>)
        ensures
            match key {
                Some(bytes) => self.spec_footer_key() == Some(bytes@) && bytes@.len() == KEY_LEN,
                None => self.spec_footer_key() is None,
            },
    {
        proof {
            use_type_invariant(self);
        }
        self.footer_key.as_ref()
    }

    /// Whether two properties hold the same footer key, or both none.
    pub fn same_as(&self, other: &FileDecryptionProperties) -> (same: bool)
        ensures
            same == (self.spec_footer_key() == other.spec_footer_key()),
    {
        match (&self.footer_key, &other.footer_key) {
            (Some(left), Some(right)) => bytes_equal(left.as_slice(), right.as_slice()),
            (None, None) => true,
            _ => false,
        }
    }
}

impl Clone for FileDecryptionProperties {
    fn clone(&self) -> (copy: Self)
        ensures
            copy.spec_footer_key() == self.spec_footer_key(),
    {
        proof {
            use_type_invariant(self);
        }
        let footer_key = match &self.footer_key {
            Some(key) => Some(key.clone()),
            None => None,
        };
        FileDecryptionProperties { footer_key }
    }
}

impl PartialEq for FileDecryptionProperties {
    fn eq(&self, other: &Self) -> (equal: bool) {
        self.same_as(other)
    }
}

impl vstd::std_specs::cmp::PartialEqSpecImpl for FileDecryptionProperties {
    open spec fn obeys_eq_spec() -> bool {
        true
    }

    open spec fn eq_spec(&self, other: &Self) -> bool {
        self.spec_footer_key() == other.spec_footer_key()
    }
}

/// Collects the settings of a [`FileDecryptionProperties`].
#[derive(Debug)]
pub struct DecryptionPropertiesBuilder {
    footer_key: Option<Vec<u8>>,
}

impl DecryptionPropertiesBuilder {
    /// The key of the footer, if one was set.
    pub closed spec fn spec_footer_key(&self) -> Option<Seq<u8>> {
        optional_bytes(self.footer_key)
    }

    /// A builder without a footer key.
    pub fn with_defaults() -> (builder: Self)
        ensures
            builder.spec_footer_key() is None,
    {
        Self { footer_key: None }
    }

    /// Sets the key of the footer.
    pub fn with_footer_key(self, value: Vec<u8>) -> (builder: Self)
        ensures
            builder.spec_footer_key() == Some(value@),
    {
        Self { footer_key: Some(value) }
    }

    /// The properties with the settings collected, unless a footer key was
    /// set that is not 16 bytes long.
    pub fn build(self) -> (properties: Result<FileDecryptionProperties, ParquetError>)
        ensures
            match properties {
                Ok(built) => {
                    &&& built.spec_footer_key() == self.spec_footer_key()
                    &&& self.spec_footer_key() matches Some(key) ==> key.len() == KEY_LEN
                },
                Err(e) => {
                    &&& self.spec_footer_key() matches Some(key) && key.len() != KEY_LEN
                    &&& e == ParquetError::CryptoSetup
                },
            },
    {
        match &self.footer_key {
            Some(key) => {
                if key.len() != KEY_LEN {
                    return Err(ParquetError::CryptoSetup);
                }
            },
            None => {},
        }
        Ok(FileDecryptionProperties { footer_key: self.footer_key })
    }
}

/// A file decryptor as contracts see it.
pub struct FileDecryptorView {
    /// The key of the footer, if the reader has it at hand.
    pub footer_key: Option<Seq<u8>>,
    /// The random part of the file's AAD, as the file records it.
    pub aad_file_unique: Seq<u8>,
    /// The user's part of the file's AAD; empty where there is none.
    pub aad_prefix: Seq<u8>,
}

impl FileDecryptorView {
    /// The file's AAD: the random part after the prefix.
    pub open spec fn file_aad(self) -> Seq<u8> {
        file_aad_of(Some(self.aad_prefix), self.aad_file_unique)
    }
}

/// The decryption state of one input file: its properties and the two parts
/// of its AAD, which are read from the file when it is opened.
#[derive(Debug)]
pub struct FileDecryptor {
    decryption_properties: FileDecryptionProperties,
    footer_decryptor: Option<RingGcmBlockDecryptor>,
    aad_file_unique: Vec<u8>,
    aad_prefix: Vec<u8>,
}

impl View for FileDecryptor {
    type V = FileDecryptorView;

    closed spec fn view(&self) -> FileDecryptorView {
        FileDecryptorView {
            footer_key: self.decryption_properties.spec_footer_key(),
            aad_file_unique: self.aad_file_unique@,
            aad_prefix: self.aad_prefix@,
        }
    }
}

impl FileDecryptor {
    #[verifier::type_invariant]
    spec fn well_formed(self) -> bool {
        match self.footer_decryptor {
            Some(decryptor) => self.decryption_properties.spec_footer_key() == Some(
                decryptor.key(),
            ),
            None => self.decryption_properties.spec_footer_key() is None,
        }
    }

    /// The decryptor of a file with the given parts of its AAD.
    pub fn new(
        decryption_properties: &FileDecryptionProperties,
        aad_file_unique: Vec<u8>,
        aad_prefix: Vec<u8>,
    ) -> (decryptor: Self)
        ensures
            decryptor@ == (FileDecryptorView {
                footer_key: decryption_properties.spec_footer_key(),
                aad_file_unique: aad_file_unique@,
                aad_prefix: aad_prefix@,
            }),
    {
        let footer_decryptor = match decryption_properties.footer_key() {
            Some(footer_key) => match RingGcmBlockDecryptor::new(footer_key.as_slice()) {
                Ok(decryptor) => Some(decryptor),
                Err(_) => None,
            },
            None => None,
        };
        Self {
            footer_decryptor,
            decryption_properties: decryption_properties.clone(),
            aad_file_unique,
            aad_prefix,
        }
    }

    /// The properties that the file is decrypted under.
    pub fn decryption_properties(&self) -> (properties: &FileDecryptionProperties)
        ensures
            properties.spec_footer_key() == self@.footer_key,
    {
        &self.decryption_properties
    }

    /// A decryptor under the key of the footer, if the reader has the key at
    /// hand.
    pub fn footer_decryptor(&self) -> (decryptor: Option<RingGcmBlockDecryptor>)
        ensures
            match decryptor {
                Some(found) => self@.footer_key == Some(found.key()),
                None => self@.footer_key is None,
            },
    {
        proof {
            use_type_invariant(self);
        }
        match &self.footer_decryptor {
            Some(decryptor) => Some(decryptor.clone()),
            None => None,
        }
    }

    /// The random part of the file's AAD.
    pub fn aad_file_unique(&self) -> (unique: &Vec<u8>)
        ensures
            unique@ == self@.aad_file_unique,
    {
        &self.aad_file_unique
    }

    /// The user's part of the file's AAD.
    pub fn aad_prefix(&self) -> (prefix: &Vec<u8>)
        ensures
            prefix@ == self@.aad_prefix,
    {
        &self.aad_prefix
    }

    /// The AAD of a module of the file, built as the writer built it. The
    /// decryptor is not changed.
    pub fn module_aad(
        &self,
        module_type: ModuleType,
        row_group_ordinal: i32,
        column_ordinal: i32,
        page_ordinal: i32,
    ) -> (aad: Result<Vec<u8>, ParquetError>)
        ensures
            bytes_of(aad) == module_aad(
                self@.file_aad(),
                module_type,
                row_group_ordinal as int,
                column_ordinal as int,
                page_ordinal as int,
            ),
    {
        let mut file_aad: Vec<u8> = Vec::new();
        file_aad.extend_from_slice(self.aad_prefix.as_slice());
        file_aad.extend_from_slice(self.aad_file_unique.as_slice());
        assert(file_aad@ =~= self@.file_aad());
        create_module_aad(
            file_aad.as_slice(),
            module_type,
            row_group_ordinal,
            column_ordinal,
            page_ordinal,
        )
    }

    /// Whether two decryptors decrypt under the same properties.
    pub fn same_properties(&self, other: &FileDecryptor) -> (same: bool)
        ensures
            same == (self@.footer_key == other@.footer_key),
    {
        self.decryption_properties.same_as(&other.decryption_properties)
    }
}

/// Two file decryptors are equal where their properties are.
impl PartialEq for FileDecryptor {
    fn eq(&self, other: &Self) -> (equal: bool) {
        self.same_properties(other)
    }
}

impl vstd::std_specs::cmp::PartialEqSpecImpl for FileDecryptor {
    open spec fn obeys_eq_spec() -> bool {
        true
    }

    open spec fn eq_spec(&self, other: &Self) -> bool {
        self@.footer_key == other@.footer_key
    }
}

} // verus!
