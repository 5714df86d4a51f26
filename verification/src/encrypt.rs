//! File encryption: keys, encryption properties and the file encryptor that
//! dispenses a block encryptor for the footer and for each column.

use crate::aead::{fill_random, KEY_LEN};
use crate::ciphers::{encrypted, BlockEncryptor, RingGcmBlockEncryptor, MAX_PLAINTEXT_LEN};
use crate::column_crypto_metadata::{
    ColumnCryptoMetaData, ColumnCryptoMetaDataView, EncryptionWithColumnKey,
};
use crate::column_keys::ColumnKeys;
use crate::errors::{bytes_equal, bytes_of, ParquetError};
use crate::schema::{clone_strings, dotted, ColumnPath};
use ring::rand::SystemRandom;
use vstd::prelude::*;

verus! {

/// The length of the random part of a file's AAD in bytes.
pub const AAD_FILE_UNIQUE_LEN: usize = 8;

/// A key as contracts see it.
pub struct EncryptionKeyView {
    /// The key material.
    pub key: Seq<u8>,
    /// What a key management system needs to find the key again; this crate
    /// stores it and never reads it.
    pub key_metadata: Option<Seq<u8>>,
}

/// Key material with optional metadata for a key management system.
#[derive(Debug)]
pub struct EncryptionKey {
    key: Vec<u8>,
    key_metadata: Option<Vec<u8>>,
}

impl View for EncryptionKey {
    type V = EncryptionKeyView;

    closed spec fn view(&self) -> EncryptionKeyView {
        EncryptionKeyView {
            key: self.key@,
            key_metadata: match self.key_metadata {
                Some(metadata) => Some(metadata@),
                None => None,
            },
        }
    }
}

impl Clone for EncryptionKey {
    fn clone(&self) -> (copy: Self)
        ensures
            copy@ == self@,
    {
        let key_metadata = match &self.key_metadata {
            Some(metadata) => Some(metadata.clone()),
            None => None,
        };
        EncryptionKey { key: self.key.clone(), key_metadata }
    }
}

impl PartialEq for EncryptionKey {
    fn eq(&self, other: &Self) -> (equal: bool) {
        self.same_as(other)
    }
}

impl vstd::std_specs::cmp::PartialEqSpecImpl for EncryptionKey {
    open spec fn obeys_eq_spec() -> bool {
        true
    }

    open spec fn eq_spec(&self, other: &Self) -> bool {
        self@ == other@
    }
}

impl EncryptionKey {
    /// Whether two keys have the same key material and the same metadata.
    pub fn same_as(&self, other: &EncryptionKey) -> (same: bool)
        ensures
            same == (self@ == other@),
    {
        if !bytes_equal(self.key.as_slice(), other.key.as_slice()) {
            return false;
        }
        match (&self.key_metadata, &other.key_metadata) {
            (Some(left), Some(right)) => bytes_equal(left.as_slice(), right.as_slice()),
            (None, None) => true,
            _ => false,
        }
    }

    /// A key without metadata.
    pub fn new(key: Vec<u8>) -> (made: EncryptionKey)
        ensures
            made@ == (EncryptionKeyView { key: key@, key_metadata: None }),
    {
        Self { key, key_metadata: None }
    }

    /// The same key with `metadata` in place of any it had.
    pub fn with_metadata(self, metadata: Vec<u8>) -> (made: Self)
        ensures
            made@ == (EncryptionKeyView { key: self@.key, key_metadata: Some(metadata@) }),
    {
        let mut made = self;
        made.key_metadata = Some(metadata);
        made
    }

    /// The key material.
    pub fn key(&self) -> (key: &Vec<u8>)
        ensures
            key@ == self@.key,
    {
        &self.key
    }

    /// The metadata, if the key has any.
    pub fn key_metadata(&self) -> (metadata: Option<&Vec<u8>>)
        ensures
            match metadata {
                Some(bytes) => self@.key_metadata == Some(bytes@),
                None => self@.key_metadata is None,
            },
    {
        self.key_metadata.as_ref()
    }
}

/// Encryption properties as contracts see them.
pub struct FileEncryptionPropertiesView {
    /// Whether the footer is encrypted; if not, it is written in the clear.
    pub encrypt_footer: bool,
    /// The key of the footer, and of every column where no column has a key
    /// of its own.
    pub footer_key: EncryptionKeyView,
    /// The keys of the columns that have one of their own, by column path.
    pub column_keys: Map<Seq<char>, EncryptionKeyView>,
    /// The user's part of the file's AAD.
    pub aad_prefix: Option<Seq<u8>>,
    /// Whether the file is asked to store the AAD prefix.
    pub store_aad_prefix: bool,
}

impl FileEncryptionPropertiesView {
    /// Every key is as long as AES-128-GCM needs it.
    pub open spec fn keys_valid(self) -> bool {
        &&& self.footer_key.key.len() == KEY_LEN
        &&& forall|path: Seq<char>| #[trigger]
            self.column_keys.contains_key(path) ==> self.column_keys[path].key.len() == KEY_LEN
    }

    /// Uniform encryption: no column has a key of its own, and every column
    /// is encrypted with the key of the footer.
    pub open spec fn is_uniform(self) -> bool {
        self.column_keys.is_empty()
    }

    /// Whether the column at `path` is encrypted: every column under uniform
    /// encryption, else those that have a key of their own.
    pub open spec fn is_column_encrypted(self, path: Seq<char>) -> bool {
        self.is_uniform() || self.column_keys.contains_key(path)
    }

    /// The key that the column at `path` is encrypted with, if it is
    /// encrypted.
    pub open spec fn column_key(self, path: Seq<char>) -> Option<EncryptionKeyView> {
        if self.is_uniform() {
            Some(self.footer_key)
        } else if self.column_keys.contains_key(path) {
            Some(self.column_keys[path])
        } else {
            None
        }
    }

    /// What the file records about the encryption of the column at `path`:
    /// nothing for a column that is not encrypted.
    pub open spec fn column_crypto_metadata(self, path: Seq<Seq<char>>) -> Option<
        ColumnCryptoMetaDataView,
    > {
        if self.is_uniform() {
            Some(ColumnCryptoMetaDataView::EncryptionWithFooterKey)
        } else if self.column_keys.contains_key(dotted(path)) {
            Some(
                ColumnCryptoMetaDataView::EncryptionWithColumnKey {
                    path_in_schema: path,
                    key_metadata: self.column_keys[dotted(path)].key_metadata,
                },
            )
        } else {
            None
        }
    }
}

/// Under uniform encryption every column is encrypted, and with the key of
/// the footer.
pub proof fn lemma_uniform_routing(properties: FileEncryptionPropertiesView, path: Seq<char>)
    requires
        properties.column_keys.is_empty(),
    ensures
        properties.is_column_encrypted(path),
        properties.column_key(path) == Some(properties.footer_key),
{
}

/// Where some column has a key of its own, a column is encrypted if and only
/// if it has one, and then with that key.
pub proof fn lemma_selective_routing(properties: FileEncryptionPropertiesView, path: Seq<char>)
    requires
        !properties.column_keys.is_empty(),
    ensures
        properties.is_column_encrypted(path) <==> properties.column_keys.contains_key(path),
        properties.column_key(path) is Some <==> properties.column_keys.contains_key(path),
        properties.column_keys.contains_key(path) ==> properties.column_key(path) == Some(
            properties.column_keys[path],
        ),
{
}

/// How a file is encrypted: with which keys, under which AAD prefix, and
/// whether the footer is encrypted too. Built by an
/// [`EncryptionPropertiesBuilder`] and not changed afterwards.
#[derive(Debug)]
pub struct FileEncryptionProperties {
    encrypt_footer: bool,
    footer_key: EncryptionKey,
    column_keys: ColumnKeys,
    aad_prefix: Option<Vec<u8>>,
    store_aad_prefix: bool,
}

impl View for FileEncryptionProperties {
    type V = FileEncryptionPropertiesView;

    closed spec fn view(&self) -> FileEncryptionPropertiesView {
        FileEncryptionPropertiesView {
            encrypt_footer: self.encrypt_footer,
            footer_key: self.footer_key@,
            column_keys: self.column_keys@,
            aad_prefix: match self.aad_prefix {
                Some(prefix) => Some(prefix@),
                None => None,
            },
            store_aad_prefix: self.store_aad_prefix,
        }
    }
}

impl Clone for FileEncryptionProperties {
    fn clone(&self) -> (copy: Self)
        ensures
            copy@ == self@,
    {
        proof {
            use_type_invariant(self);
        }
        let aad_prefix = match &self.aad_prefix {
            Some(prefix) => Some(prefix.clone()),
            None => None,
        };
        FileEncryptionProperties {
            encrypt_footer: self.encrypt_footer,
            footer_key: self.footer_key.clone(),
            column_keys: self.column_keys.clone(),
            aad_prefix,
            store_aad_prefix: self.store_aad_prefix,
        }
    }
}

impl PartialEq for FileEncryptionProperties {
    fn eq(&self, other: &Self) -> (equal: bool) {
        self.same_as(other)
    }
}

impl vstd::std_specs::cmp::PartialEqSpecImpl for FileEncryptionProperties {
    open spec fn obeys_eq_spec() -> bool {
        true
    }

    open spec fn eq_spec(&self, other: &Self) -> bool {
        self@ == other@
    }
}

impl FileEncryptionProperties {
    /// Whether two properties have the same settings.
    pub fn same_as(&self, other: &FileEncryptionProperties) -> (same: bool)
        ensures
            same == (self@ == other@),
    {
        if self.encrypt_footer != other.encrypt_footer || self.store_aad_prefix
            != other.store_aad_prefix {
            return false;
        }
        if !self.footer_key.same_as(&other.footer_key) {
            return false;
        }
        let same_prefix = match (&self.aad_prefix, &other.aad_prefix) {
            (Some(left), Some(right)) => bytes_equal(left.as_slice(), right.as_slice()),
            (None, None) => true,
            _ => false,
        };
        if !same_prefix {
            return false;
        }
        self.column_keys.same_as(&other.column_keys)
    }

    #[verifier::type_invariant]
    spec fn well_formed(self) -> bool {
        self@.keys_valid()
    }

    /// A builder that starts from the key of the footer.
    pub fn builder(footer_key: Vec<u8>) -> (builder: EncryptionPropertiesBuilder)
        ensures
            builder@ == EncryptionPropertiesBuilder::initial(footer_key@),
    {
        EncryptionPropertiesBuilder::new(footer_key)
    }

    /// Whether the footer is encrypted.
    pub fn encrypt_footer(&self) -> (encrypt: bool)
        ensures
            encrypt == self@.encrypt_footer,
    {
        self.encrypt_footer
    }

    /// The key of the footer.
    pub fn footer_key(&self) -> (key: &EncryptionKey)
        ensures
            key@ == self@.footer_key,
            key@.key.len() == KEY_LEN,
    {
        proof {
            use_type_invariant(self);
        }
        &self.footer_key
    }

    /// The metadata of the footer's key, if it has any.
    pub fn footer_key_metadata(&self) -> (metadata: Option<&Vec<u8>>)
        ensures
            match metadata {
                Some(bytes) => self@.footer_key.key_metadata == Some(bytes@),
                None => self@.footer_key.key_metadata is None,
            },
    {
        self.footer_key.key_metadata()
    }

    /// The keys of the columns that have one of their own.
    pub fn column_keys(&self) -> (keys: &ColumnKeys)
        ensures
            keys@ == self@.column_keys,
            self@.keys_valid(),
    {
        proof {
            use_type_invariant(self);
        }
        &self.column_keys
    }

    /// The AAD prefix, if there is one.
    pub fn aad_prefix(&self) -> (prefix: Option<&Vec<u8>>)
        ensures
            match prefix {
                Some(bytes) => self@.aad_prefix == Some(bytes@),
                None => self@.aad_prefix is None,
            },
    {
        self.aad_prefix.as_ref()
    }

    /// Whether the file is to store the AAD prefix: only if it was asked to,
    /// and there is one.
    pub fn store_aad_prefix(&self) -> (store: bool)
        ensures
            store == (self@.store_aad_prefix && self@.aad_prefix is Some),
    {
        self.store_aad_prefix && self.aad_prefix.is_some()
    }
}

/// Collects the settings of a [`FileEncryptionProperties`].
#[derive(Debug)]
pub struct EncryptionPropertiesBuilder {
    footer_key: EncryptionKey,
    column_keys: ColumnKeys,
    aad_prefix: Option<Vec<u8>>,
    encrypt_footer: bool,
    store_aad_prefix: bool,
}

impl View for EncryptionPropertiesBuilder {
    type V = FileEncryptionPropertiesView;

    closed spec fn view(&self) -> FileEncryptionPropertiesView {
        FileEncryptionPropertiesView {
            encrypt_footer: self.encrypt_footer,
            footer_key: self.footer_key@,
            column_keys: self.column_keys@,
            aad_prefix: match self.aad_prefix {
                Some(prefix) => Some(prefix@),
                None => None,
            },
            store_aad_prefix: self.store_aad_prefix,
        }
    }
}

impl EncryptionPropertiesBuilder {
    /// The settings that a builder starts from: the footer is encrypted with
    /// `footer_key`, no column has a key of its own, there is no AAD prefix,
    /// and a prefix would be stored.
    pub open spec fn initial(footer_key: Seq<u8>) -> FileEncryptionPropertiesView {
        FileEncryptionPropertiesView {
            encrypt_footer: true,
            footer_key: EncryptionKeyView { key: footer_key, key_metadata: None },
            column_keys: Map::empty(),
            aad_prefix: None,
            store_aad_prefix: true,
        }
    }

    /// A builder that starts from the key of the footer.
    pub fn new(footer_key: Vec<u8>) -> (builder: EncryptionPropertiesBuilder)
        ensures
            builder@ == Self::initial(footer_key@),
    {
        Self {
            footer_key: EncryptionKey::new(footer_key),
            column_keys: ColumnKeys::new(),
            aad_prefix: None,
            encrypt_footer: true,
            store_aad_prefix: true,
        }
    }

    /// Writes the footer in the clear if `plaintext_footer`, else encrypted.
    pub fn with_plaintext_footer(self, plaintext_footer: bool) -> (builder: Self)
        ensures
            builder@ == (FileEncryptionPropertiesView { encrypt_footer: !plaintext_footer, ..self@ }),
    {
        let mut builder = self;
        builder.encrypt_footer = !plaintext_footer;
        builder
    }

    /// Sets the metadata of the footer's key.
    pub fn with_footer_key_metadata(self, metadata: Vec<u8>) -> (builder: Self)
        ensures
            builder@ == (FileEncryptionPropertiesView {
                footer_key: EncryptionKeyView {
                    key: self@.footer_key.key,
                    key_metadata: Some(metadata@),
                },
                ..self@
            }),
    {
        EncryptionPropertiesBuilder {
            footer_key: self.footer_key.with_metadata(metadata),
            column_keys: self.column_keys,
            aad_prefix: self.aad_prefix,
            encrypt_footer: self.encrypt_footer,
            store_aad_prefix: self.store_aad_prefix,
        }
    }

    /// Gives the column at `column_path` a key of its own, in place of any it
    /// had.
    pub fn with_column_key(self, column_path: String, encryption_key: EncryptionKey) -> (builder:
        Self)
        ensures
            builder@ == (FileEncryptionPropertiesView {
                column_keys: self@.column_keys.insert(column_path@, encryption_key@),
                ..self@
            }),
    {
        EncryptionPropertiesBuilder {
            footer_key: self.footer_key,
            column_keys: self.column_keys.insert(column_path, encryption_key),
            aad_prefix: self.aad_prefix,
            encrypt_footer: self.encrypt_footer,
            store_aad_prefix: self.store_aad_prefix,
        }
    }

    /// Sets the AAD prefix.
    pub fn with_aad_prefix(self, aad_prefix: Vec<u8>) -> (builder: Self)
        ensures
            builder@ == (FileEncryptionPropertiesView { aad_prefix: Some(aad_prefix@), ..self@ }),
    {
        let mut builder = self;
        builder.aad_prefix = Some(aad_prefix);
        builder
    }

    /// Asks the file to store the AAD prefix, or not to.
    pub fn with_aad_prefix_storage(self, store_aad_prefix: bool) -> (builder: Self)
        ensures
            builder@ == (FileEncryptionPropertiesView { store_aad_prefix, ..self@ }),
    {
        let mut builder = self;
        builder.store_aad_prefix = store_aad_prefix;
        builder
    }

    /// The properties with the settings collected, unless the footer's key or
    /// a column's key is not 16 bytes long.
    pub fn build(self) -> (properties: Result<FileEncryptionProperties, ParquetError>)
        ensures
            match properties {
                Ok(built) => self@.keys_valid() && built@ == self@,
                Err(e) => !self@.keys_valid() && e == ParquetError::CryptoSetup,
            },
    {
        if self.footer_key.key().len() != KEY_LEN {
            return Err(ParquetError::CryptoSetup);
        }
        if !self.column_keys.all_keys_have_len(KEY_LEN) {
            return Err(ParquetError::CryptoSetup);
        }
        Ok(
            FileEncryptionProperties {
                encrypt_footer: self.encrypt_footer,
                footer_key: self.footer_key,
                column_keys: self.column_keys,
                aad_prefix: self.aad_prefix,
                store_aad_prefix: self.store_aad_prefix,
            },
        )
    }
}

/// The AAD of a file: its random part, after the user's prefix if there is
/// one.
pub open spec fn file_aad_of(aad_prefix: Option<Seq<u8>>, aad_file_unique: Seq<u8>) -> Seq<u8> {
    match aad_prefix {
        Some(prefix) => prefix + aad_file_unique,
        None => aad_file_unique,
    }
}

/// A file encryptor as contracts see it.
pub struct FileEncryptorView {
    /// The properties that the file is encrypted under.
    pub properties: FileEncryptionPropertiesView,
    /// The random part of the file's AAD.
    pub aad_file_unique: Seq<u8>,
    /// The file's AAD.
    pub file_aad: Seq<u8>,
}

impl FileEncryptorView {
    /// The random part of the AAD has 8 bytes, the AAD is made of prefix and
    /// random part, and every key is valid.
    pub open spec fn well_formed(self) -> bool {
        &&& self.properties.keys_valid()
        &&& self.aad_file_unique.len() == AAD_FILE_UNIQUE_LEN
        &&& self.file_aad == file_aad_of(self.properties.aad_prefix, self.aad_file_unique)
    }
}

/// The encryption state of one output file: its properties and its AAD, which
/// is fixed when the encryptor is made.
#[derive(Debug)]
pub struct FileEncryptor {
    properties: FileEncryptionProperties,
    aad_file_unique: Vec<u8>,
    file_aad: Vec<u8>,
}

impl View for FileEncryptor {
    type V = FileEncryptorView;

    closed spec fn view(&self) -> FileEncryptorView {
        FileEncryptorView {
            properties: self.properties@,
            aad_file_unique: self.aad_file_unique@,
            file_aad: self.file_aad@,
        }
    }
}

impl FileEncryptor {
    #[verifier::type_invariant]
    spec fn well_formed(self) -> bool {
        self@.well_formed()
    }

    /// The encryptor of a file whose AAD has the random part
    /// `aad_file_unique`.
    pub fn with_aad_file_unique(
        properties: FileEncryptionProperties,
        aad_file_unique: Vec<u8>,
    ) -> (encryptor: Self)
        requires
            aad_file_unique@.len() == AAD_FILE_UNIQUE_LEN,
        ensures
            encryptor@.well_formed(),
            encryptor@.properties == properties@,
            encryptor@.aad_file_unique == aad_file_unique@,
    {
        proof {
            use_type_invariant(&properties);
        }
        let mut file_aad: Vec<u8> = Vec::new();
        match properties.aad_prefix() {
            Some(prefix) => {
                file_aad.extend_from_slice(prefix.as_slice());
            },
            None => {},
        }
        file_aad.extend_from_slice(aad_file_unique.as_slice());
        assert(file_aad@ =~= file_aad_of(properties@.aad_prefix, aad_file_unique@));
        FileEncryptor { properties, aad_file_unique, file_aad }
    }

    /// The encryptor of a new file, with 8 random bytes as the random part of
    /// its AAD.
    ///
    /// The system's random number generator decides whether an encryptor
    /// comes back.
    pub fn new(properties: FileEncryptionProperties) -> (encryptor: Result<Self, ParquetError>)
        ensures
            match encryptor {
                Ok(made) => made@.well_formed() && made@.properties == properties@,
                Err(e) => e == ParquetError::Randomness,
            },
    {
        let rng = SystemRandom::new();
        match fill_random(&rng, AAD_FILE_UNIQUE_LEN) {
            Ok(aad_file_unique) => Ok(
                FileEncryptor::with_aad_file_unique(properties, aad_file_unique),
            ),
            Err(_) => Err(ParquetError::Randomness),
        }
    }

    /// The properties that the file is encrypted under.
    pub fn properties(&self) -> (properties: &FileEncryptionProperties)
        ensures
            properties@ == self@.properties,
            self@.well_formed(),
    {
        proof {
            use_type_invariant(self);
        }
        &self.properties
    }

    /// The file's AAD.
    pub fn file_aad(&self) -> (aad: &[u8])
        ensures
            aad@ == self@.file_aad,
            self@.well_formed(),
    {
        proof {
            use_type_invariant(self);
        }
        self.file_aad.as_slice()
    }

    /// The random part of the file's AAD.
    pub fn aad_file_unique(&self) -> (unique: &Vec<u8>)
        ensures
            unique@ == self@.aad_file_unique,
            self@.well_formed(),
    {
        proof {
            use_type_invariant(self);
        }
        &self.aad_file_unique
    }

    /// Whether the data of the column at `column_path` is encrypted.
    pub fn is_column_encrypted(&self, column_path: &str) -> (encrypted: bool)
        ensures
            encrypted == self@.properties.is_column_encrypted(column_path@),
    {
        if self.properties.column_keys().is_empty() {
            true
        } else {
            self.properties.column_keys().contains_key(column_path)
        }
    }

    /// The key that the column at `column_path` is encrypted with; a column
    /// that is not encrypted has none.
    pub fn column_key(&self, column_path: &str) -> (key: Result<&EncryptionKey, ParquetError>)
        ensures
            self@.well_formed(),
            match key {
                Ok(found) => self@.properties.column_key(column_path@) == Some(found@),
                Err(e) => self@.properties.column_key(column_path@) is None && e
                    == ParquetError::UnencryptedColumn,
            },
    {
        proof {
            use_type_invariant(self);
        }
        if self.properties.column_keys().is_empty() {
            return Ok(self.properties.footer_key());
        }
        match self.properties.column_keys().get(column_path) {
            None => Err(ParquetError::UnencryptedColumn),
            Some(column_key) => Ok(column_key),
        }
    }

    /// A fresh encryptor under the key of the footer, with a nonce sequence
    /// of its own.
    ///
    /// The system's random number generator decides whether an encryptor
    /// comes back.
    pub fn get_footer_encryptor(&self) -> (encryptor: Result<
        Box<dyn BlockEncryptor>,
        ParquetError,
    >)
        ensures
            match encryptor {
                Ok(made) => {
                    &&& made.key() == self@.properties.footer_key.key
                    &&& made.nonce_sequence().emitted() == 0
                },
                Err(e) => e == ParquetError::Randomness,
            },
    {
        match RingGcmBlockEncryptor::new(self.properties.footer_key().key().as_slice()) {
            Ok(made) => Ok(Box::new(made)),
            Err(e) => Err(e),
        }
    }

    /// A fresh encryptor under the key that the column at `column_path` is
    /// encrypted with, with a nonce sequence of its own.
    ///
    /// A column that is not encrypted is refused. For one that is, the
    /// system's random number generator decides whether an encryptor comes
    /// back.
    pub fn get_column_encryptor(&self, column_path: &str) -> (encryptor: Result<
        Box<dyn BlockEncryptor>,
        ParquetError,
    >)
        ensures
            match self@.properties.column_key(column_path@) {
                None => encryptor matches Err(e) && e == ParquetError::UnencryptedColumn,
                Some(key) => match encryptor {
                    Ok(made) => made.key() == key.key && made.nonce_sequence().emitted() == 0,
                    Err(e) => e == ParquetError::Randomness,
                },
            },
    {
        match self.column_key(column_path) {
            Ok(key) => match RingGcmBlockEncryptor::new(key.key().as_slice()) {
                Ok(made) => Ok(Box::new(made)),
                Err(e) => Err(e),
            },
            Err(e) => Err(e),
        }
    }
}

/// Seals a serialized object and appends the frame to `sink`. Where sealing
/// fails, nothing is written.
pub fn encrypt_object(
    object: &[u8],
    encryptor: &mut Box<dyn BlockEncryptor>,
    sink: &mut Vec<u8>,
    module_aad: &[u8],
) -> (written: Result<(), ParquetError>)
    requires
        object@.len() <= MAX_PLAINTEXT_LEN,
    ensures
        final(encryptor).key() == old(encryptor).key(),
        old(encryptor).nonce_sequence().stepped(final(encryptor).nonce_sequence()),
        match written {
            Ok(()) => encrypted(
                old(encryptor).key(),
                old(encryptor).nonce_sequence().next_nonce(),
                module_aad@,
                object@,
            ) matches Ok(frame) && final(sink)@ == old(sink)@ + frame,
            Err(e) => encrypted(
                old(encryptor).key(),
                old(encryptor).nonce_sequence().next_nonce(),
                module_aad@,
                object@,
            ) == Err::<Seq<u8>, ParquetError>(e) && final(sink)@ == old(sink)@,
        },
{
    match encrypt_object_to_vec(object, encryptor, module_aad) {
        Ok(frame) => {
            sink.extend_from_slice(frame.as_slice());
            assert(sink@ =~= old(sink)@ + frame@);
            Ok(())
        },
        Err(e) => Err(e),
    }
}

/// Seals a serialized object and returns the frame.
pub fn encrypt_object_to_vec(
    object: &[u8],
    encryptor: &mut Box<dyn BlockEncryptor>,
    module_aad: &[u8],
) -> (frame: Result<Vec<u8>, ParquetError>)
    requires
        object@.len() <= MAX_PLAINTEXT_LEN,
    ensures
        final(encryptor).key() == old(encryptor).key(),
        old(encryptor).nonce_sequence().stepped(final(encryptor).nonce_sequence()),
        bytes_of(frame) == encrypted(
            old(encryptor).key(),
            old(encryptor).nonce_sequence().next_nonce(),
            module_aad@,
            object@,
        ),
{
    encryptor.encrypt(object, module_aad)
}

/// What the file records about the encryption of `column`: nothing for a
/// column that is not encrypted.
pub fn get_column_crypto_metadata(
    properties: &FileEncryptionProperties,
    column: &ColumnPath,
) -> (metadata: Option<ColumnCryptoMetaData>)
    ensures
        match metadata {
            Some(found) => properties@.column_crypto_metadata(column@) == Some(found@),
            None => properties@.column_crypto_metadata(column@) is None,
        },
{
    if properties.column_keys().is_empty() {
        Some(ColumnCryptoMetaData::EncryptionWithFooterKey)
    } else {
        let path = column.string();
        match properties.column_keys().get(path.as_str()) {
            Some(encryption_key) => {
                let key_metadata = match encryption_key.key_metadata() {
                    Some(bytes) => Some(bytes.clone()),
                    None => None,
                };
                Some(
                    ColumnCryptoMetaData::EncryptionWithColumnKey(
                        EncryptionWithColumnKey {
                            path_in_schema: clone_strings(column.parts()),
                            key_metadata,
                        },
                    ),
                )
            },
            None => None,
        }
    }
}

} // verus!
