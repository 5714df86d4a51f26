//! What a file records about how a column is encrypted.

use crate::schema::strings_view;
use vstd::prelude::*;

verus! {

/// A column that is encrypted with a key of its own.
#[derive(Debug, PartialEq, Eq)]
pub struct EncryptionWithColumnKey {
    /// The path of the column in the schema.
    pub path_in_schema: Vec<String>,
    /// What a key management system needs to find the column's key again.
    pub key_metadata: Option<Vec<u8>>,
}

/// How a column is encrypted.
#[derive(Debug, PartialEq, Eq)]
pub enum ColumnCryptoMetaData {
    /// With the key of the footer.
    EncryptionWithFooterKey,
    /// With a key of its own.
    EncryptionWithColumnKey(EncryptionWithColumnKey),
}

/// A column's crypto metadata as contracts see it.
pub enum ColumnCryptoMetaDataView {
    /// With the key of the footer.
    EncryptionWithFooterKey,
    /// With a key of its own.
    EncryptionWithColumnKey { path_in_schema: Seq<Seq<char>>, key_metadata: Option<Seq<u8>> },
}

impl View for ColumnCryptoMetaData {
    type V = ColumnCryptoMetaDataView;

    open spec fn view(&self) -> ColumnCryptoMetaDataView {
        match self {
            ColumnCryptoMetaData::EncryptionWithFooterKey =>
                ColumnCryptoMetaDataView::EncryptionWithFooterKey,
            ColumnCryptoMetaData::EncryptionWithColumnKey(with_key) =>
                ColumnCryptoMetaDataView::EncryptionWithColumnKey {
                    path_in_schema: strings_view(with_key.path_in_schema@),
                    key_metadata: match with_key.key_metadata {
                        Some(metadata) => Some(metadata@),
                        None => None,
                    },
                },
        }
    }
}

} // verus!
