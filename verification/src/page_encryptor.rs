//! Encryption of the pages of one column chunk.
//!
//! A page encryptor counts the pages of its column chunk: the ordinal of a
//! page is the number of pages written before it, dictionary page included,
//! and goes into the AAD of the page and of its header.

use crate::ciphers::{decrypted, encrypted, nonce_at, BlockEncryptor, MAX_PLAINTEXT_LEN};
use crate::encrypt::{encrypt_object, FileEncryptor, FileEncryptorView};
use crate::errors::{bytes_of, ParquetError};
use crate::modules::{
    create_module_aad, module_aad, ordinal_of_index, ModuleType, NON_PAGE_ORDINAL,
};
use crate::page::{CompressedPage, PageType};
use std::sync::Arc;
use vstd::prelude::*;

verus! {

/// `Arc::clone` on a file encryptor: another handle on the same encryptor.
#[verifier::external_body]
fn share(file_encryptor: &Arc<FileEncryptor>) -> (shared: Arc<FileEncryptor>)
    ensures
        shared == *file_encryptor,
{
    Arc::clone(file_encryptor)
}

/// The kind of module that a page is encrypted as.
pub open spec fn page_module_type(is_data_page: bool) -> ModuleType {
    if is_data_page {
        ModuleType::DataPage
    } else {
        ModuleType::DictionaryPage
    }
}

/// The kind of module that the header of a page is encrypted as; only the
/// headers of data and dictionary pages are encrypted.
pub open spec fn spec_header_module_type(page_type: PageType) -> Result<ModuleType, ParquetError> {
    match page_type {
        PageType::DataPage => Ok(ModuleType::DataPageHeader),
        PageType::DataPageV2 => Ok(ModuleType::DataPageHeader),
        PageType::DictionaryPage => Ok(ModuleType::DictionaryPageHeader),
        PageType::IndexPage => Err(ParquetError::UnsupportedPageType),
    }
}

/// The kind of module that the header of a page is encrypted as; only the
/// headers of data and dictionary pages are encrypted.
#[verifier::when_used_as_spec(spec_header_module_type)]
pub fn header_module_type(page_type: PageType) -> (module_type: Result<ModuleType, ParquetError>)
    ensures
        module_type == spec_header_module_type(page_type),
{
    match page_type {
        PageType::DataPage => Ok(ModuleType::DataPageHeader),
        PageType::DataPageV2 => Ok(ModuleType::DataPageHeader),
        PageType::DictionaryPage => Ok(ModuleType::DictionaryPageHeader),
        PageType::IndexPage => Err(ParquetError::UnsupportedPageType),
    }
}

/// Whether `after` is `before` with the frame of `outcome` appended and
/// `written` reports it: where `outcome` is a refusal, `written` is the same
/// refusal and nothing was appended.
pub open spec fn appended(
    outcome: Result<Seq<u8>, ParquetError>,
    written: Result<(), ParquetError>,
    before: Seq<u8>,
    after: Seq<u8>,
) -> bool {
    match outcome {
        Ok(frame) => written is Ok && after == before + frame,
        Err(e) => written == Err::<(), ParquetError>(e) && after == before,
    }
}

/// Whether `written`, `before` and `after` are as they are after `plaintext`
/// was sealed under the first nonce of the sequence seeded with `start` and
/// the frame appended. A frame that was appended decrypts to `plaintext`.
pub open spec fn appended_afresh(
    key: Seq<u8>,
    start: nat,
    aad: Seq<u8>,
    plaintext: Seq<u8>,
    written: Result<(), ParquetError>,
    before: Seq<u8>,
    after: Seq<u8>,
) -> bool {
    let outcome = encrypted(key, Some(nonce_at(start, 0)), aad, plaintext);
    &&& appended(outcome, written, before, after)
    &&& outcome matches Ok(frame) ==> decrypted(key, frame, aad) == Ok::<Seq<u8>, ParquetError>(
        plaintext,
    )
}

/// A page encryptor as contracts see it.
pub struct PageEncryptorView {
    /// The encryptor of the file.
    pub file_encryptor: FileEncryptorView,
    /// The index of the row group of the column chunk.
    pub row_group_index: nat,
    /// The index of the column in its row group.
    pub column_index: nat,
    /// The path of the column.
    pub column_path: Seq<char>,
    /// The number of pages written so far: the ordinal of the next page.
    pub page_index: nat,
}

impl PageEncryptorView {
    /// The AAD of a module of the current page.
    pub open spec fn aad(self, module_type: ModuleType) -> Result<Seq<u8>, ParquetError> {
        module_aad(
            self.file_encryptor.file_aad,
            module_type,
            self.row_group_index as int,
            self.column_index as int,
            self.page_index as int,
        )
    }

    /// What sealing `plaintext` as a module of the current page gives: a
    /// refusal where the module has no AAD, else what encrypting under that
    /// AAD gives.
    pub open spec fn sealed_module(
        self,
        module_type: ModuleType,
        key: Seq<u8>,
        nonce: Option<Seq<u8>>,
        plaintext: Seq<u8>,
    ) -> Result<Seq<u8>, ParquetError> {
        match self.aad(module_type) {
            Err(e) => Err(e),
            Ok(aad) => encrypted(key, nonce, aad, plaintext),
        }
    }

    /// The AAD of the header of a page of kind `page_type`.
    pub open spec fn header_aad(self, page_type: PageType) -> Result<Seq<u8>, ParquetError> {
        match spec_header_module_type(page_type) {
            Err(e) => Err(e),
            Ok(module_type) => self.aad(module_type),
        }
    }

    /// What sealing the serialized header of a page of kind `page_type`
    /// gives.
    pub open spec fn sealed_header(
        self,
        page_type: PageType,
        key: Seq<u8>,
        nonce: Option<Seq<u8>>,
        page_header: Seq<u8>,
    ) -> Result<Seq<u8>, ParquetError> {
        match spec_header_module_type(page_type) {
            Err(e) => Err(e),
            Ok(module_type) => self.sealed_module(module_type, key, nonce, page_header),
        }
    }

    /// The key of the column.
    pub open spec fn key(self) -> Seq<u8> {
        self.file_encryptor.properties.column_key(self.column_path).unwrap().key
    }

    /// The encryptor after one more page.
    pub open spec fn next_page(self) -> PageEncryptorView {
        PageEncryptorView { page_index: self.page_index + 1, ..self }
    }

    /// The encryptor after `pages` more pages.
    pub open spec fn after_pages(self, pages: nat) -> PageEncryptorView
        decreases pages,
    {
        if pages == 0 {
            self
        } else {
            self.after_pages((pages - 1) as nat).next_page()
        }
    }
}

/// After `pages` calls of [`PageEncryptor::increment_page`] the page index
/// is `pages` higher, and nothing else has changed: counted from a new
/// encryptor, it is the number of calls.
pub proof fn lemma_page_index_counts_pages(encryptor: PageEncryptorView, pages: nat)
    ensures
        encryptor.after_pages(pages) == (PageEncryptorView {
            page_index: encryptor.page_index + pages,
            ..encryptor
        }),
        encryptor.page_index == 0 ==> encryptor.after_pages(pages).page_index == pages,
    decreases pages,
{
    if pages > 0 {
        lemma_page_index_counts_pages(encryptor, (pages - 1) as nat);
    }
}

/// Encrypts the pages and page headers of one column chunk, in the order in
/// which they are written.
#[derive(Debug)]
pub struct PageEncryptor {
    file_encryptor: Arc<FileEncryptor>,
    row_group_index: usize,
    column_index: usize,
    column_path: String,
    page_index: usize,
}

impl View for PageEncryptor {
    type V = PageEncryptorView;

    closed spec fn view(&self) -> PageEncryptorView {
        PageEncryptorView {
            file_encryptor: self.file_encryptor@,
            row_group_index: self.row_group_index as nat,
            column_index: self.column_index as nat,
            column_path: self.column_path@,
            page_index: self.page_index as nat,
        }
    }
}

impl PageEncryptor {
    #[verifier::type_invariant]
    spec fn column_is_encrypted(self) -> bool {
        self@.file_encryptor.properties.is_column_encrypted(self@.column_path)
    }

    /// A page encryptor for a column chunk, if the file is encrypted and the
    /// column is: it starts at page 0.
    pub fn create_if_column_encrypted(
        file_encryptor: &Option<Arc<FileEncryptor>>,
        row_group_index: usize,
        column_index: usize,
        column_path: String,
    ) -> (encryptor: Option<Self>)
        ensures
            match encryptor {
                Some(made) => {
                    &&& file_encryptor matches Some(file)
                    &&& file@.properties.is_column_encrypted(column_path@)
                    &&& made@ == (PageEncryptorView {
                        file_encryptor: file@,
                        row_group_index: row_group_index as nat,
                        column_index: column_index as nat,
                        column_path: column_path@,
                        page_index: 0,
                    })
                },
                None => file_encryptor matches Some(file) ==> !file@.properties.is_column_encrypted(
                    column_path@,
                ),
            },
    {
        match file_encryptor {
            Some(file_encryptor) => {
                if file_encryptor.is_column_encrypted(column_path.as_str()) {
                    Some(
                        Self {
                            file_encryptor: share(file_encryptor),
                            row_group_index,
                            column_index,
                            column_path,
                            page_index: 0,
                        },
                    )
                } else {
                    None
                }
            },
            None => None,
        }
    }

    /// Counts one page as written.
    pub fn increment_page(&mut self)
        requires
            old(self)@.page_index < usize::MAX,
        ensures
            final(self)@ == old(self)@.next_page(),
    {
        proof {
            use_type_invariant(&*self);
        }
        self.page_index = self.page_index + 1;
    }

    /// The number of pages counted so far.
    pub fn page_index(&self) -> (index: usize)
        ensures
            index == self@.page_index,
    {
        self.page_index
    }

    /// The AAD of a module of the current page.
    pub fn module_aad(&self, module_type: ModuleType) -> (aad: Result<Vec<u8>, ParquetError>)
        ensures
            bytes_of(aad) == self@.aad(module_type),
    {
        if module_type == ModuleType::Footer {
            return create_module_aad(self.file_encryptor.file_aad(), module_type, 0, 0, 0);
        }
        let row_group_ordinal = ordinal_of_index(self.row_group_index)?;
        let column_ordinal = ordinal_of_index(self.column_index)?;
        if !module_type.is_page() {
            return create_module_aad(
                self.file_encryptor.file_aad(),
                module_type,
                row_group_ordinal,
                column_ordinal,
                NON_PAGE_ORDINAL,
            );
        }
        let page_ordinal = ordinal_of_index(self.page_index)?;
        create_module_aad(
            self.file_encryptor.file_aad(),
            module_type,
            row_group_ordinal,
            column_ordinal,
            page_ordinal,
        )
    }

    /// Encrypts a page with `encryptor`, under the AAD of a data page or of a
    /// dictionary page at the current page index.
    pub fn encrypt_page_with(
        &self,
        page: &CompressedPage,
        encryptor: &mut Box<dyn BlockEncryptor>,
    ) -> (frame: Result<Vec<u8>, ParquetError>)
        requires
            page.spec_compressed_page().spec_buffer().len() <= MAX_PLAINTEXT_LEN,
        ensures
            final(encryptor).key() == old(encryptor).key(),
            match self@.aad(page_module_type(page.spec_compressed_page().spec_is_data_page())) {
                Err(_) => *final(encryptor) == *old(encryptor),
                Ok(_) => old(encryptor).nonce_sequence().stepped(
                    final(encryptor).nonce_sequence(),
                ),
            },
            bytes_of(frame) == self@.sealed_module(
                page_module_type(page.spec_compressed_page().spec_is_data_page()),
                old(encryptor).key(),
                old(encryptor).nonce_sequence().next_nonce(),
                page.spec_compressed_page().spec_buffer(),
            ),
    {
        let module_type = if page.compressed_page().is_data_page() {
            ModuleType::DataPage
        } else {
            ModuleType::DictionaryPage
        };
        let aad = self.module_aad(module_type)?;
        encryptor.encrypt(page.data(), aad.as_slice())
    }

    /// Encrypts a page under the key of the column, with a fresh encryptor,
    /// and returns the frame.
    ///
    /// An ordinal that is out of range is refused. Otherwise the system's
    /// random number generator decides: it fails, or the outcome is that of
    /// sealing under the first nonce of some sequence. A frame that comes
    /// back decrypts to the bytes of the page.
    pub fn encrypt_page(&self, page: &CompressedPage) -> (frame: Result<Vec<u8>, ParquetError>)
        requires
            page.spec_compressed_page().spec_buffer().len() <= MAX_PLAINTEXT_LEN,
        ensures
            match self@.aad(page_module_type(page.spec_compressed_page().spec_is_data_page())) {
                Err(e) => frame matches Err(refused) && refused == e,
                Ok(aad) => {
                    &&& bytes_of(frame) == Err::<Seq<u8>, ParquetError>(ParquetError::Randomness)
                        || exists|start: nat|
                        bytes_of(frame) == #[trigger] encrypted(
                            self@.key(),
                            Some(nonce_at(start, 0)),
                            aad,
                            page.spec_compressed_page().spec_buffer(),
                        )
                    &&& frame matches Ok(bytes) ==> decrypted(self@.key(), bytes@, aad) == Ok::<
                        Seq<u8>,
                        ParquetError,
                    >(page.spec_compressed_page().spec_buffer())
                },
            },
    {
        proof {
            use_type_invariant(self);
        }
        let module_type = if page.compressed_page().is_data_page() {
            ModuleType::DataPage
        } else {
            ModuleType::DictionaryPage
        };
        let aad = self.module_aad(module_type)?;
        let mut encryptor = self.file_encryptor.get_column_encryptor(self.column_path.as_str())?;
        let ghost start = encryptor.nonce_sequence().start();
        let frame = encryptor.encrypt(page.data(), aad.as_slice());
        assert(bytes_of(frame) == encrypted(
            self@.key(),
            Some(nonce_at(start, 0)),
            aad@,
            page.spec_compressed_page().spec_buffer(),
        ));
        frame
    }

    /// Encrypts a serialized page header with `encryptor`, under the AAD of
    /// a page header at the current page index, and appends the frame to
    /// `sink`. The header of any page but a data or dictionary page is
    /// refused. Where anything fails, nothing is written.
    pub fn encrypt_page_header_with(
        &self,
        page_type: PageType,
        page_header: &[u8],
        encryptor: &mut Box<dyn BlockEncryptor>,
        sink: &mut Vec<u8>,
    ) -> (written: Result<(), ParquetError>)
        requires
            page_header@.len() <= MAX_PLAINTEXT_LEN,
        ensures
            final(encryptor).key() == old(encryptor).key(),
            match self@.header_aad(page_type) {
                Err(_) => *final(encryptor) == *old(encryptor),
                Ok(_) => old(encryptor).nonce_sequence().stepped(
                    final(encryptor).nonce_sequence(),
                ),
            },
            match self@.sealed_header(
                page_type,
                old(encryptor).key(),
                old(encryptor).nonce_sequence().next_nonce(),
                page_header@,
            ) {
                Ok(frame) => written is Ok && final(sink)@ == old(sink)@ + frame,
                Err(e) => written == Err::<(), ParquetError>(e) && final(sink)@ == old(sink)@,
            },
    {
        let module_type = header_module_type(page_type)?;
        let aad = self.module_aad(module_type)?;
        encrypt_object(page_header, encryptor, sink, aad.as_slice())
    }

    /// Encrypts a serialized page header under the key of the column, with a
    /// fresh encryptor, and appends the frame to `sink`.
    ///
    /// The header of any page but a data or dictionary page is refused, and
    /// so is an ordinal that is out of range. Otherwise the system's random
    /// number generator decides: it fails, or the outcome is that of sealing
    /// under the first nonce of some sequence. Where anything fails, nothing
    /// is written.
    pub fn encrypt_page_header(
        &self,
        page_type: PageType,
        page_header: &[u8],
        sink: &mut Vec<u8>,
    ) -> (written: Result<(), ParquetError>)
        requires
            page_header@.len() <= MAX_PLAINTEXT_LEN,
        ensures
            written is Err ==> final(sink)@ == old(sink)@,
            match spec_header_module_type(page_type) {
                Err(e) => written == Err::<(), ParquetError>(e),
                Ok(module_type) => match self@.aad(module_type) {
                    Err(e) => written == Err::<(), ParquetError>(e),
                    Ok(aad) => written == Err::<(), ParquetError>(ParquetError::Randomness)
                        || exists|start: nat| #[trigger]
                        appended_afresh(
                            self@.key(),
                            start,
                            aad,
                            page_header@,
                            written,
                            old(sink)@,
                            final(sink)@,
                        ),
                },
            },
    {
        proof {
            use_type_invariant(self);
        }
        let module_type = header_module_type(page_type)?;
        let aad = self.module_aad(module_type)?;
        let mut encryptor = self.file_encryptor.get_column_encryptor(self.column_path.as_str())?;
        let ghost start = encryptor.nonce_sequence().start();
        let outcome = encryptor.encrypt(page_header, aad.as_slice());
        assert(bytes_of(outcome) == encrypted(
            self@.key(),
            Some(nonce_at(start, 0)),
            aad@,
            page_header@,
        ));
        let written = match outcome {
            Ok(frame) => {
                sink.extend_from_slice(frame.as_slice());
                assert(sink@ =~= old(sink)@ + frame@);
                Ok(())
            },
            Err(e) => Err(e),
        };
        assert(appended_afresh(
            self@.key(),
            start,
            aad@,
            page_header@,
            written,
            old(sink)@,
            sink@,
        ));
        assert(self@.aad(module_type)->Ok_0 == aad@);
        written
    }
}

} // verus!
