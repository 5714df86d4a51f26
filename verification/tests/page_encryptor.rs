use parquet_encryption::ciphers::{
    BlockDecryptor, BlockEncryptor, CounterNonce, RingGcmBlockDecryptor, RingGcmBlockEncryptor,
};
use parquet_encryption::encrypt::{EncryptionKey, FileEncryptionProperties, FileEncryptor};
use parquet_encryption::errors::ParquetError;
use parquet_encryption::modules::{create_module_aad, ModuleType, NON_PAGE_ORDINAL};
use parquet_encryption::page::{CompressedPage, Page, PageType};
use parquet_encryption::page_encryptor::{header_module_type, PageEncryptor};
use std::sync::Arc;

const K1: [u8; 16] = [1u8; 16];
const K2: [u8; 16] = [2u8; 16];
const UNIQUE: [u8; 8] = [10, 11, 12, 13, 14, 15, 16, 17];

fn uniform_file() -> Option<Arc<FileEncryptor>> {
    let properties = FileEncryptionProperties::builder(K1.to_vec()).build().unwrap();
    Some(Arc::new(FileEncryptor::with_aad_file_unique(properties, UNIQUE.to_vec())))
}

fn selective_file() -> Option<Arc<FileEncryptor>> {
    let properties = FileEncryptionProperties::builder(K1.to_vec())
        .with_column_key("col_a".to_string(), EncryptionKey::new(K2.to_vec()))
        .build()
        .unwrap();
    Some(Arc::new(FileEncryptor::with_aad_file_unique(properties, UNIQUE.to_vec())))
}

fn data_page(bytes: &[u8]) -> CompressedPage {
    CompressedPage::new(Page::DataPage { buf: bytes.to_vec() }, bytes.len() * 2)
}

fn open(key: &[u8], frame: &[u8], aad: &[u8]) -> Result<Vec<u8>, ParquetError> {
    RingGcmBlockDecryptor::new(key).unwrap().decrypt(frame, aad)
}

#[test]
fn no_page_encryptor_without_file_encryptor() {
    assert!(PageEncryptor::create_if_column_encrypted(&None, 0, 0, "c".to_string()).is_none());
}

#[test]
fn page_encryptor_only_for_encrypted_columns() {
    let file = selective_file();
    assert!(PageEncryptor::create_if_column_encrypted(&file, 0, 0, "col_a".to_string()).is_some());
    assert!(PageEncryptor::create_if_column_encrypted(&file, 0, 1, "col_b".to_string()).is_none());
    let file = uniform_file();
    assert!(PageEncryptor::create_if_column_encrypted(&file, 0, 1, "col_b".to_string()).is_some());
}

#[test]
fn page_index_counts_the_calls_of_increment_page() {
    let mut encryptor =
        PageEncryptor::create_if_column_encrypted(&uniform_file(), 3, 2, "c".to_string()).unwrap();
    assert_eq!(encryptor.page_index(), 0);
    for k in 1..=1000 {
        encryptor.increment_page();
        assert_eq!(encryptor.page_index(), k);
    }
}

#[test]
fn data_page_is_sealed_under_the_data_page_aad() {
    let mut encryptor =
        PageEncryptor::create_if_column_encrypted(&uniform_file(), 3, 2, "c".to_string()).unwrap();
    for _ in 0..7 {
        encryptor.increment_page();
    }
    let page = data_page(b"compressed page bytes");
    let frame = encryptor.encrypt_page(&page).unwrap();
    assert_eq!(frame.len(), 4 + 12 + 21 + 16);

    let mut file_aad = UNIQUE.to_vec();
    let aad = create_module_aad(&file_aad, ModuleType::DataPage, 3, 2, 7).unwrap();
    assert_eq!(open(&K1, &frame, &aad), Ok(b"compressed page bytes".to_vec()));

    file_aad.extend_from_slice(&[2, 3, 0, 2, 0, 7, 0]);
    assert_eq!(aad, file_aad);

    let other_page = create_module_aad(&UNIQUE, ModuleType::DataPage, 3, 2, 6).unwrap();
    assert_eq!(open(&K1, &frame, &other_page), Err(ParquetError::AuthenticationFailed));
    let other_kind = create_module_aad(&UNIQUE, ModuleType::DictionaryPage, 3, 2, 7).unwrap();
    assert_eq!(open(&K1, &frame, &other_kind), Err(ParquetError::AuthenticationFailed));
}

#[test]
fn data_page_v2_is_a_data_page() {
    let encryptor =
        PageEncryptor::create_if_column_encrypted(&uniform_file(), 0, 0, "c".to_string()).unwrap();
    let page = CompressedPage::new(Page::DataPageV2 { buf: b"v2".to_vec() }, 2);
    let frame = encryptor.encrypt_page(&page).unwrap();
    let aad = create_module_aad(&UNIQUE, ModuleType::DataPage, 0, 0, 0).unwrap();
    assert_eq!(open(&K1, &frame, &aad), Ok(b"v2".to_vec()));
}

#[test]
fn dictionary_page_takes_ordinal_zero_and_the_first_data_page_the_next() {
    let mut encryptor =
        PageEncryptor::create_if_column_encrypted(&selective_file(), 1, 0, "col_a".to_string())
            .unwrap();
    let dictionary = CompressedPage::new(Page::DictionaryPage { buf: b"dict".to_vec() }, 4);
    let dictionary_frame = encryptor.encrypt_page(&dictionary).unwrap();
    encryptor.increment_page();
    let data_frame = encryptor.encrypt_page(&data_page(b"data")).unwrap();
    encryptor.increment_page();

    let dictionary_aad = create_module_aad(&UNIQUE, ModuleType::DictionaryPage, 1, 0, 0).unwrap();
    let data_aad = create_module_aad(&UNIQUE, ModuleType::DataPage, 1, 0, 1).unwrap();
    assert_eq!(open(&K2, &dictionary_frame, &dictionary_aad), Ok(b"dict".to_vec()));
    assert_eq!(open(&K2, &data_frame, &data_aad), Ok(b"data".to_vec()));
    assert_eq!(open(&K1, &data_frame, &data_aad), Err(ParquetError::AuthenticationFailed));
    assert_eq!(encryptor.page_index(), 2);
}

#[test]
fn page_header_is_sealed_into_the_sink() {
    let mut encryptor =
        PageEncryptor::create_if_column_encrypted(&uniform_file(), 2, 5, "c".to_string()).unwrap();
    encryptor.increment_page();
    let mut sink = b"head".to_vec();
    encryptor.encrypt_page_header(PageType::DataPage, b"serialized header", &mut sink).unwrap();
    assert_eq!(&sink[..4], b"head");
    assert_eq!(sink.len(), 4 + 4 + 12 + 17 + 16);
    let aad = create_module_aad(&UNIQUE, ModuleType::DataPageHeader, 2, 5, 1).unwrap();
    assert_eq!(open(&K1, &sink[4..], &aad), Ok(b"serialized header".to_vec()));

    let mut v2 = Vec::new();
    encryptor.encrypt_page_header(PageType::DataPageV2, b"h2", &mut v2).unwrap();
    assert_eq!(open(&K1, &v2, &aad), Ok(b"h2".to_vec()));

    let mut dictionary = Vec::new();
    encryptor.encrypt_page_header(PageType::DictionaryPage, b"hd", &mut dictionary).unwrap();
    let aad = create_module_aad(&UNIQUE, ModuleType::DictionaryPageHeader, 2, 5, 1).unwrap();
    assert_eq!(open(&K1, &dictionary, &aad), Ok(b"hd".to_vec()));
}

#[test]
fn header_of_an_index_page_is_refused() {
    let encryptor =
        PageEncryptor::create_if_column_encrypted(&uniform_file(), 0, 0, "c".to_string()).unwrap();
    let mut sink = b"kept".to_vec();
    assert_eq!(
        encryptor.encrypt_page_header(PageType::IndexPage, b"header", &mut sink),
        Err(ParquetError::UnsupportedPageType)
    );
    assert_eq!(sink, b"kept".to_vec());
    assert_eq!(header_module_type(PageType::IndexPage), Err(ParquetError::UnsupportedPageType));
    assert_eq!(header_module_type(PageType::DataPage), Ok(ModuleType::DataPageHeader));
    assert_eq!(header_module_type(PageType::DataPageV2), Ok(ModuleType::DataPageHeader));
    assert_eq!(
        header_module_type(PageType::DictionaryPage),
        Ok(ModuleType::DictionaryPageHeader)
    );
}

#[test]
fn unknown_page_type_is_refused() {
    assert_eq!(PageType::from_i32(0), Ok(PageType::DataPage));
    assert_eq!(PageType::from_i32(1), Ok(PageType::IndexPage));
    assert_eq!(PageType::from_i32(2), Ok(PageType::DictionaryPage));
    assert_eq!(PageType::from_i32(3), Ok(PageType::DataPageV2));
    assert_eq!(PageType::from_i32(4), Err(ParquetError::UnsupportedPageType));
    assert_eq!(PageType::from_i32(-1), Err(ParquetError::UnsupportedPageType));
}

#[test]
fn ordinals_out_of_range_are_refused() {
    let too_many_row_groups =
        PageEncryptor::create_if_column_encrypted(&uniform_file(), 32768, 0, "c".to_string())
            .unwrap();
    assert_eq!(
        too_many_row_groups.encrypt_page(&data_page(b"x")),
        Err(ParquetError::AadOrdinal)
    );
    let too_many_columns =
        PageEncryptor::create_if_column_encrypted(&uniform_file(), 0, 32768, "c".to_string())
            .unwrap();
    let mut sink = Vec::new();
    assert_eq!(
        too_many_columns.encrypt_page_header(PageType::DataPage, b"h", &mut sink),
        Err(ParquetError::AadOrdinal)
    );
    assert!(sink.is_empty());

    let mut too_many_pages =
        PageEncryptor::create_if_column_encrypted(&uniform_file(), 0, 0, "c".to_string()).unwrap();
    for _ in 0..32767 {
        too_many_pages.increment_page();
    }
    assert!(too_many_pages.encrypt_page(&data_page(b"x")).is_ok());
    too_many_pages.increment_page();
    assert_eq!(too_many_pages.encrypt_page(&data_page(b"x")), Err(ParquetError::AadOrdinal));
}

#[test]
fn module_aad_of_the_current_page() {
    let mut encryptor =
        PageEncryptor::create_if_column_encrypted(&uniform_file(), 1, 0, "c".to_string()).unwrap();
    encryptor.increment_page();
    assert_eq!(
        encryptor.module_aad(ModuleType::ColumnMetaData),
        create_module_aad(&UNIQUE, ModuleType::ColumnMetaData, 1, 0, NON_PAGE_ORDINAL)
    );
    assert_eq!(
        encryptor.module_aad(ModuleType::DataPageHeader),
        create_module_aad(&UNIQUE, ModuleType::DataPageHeader, 1, 0, 1)
    );
    assert_eq!(
        encryptor.module_aad(ModuleType::Footer),
        create_module_aad(&UNIQUE, ModuleType::Footer, 0, 0, 0)
    );
}

#[test]
fn encrypt_page_with_a_given_encryptor() {
    let encryptor =
        PageEncryptor::create_if_column_encrypted(&uniform_file(), 0, 0, "c".to_string()).unwrap();
    let mut block: Box<dyn BlockEncryptor> = Box::new(
        RingGcmBlockEncryptor::with_nonce_sequence(&K1, CounterNonce::from_seed(4)).unwrap(),
    );
    let frame = encryptor.encrypt_page_with(&data_page(b"page"), &mut block).unwrap();
    assert_eq!(&frame[4..16], &[5u8, 0, 0, 0, 0, 0, 0, 0, 0, 0, 0, 0]);
    let aad = create_module_aad(&UNIQUE, ModuleType::DataPage, 0, 0, 0).unwrap();
    assert_eq!(open(&K1, &frame, &aad), Ok(b"page".to_vec()));

    let mut sink = Vec::new();
    encryptor
        .encrypt_page_header_with(PageType::DictionaryPage, b"header", &mut block, &mut sink)
        .unwrap();
    assert_eq!(&sink[4..16], &[6u8, 0, 0, 0, 0, 0, 0, 0, 0, 0, 0, 0]);
    let aad = create_module_aad(&UNIQUE, ModuleType::DictionaryPageHeader, 0, 0, 0).unwrap();
    assert_eq!(open(&K1, &sink, &aad), Ok(b"header".to_vec()));

    assert_eq!(
        encryptor.encrypt_page_header_with(PageType::IndexPage, b"header", &mut block, &mut sink),
        Err(ParquetError::UnsupportedPageType)
    );
    let frame = encryptor.encrypt_page_with(&data_page(b"next"), &mut block).unwrap();
    assert_eq!(&frame[4..16], &[7u8, 0, 0, 0, 0, 0, 0, 0, 0, 0, 0, 0]);
}

#[test]
fn compressed_page_accessors() {
    let page = CompressedPage::new(Page::DictionaryPage { buf: vec![1, 2, 3] }, 10);
    assert_eq!(page.data(), &[1u8, 2, 3]);
    assert_eq!(page.uncompressed_size(), 10);
    assert_eq!(page.compressed_page().page_type(), PageType::DictionaryPage);
    assert!(!page.compressed_page().is_data_page());
    assert!(Page::DataPage { buf: vec![] }.is_data_page());
    assert!(Page::DataPageV2 { buf: vec![] }.is_data_page());
    assert_eq!(Page::DataPageV2 { buf: vec![4] }.buffer(), &vec![4u8]);
}
