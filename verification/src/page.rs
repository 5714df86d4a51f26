//! Pages as the encryption layer sees them: their kind and their compressed
//! bytes.

use crate::errors::ParquetError;
use vstd::prelude::*;

verus! {

/// The kinds of page that a page header can announce.
#[derive(Debug, Clone, Copy, PartialEq, Eq, Structural)]
pub enum PageType {
    DataPage,
    IndexPage,
    DictionaryPage,
    DataPageV2,
}

impl PageType {
    /// The kind of page that a file writes as `value`, if there is one.
    pub open spec fn spec_from_i32(value: int) -> Result<PageType, ParquetError> {
        if value == 0 {
            Ok(PageType::DataPage)
        } else if value == 1 {
            Ok(PageType::IndexPage)
        } else if value == 2 {
            Ok(PageType::DictionaryPage)
        } else if value == 3 {
            Ok(PageType::DataPageV2)
        } else {
            Err(ParquetError::UnsupportedPageType)
        }
    }

    /// The kind of page that a file writes as `value`; a number that stands
    /// for no kind of page is refused.
    pub fn from_i32(value: i32) -> (page_type: Result<PageType, ParquetError>)
        ensures
            page_type == Self::spec_from_i32(value as int),
    {
        match value {
            0 => Ok(PageType::DataPage),
            1 => Ok(PageType::IndexPage),
            2 => Ok(PageType::DictionaryPage),
            3 => Ok(PageType::DataPageV2),
            _ => Err(ParquetError::UnsupportedPageType),
        }
    }
}

/// A page: a data page of either version, or a dictionary page, with its
/// bytes.
#[derive(Debug, PartialEq, Eq)]
pub enum Page {
    DataPage { buf: Vec<u8> },
    DataPageV2 { buf: Vec<u8> },
    DictionaryPage { buf: Vec<u8> },
}

impl Page {
    /// The kind of this page.
    pub open spec fn spec_page_type(&self) -> PageType {
        match self {
            Page::DataPage { .. } => PageType::DataPage,
            Page::DataPageV2 { .. } => PageType::DataPageV2,
            Page::DictionaryPage { .. } => PageType::DictionaryPage,
        }
    }

    /// Whether this is a data page, of either version.
    pub open spec fn spec_is_data_page(&self) -> bool {
        self is DataPage || self is DataPageV2
    }

    /// The bytes of this page.
    pub open spec fn spec_buffer(&self) -> Seq<u8> {
        match self {
            Page::DataPage { buf } => buf@,
            Page::DataPageV2 { buf } => buf@,
            Page::DictionaryPage { buf } => buf@,
        }
    }

    /// The kind of this page.
    #[verifier::when_used_as_spec(spec_page_type)]
    pub fn page_type(&self) -> (page_type: PageType)
        ensures
            page_type == self.spec_page_type(),
    {
        match self {
            Page::DataPage { .. } => PageType::DataPage,
            Page::DataPageV2 { .. } => PageType::DataPageV2,
            Page::DictionaryPage { .. } => PageType::DictionaryPage,
        }
    }

    /// Whether this is a data page, of either version.
    #[verifier::when_used_as_spec(spec_is_data_page)]
    pub fn is_data_page(&self) -> (data_page: bool)
        ensures
            data_page == self.spec_is_data_page(),
    {
        match self {
            Page::DataPage { .. } => true,
            Page::DataPageV2 { .. } => true,
            Page::DictionaryPage { .. } => false,
        }
    }

    /// The bytes of this page.
    pub fn buffer(&self) -> (buf: &Vec<u8>)
        ensures
            buf@ == self.spec_buffer(),
    {
        match self {
            Page::DataPage { buf } => buf,
            Page::DataPageV2 { buf } => buf,
            Page::DictionaryPage { buf } => buf,
        }
    }
}

/// A page whose bytes have been compressed, with the size that they had
/// before.
#[derive(Debug, PartialEq, Eq)]
pub struct CompressedPage {
    compressed_page: Page,
    uncompressed_size: usize,
}

impl CompressedPage {
    /// The page with its compressed bytes.
    pub closed spec fn spec_compressed_page(&self) -> Page {
        self.compressed_page
    }

    /// The size of the page before compression.
    pub closed spec fn spec_uncompressed_size(&self) -> usize {
        self.uncompressed_size
    }

    /// A compressed page.
    pub fn new(compressed_page: Page, uncompressed_size: usize) -> (page: Self)
        ensures
            page.spec_compressed_page() == compressed_page,
            page.spec_uncompressed_size() == uncompressed_size,
    {
        CompressedPage { compressed_page, uncompressed_size }
    }

    /// The page with its compressed bytes.
    pub fn compressed_page(&self) -> (page: &Page)
        ensures
            *page == self.spec_compressed_page(),
    {
        &self.compressed_page
    }

    /// The size of the page before compression.
    #[verifier::when_used_as_spec(spec_uncompressed_size)]
    pub fn uncompressed_size(&self) -> (size: usize)
        ensures
            size == self.spec_uncompressed_size(),
    {
        self.uncompressed_size
    }

    /// The compressed bytes of the page.
    pub fn data(&self) -> (data: &[u8])
        ensures
            data@ == self.spec_compressed_page().spec_buffer(),
    {
        self.compressed_page.buffer().as_slice()
    }
}

} // verus!
