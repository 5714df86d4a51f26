//! Module types and the additional authenticated data (AAD) of a module.
//!
//! Each encrypted module of a file is sealed with an AAD that names the file,
//! the kind of module and its place in the file, so that a ciphertext moved to
//! another place no longer opens.

use crate::errors::ParquetError;
use crate::little_endian::{
    le_bytes, lemma_le_bytes_injective, lemma_le_bytes_len, pow256, push_le_bytes,
};
use vstd::prelude::*;

verus! {

/// The page ordinal that callers pass for a module that is not a page.
pub const NON_PAGE_ORDINAL: i32 = -1;

/// The largest row group, column or page ordinal: the largest signed 16-bit
/// number.
pub const MAX_ORDINAL: i32 = 32767;

/// The kinds of module that a file is made of.
#[derive(Debug, Clone, Copy, PartialEq, Eq, Structural)]
pub enum ModuleType {
    Footer,
    ColumnMetaData,
    DataPage,
    DictionaryPage,
    DataPageHeader,
    DictionaryPageHeader,
    ColumnIndex,
    OffsetIndex,
    BloomFilterHeader,
    BloomFilterBitset,
}

impl ModuleType {
    /// The byte that stands for this kind of module in an AAD.
    pub open spec fn spec_tag(self) -> u8 {
        match self {
            ModuleType::Footer => 0,
            ModuleType::ColumnMetaData => 1,
            ModuleType::DataPage => 2,
            ModuleType::DictionaryPage => 3,
            ModuleType::DataPageHeader => 4,
            ModuleType::DictionaryPageHeader => 5,
            ModuleType::ColumnIndex => 6,
            ModuleType::OffsetIndex => 7,
            ModuleType::BloomFilterHeader => 8,
            ModuleType::BloomFilterBitset => 9,
        }
    }

    /// Whether a module of this kind is a page or a page header, whose AAD
    /// carries a page ordinal.
    pub open spec fn spec_is_page(self) -> bool {
        self == ModuleType::DataPage || self == ModuleType::DictionaryPage || self
            == ModuleType::DataPageHeader || self == ModuleType::DictionaryPageHeader
    }

    /// The byte that stands for this kind of module in an AAD.
    #[verifier::when_used_as_spec(spec_tag)]
    pub fn tag(self) -> (tag: u8)
        ensures
            tag == self.spec_tag(),
    {
        match self {
            ModuleType::Footer => 0,
            ModuleType::ColumnMetaData => 1,
            ModuleType::DataPage => 2,
            ModuleType::DictionaryPage => 3,
            ModuleType::DataPageHeader => 4,
            ModuleType::DictionaryPageHeader => 5,
            ModuleType::ColumnIndex => 6,
            ModuleType::OffsetIndex => 7,
            ModuleType::BloomFilterHeader => 8,
            ModuleType::BloomFilterBitset => 9,
        }
    }

    /// Whether a module of this kind is a page or a page header.
    #[verifier::when_used_as_spec(spec_is_page)]
    pub fn is_page(self) -> (page: bool)
        ensures
            page == self.spec_is_page(),
    {
        match self {
            ModuleType::DataPage => true,
            ModuleType::DictionaryPage => true,
            ModuleType::DataPageHeader => true,
            ModuleType::DictionaryPageHeader => true,
            _ => false,
        }
    }
}

/// Whether a number can stand as an ordinal in an AAD: it is not negative and
/// fits in a signed 16-bit integer.
pub open spec fn valid_ordinal(ordinal: int) -> bool {
    0 <= ordinal <= MAX_ORDINAL
}

/// How many bytes the AAD of a module of this kind has after the file's AAD:
/// the tag alone for the footer, the tag and two ordinals for a module that is
/// not a page, the tag and three ordinals for a page.
pub open spec fn aad_suffix_len(module_type: ModuleType) -> nat {
    if module_type == ModuleType::Footer {
        1
    } else if module_type.spec_is_page() {
        7
    } else {
        5
    }
}

/// The AAD of a module, or the reason why it has none.
///
/// The footer's AAD is the file's AAD and the footer's tag; no ordinal is
/// read. Any other module needs a valid row group and column ordinal, and a
/// page or page header a valid page ordinal as well; the page ordinal of a
/// module that is not a page is not read.
pub open spec fn module_aad(
    file_aad: Seq<u8>,
    module_type: ModuleType,
    row_group_ordinal: int,
    column_ordinal: int,
    page_ordinal: int,
) -> Result<Seq<u8>, ParquetError> {
    if module_type == ModuleType::Footer {
        Ok(file_aad + seq![module_type.spec_tag()])
    } else if !valid_ordinal(row_group_ordinal) || !valid_ordinal(column_ordinal) {
        Err(ParquetError::AadOrdinal)
    } else if !module_type.spec_is_page() {
        Ok(
            file_aad + seq![module_type.spec_tag()] + le_bytes(row_group_ordinal as nat, 2)
                + le_bytes(column_ordinal as nat, 2),
        )
    } else if !valid_ordinal(page_ordinal) {
        Err(ParquetError::AadOrdinal)
    } else {
        Ok(
            file_aad + seq![module_type.spec_tag()] + le_bytes(row_group_ordinal as nat, 2)
                + le_bytes(column_ordinal as nat, 2) + le_bytes(page_ordinal as nat, 2),
        )
    }
}

/// The ordinal that stands for the index of a row group, a column or a page;
/// an index above the largest ordinal is refused.
pub fn ordinal_of_index(index: usize) -> (ordinal: Result<i32, ParquetError>)
    ensures
        match ordinal {
            Ok(found) => found == index && valid_ordinal(found as int),
            Err(e) => !valid_ordinal(index as int) && e == ParquetError::AadOrdinal,
        },
{
    if index > 32767 {
        Err(ParquetError::AadOrdinal)
    } else {
        Ok(index as i32)
    }
}

/// Builds the AAD of a module from the file's AAD, the kind of module and its
/// ordinals.
///
/// Callers pass [`NON_PAGE_ORDINAL`] as the page ordinal of a module that is
/// not a page.
pub fn create_module_aad(
    file_aad: &[u8],
    module_type: ModuleType,
    row_group_ordinal: i32,
    column_ordinal: i32,
    page_ordinal: i32,
) -> (aad: Result<Vec<u8>, ParquetError>)
    ensures
        crate::errors::bytes_of(aad) == module_aad(
            file_aad@,
            module_type,
            row_group_ordinal as int,
            column_ordinal as int,
            page_ordinal as int,
        ),
        aad matches Ok(bytes) ==> bytes@.len() == file_aad@.len() + aad_suffix_len(module_type),
{
    proof {
        lemma_module_aad_len(
            file_aad@,
            module_type,
            row_group_ordinal as int,
            column_ordinal as int,
            page_ordinal as int,
        );
    }
    let mut aad: Vec<u8> = Vec::new();
    aad.extend_from_slice(file_aad);
    aad.push(module_type.tag());
    assert(aad@ =~= file_aad@ + seq![module_type.spec_tag()]);
    if module_type == ModuleType::Footer {
        return Ok(aad);
    }
    if row_group_ordinal < 0 || row_group_ordinal > MAX_ORDINAL {
        return Err(ParquetError::AadOrdinal);
    }
    if column_ordinal < 0 || column_ordinal > MAX_ORDINAL {
        return Err(ParquetError::AadOrdinal);
    }
    push_le_bytes(&mut aad, row_group_ordinal as u128, 2);
    push_le_bytes(&mut aad, column_ordinal as u128, 2);
    if !module_type.is_page() {
        return Ok(aad);
    }
    if page_ordinal < 0 || page_ordinal > MAX_ORDINAL {
        return Err(ParquetError::AadOrdinal);
    }
    push_le_bytes(&mut aad, page_ordinal as u128, 2);
    Ok(aad)
}

/// The AAD of a module is the file's AAD followed by one byte for the footer,
/// five bytes for a module that is not a page, and seven bytes for a page.
pub proof fn lemma_module_aad_len(
    file_aad: Seq<u8>,
    module_type: ModuleType,
    row_group_ordinal: int,
    column_ordinal: int,
    page_ordinal: int,
)
    ensures
        module_aad(file_aad, module_type, row_group_ordinal, column_ordinal, page_ordinal)
            matches Ok(aad) ==> {
            &&& aad.len() == file_aad.len() + aad_suffix_len(module_type)
            &&& module_type == ModuleType::Footer ==> aad.len() == file_aad.len() + 1
            &&& module_type != ModuleType::Footer && !module_type.spec_is_page() ==> aad.len()
                == file_aad.len() + 5
            &&& module_type.spec_is_page() ==> aad.len() == file_aad.len() + 7
        },
{
    lemma_le_bytes_len(row_group_ordinal as nat, 2);
    lemma_le_bytes_len(column_ordinal as nat, 2);
    lemma_le_bytes_len(page_ordinal as nat, 2);
}

/// Building an AAD twice from the same inputs gives the same bytes, or the
/// same refusal: whatever two calls of [`create_module_aad`] return on equal
/// inputs is equal.
pub proof fn lemma_module_aad_deterministic(
    file_aad: Seq<u8>,
    module_type: ModuleType,
    row_group_ordinal: int,
    column_ordinal: int,
    page_ordinal: int,
    first: Result<Vec<u8>, ParquetError>,
    second: Result<Vec<u8>, ParquetError>,
)
    requires
        crate::errors::bytes_of(first) == module_aad(
            file_aad,
            module_type,
            row_group_ordinal,
            column_ordinal,
            page_ordinal,
        ),
        crate::errors::bytes_of(second) == module_aad(
            file_aad,
            module_type,
            row_group_ordinal,
            column_ordinal,
            page_ordinal,
        ),
    ensures
        crate::errors::bytes_of(first) == crate::errors::bytes_of(second),
{
}

/// Within one file an AAD names one place: two modules with the same AAD are
/// of the same kind and, so far as their kind has them, have the same row
/// group, column and page ordinals.
pub proof fn lemma_module_aad_injective(
    file_aad: Seq<u8>,
    first_type: ModuleType,
    first_row_group: int,
    first_column: int,
    first_page: int,
    second_type: ModuleType,
    second_row_group: int,
    second_column: int,
    second_page: int,
)
    requires
        module_aad(file_aad, first_type, first_row_group, first_column, first_page) is Ok,
        module_aad(file_aad, first_type, first_row_group, first_column, first_page) == module_aad(
            file_aad,
            second_type,
            second_row_group,
            second_column,
            second_page,
        ),
    ensures
        first_type == second_type,
        first_type != ModuleType::Footer ==> first_row_group == second_row_group && first_column
            == second_column,
        first_type.spec_is_page() ==> first_page == second_page,
{
    let first = module_aad(file_aad, first_type, first_row_group, first_column, first_page)->Ok_0;
    let second = module_aad(
        file_aad,
        second_type,
        second_row_group,
        second_column,
        second_page,
    )->Ok_0;
    let at = file_aad.len() as int;
    lemma_le_bytes_len(first_row_group as nat, 2);
    lemma_le_bytes_len(first_column as nat, 2);
    lemma_le_bytes_len(first_page as nat, 2);
    lemma_le_bytes_len(second_row_group as nat, 2);
    lemma_le_bytes_len(second_column as nat, 2);
    lemma_le_bytes_len(second_page as nat, 2);
    assert(first[at] == first_type.spec_tag());
    assert(second[at] == second_type.spec_tag());
    assert(first_type == second_type);
    assert(pow256(2) == 65536) by {
        reveal_with_fuel(pow256, 3);
    }
    if first_type != ModuleType::Footer {
        assert(first.subrange(at + 1, at + 3) =~= le_bytes(first_row_group as nat, 2));
        assert(second.subrange(at + 1, at + 3) =~= le_bytes(second_row_group as nat, 2));
        lemma_le_bytes_injective(first_row_group as nat, second_row_group as nat, 2);
        assert(first.subrange(at + 3, at + 5) =~= le_bytes(first_column as nat, 2));
        assert(second.subrange(at + 3, at + 5) =~= le_bytes(second_column as nat, 2));
        lemma_le_bytes_injective(first_column as nat, second_column as nat, 2);
        if first_type.spec_is_page() {
            assert(first.subrange(at + 5, at + 7) =~= le_bytes(first_page as nat, 2));
            assert(second.subrange(at + 5, at + 7) =~= le_bytes(second_page as nat, 2));
            lemma_le_bytes_injective(first_page as nat, second_page as nat, 2);
        }
    }
}

} // verus!
