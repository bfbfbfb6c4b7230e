//! The per-process memory-accounting text: whitespace-separated page counts,
//! of which the second is the resident set size.

use vstd::prelude::*;
use vstd::slice::slice_subrange;

use crate::decimal::{parse_u64_chars, u64_of_text};
use crate::text::{field, field_start, next_field, to_chars};

verus! {

/// Kibibytes per page where the platform's page size is not known.
pub const DEFAULT_PAGE_SIZE_KB: u64 = 4;

/// The resident memory, in kibibytes, that the memory-accounting text `s`
/// reports with pages of `page_size_kb` kibibytes: the second field, a
/// 64-bit decimal integer, times the page size. Nothing when the second
/// field is missing or no such integer, or when the product is not a 64-bit
/// quantity.
pub open spec fn resident_kib(s: Seq<char>, page_size_kb: u64) -> Option<u64> {
    match u64_of_text(field(s, 1)) {
        Some(pages) => if pages * page_size_kb <= u64::MAX {
            Some((pages * page_size_kb) as u64)
        } else {
            None
        },
        None => None,
    }
}

/// Reads the resident memory, in kibibytes, out of memory-accounting text,
/// with pages of `page_size_kb` kibibytes.
pub fn parse_statm_with_page_size(contents: &str, page_size_kb: u64) -> (kib: Option<u64>)
    ensures
        kib == resident_kib(contents@, page_size_kb),
{
    let chars = to_chars(contents);
    let all = chars.as_slice();
    let (first_start, first_end) = next_field(all, 0);
    assert(first_start == field_start(all@, 0));
    let (start, end) = next_field(all, first_end);
    match parse_u64_chars(slice_subrange(all, start, end)) {
        Some(pages) => pages.checked_mul(page_size_kb),
        None => None,
    }
}

/// Reads the resident memory, in kibibytes, out of memory-accounting text,
/// with pages of four kibibytes.
pub fn parse_statm(contents: String) -> (kib: Option<u64>)
    ensures
        kib == resident_kib(contents@, DEFAULT_PAGE_SIZE_KB),
{
    parse_statm_with_page_size(contents.as_str(), DEFAULT_PAGE_SIZE_KB)
}

} // verus!
