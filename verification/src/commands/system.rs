//! What is reported about the graphics card.

use crate::text::{after_first_field, first_field, split_first, trim, trimmed};
use vstd::prelude::*;

verus! {

/// The graphics card as `nvidia-smi` describes it.
#[derive(Debug, Clone, PartialEq, Eq)]
pub struct GpuInfo {
    pub name: String,
    pub vram_total_mb: u32,
    pub cuda_available: bool,
}

/// The number that `text` spells in decimal, as `str::parse::<u32>` reads it.
pub uninterp spec fn parsed_u32(text: Seq<char>) -> Option<u32>;

/// `str::parse::<u32>` of std: the value of a decimal numeral that fits, and
/// nothing for any other text. The contract only names that result.
#[verifier::external_body]
fn parse_u32(text: &str) -> (value: Option<u32>)
    ensures
        value == parsed_u32(text@),
{
    text.parse::<u32>().ok()
}

/// The separator between the fields of a line.
pub open spec fn field_separator() -> Seq<char> {
    ", "@
}

/// The second field of `line`, if it has more than one.
pub open spec fn second_field(line: Seq<char>) -> Option<Seq<char>> {
    match after_first_field(line, field_separator()) {
        Some(rest) => Some(first_field(rest, field_separator())),
        None => None,
    }
}

/// The memory size to report for what the second field reads, once it was
/// parsed: zero for a line without a second field and for one that is no number.
pub fn memory_or_zero(parsed: Option<Option<u32>>) -> (megabytes: u32)
    ensures
        megabytes == match parsed {
            Some(Some(value)) => value,
            _ => 0u32,
        },
{
    match parsed {
        Some(Some(value)) => value,
        _ => 0,
    }
}

/// Reads the answer of `nvidia-smi` to a query for name and total memory:
/// one line, `name, megabytes`. White space around the line is ignored. The
/// name is the first field; the memory is the second, or zero where it is
/// missing or no number. `succeeded` says whether the tool ended well.
pub fn gpu_info(stdout: &str, succeeded: bool) -> (info: GpuInfo)
    ensures
        info.name@ == first_field(trimmed(stdout@), field_separator()),
        info.vram_total_mb == match second_field(trimmed(stdout@)) {
            Some(field) => match parsed_u32(field) {
                Some(value) => value,
                None => 0u32,
            },
            None => 0u32,
        },
        info.cuda_available == succeeded,
{
    let line: &str = trim(stdout);
    let (name, rest) = split_first(line, ", ");
    let parsed: Option<Option<u32>> = match rest {
        Some(rest) => {
            let (second, _) = split_first(rest, ", ");
            Some(parse_u32(second))
        },
        None => None,
    };
    GpuInfo { name: name.to_owned(), vram_total_mb: memory_or_zero(parsed), cuda_available: succeeded }
}

} // verus!
