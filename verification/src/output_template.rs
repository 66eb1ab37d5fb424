use vstd::prelude::*;
use vstd::string::*;

use crate::strutil::{
    chars_of, contains_sub, replace_sub, spec_contains_sub, spec_dec, spec_replace, spec_zero_pad,
    u64_dec, zero_pad,
};

verus! {

/// Whether an output path contains a page-number placeholder, so that one
/// export per page can be written without the page files overwriting each
/// other.
pub fn has_indexable_template(output: &str) -> (r: bool)
    ensures
        r == (spec_contains_sub(output@, "{p}"@) || spec_contains_sub(output@, "{0p}"@)
            || spec_contains_sub(output@, "{n}"@)),
{
    let v = chars_of(output);
    let p1 = chars_of("{p}");
    let p2 = chars_of("{0p}");
    let p3 = chars_of("{n}");
    contains_sub(&v, &p1) || contains_sub(&v, &p2) || contains_sub(&v, &p3)
}

/// What instantiating an output template for one page yields: `{p}` becomes
/// the page number, `{0p}` and `{n}` the page number zero-padded to the
/// width of the page count, and `{t}` the page count, replaced in that
/// order.
pub open spec fn spec_format(output: Seq<char>, this_page: int, total_pages: int) -> Seq<char> {
    let plain = spec_dec(this_page);
    let padded = spec_zero_pad(spec_dec(this_page), spec_dec(total_pages).len() as int);
    let total = spec_dec(total_pages);
    spec_replace(
        spec_replace(
            spec_replace(spec_replace(output, "{p}"@, plain), "{0p}"@, padded),
            "{n}"@,
            padded,
        ),
        "{t}"@,
        total,
    )
}

/// Instantiates an output path template for one page of a document with
/// `total_pages` pages.
pub fn format(output: &str, this_page: usize, total_pages: usize) -> (r: String)
    ensures
        r@ == spec_format(output@, this_page as int, total_pages as int),
{
    let plain = u64_dec(this_page as u64);
    let total = u64_dec(total_pages as u64);
    let width: usize = total.as_str().unicode_len();
    let padded = zero_pad(plain.as_str(), width);
    let step1 = replace_sub(&chars_of(output), &chars_of("{p}"), plain.as_str());
    let step2 = replace_sub(&chars_of(step1.as_str()), &chars_of("{0p}"), padded.as_str());
    let step3 = replace_sub(&chars_of(step2.as_str()), &chars_of("{n}"), padded.as_str());
    replace_sub(&chars_of(step3.as_str()), &chars_of("{t}"), total.as_str())
}

} // verus!
