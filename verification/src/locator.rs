//! Request and download locators, derived deterministically from a record
//! identifier.

use vstd::prelude::*;
use vstd::string::StringExecFns;
use crate::decimal::{dec_digits, usize_to_decimal};

verus! {

/// The characters of the detail-endpoint locator for one identifier.
pub open spec fn detail_url_chars(id: nat) -> Seq<char> {
    "https://www.iresearch.com.cn/api/Detail/reportM?id="@ + dec_digits(id) + "&isfree=0"@
}

/// The characters of the download locator for one identifier.
pub open spec fn download_url_chars(id: nat) -> Seq<char> {
    "https://www.iresearch.cn/include/ajax/user_ajax.ashx?work=idown&rid="@ + dec_digits(id)
}

/// Builds the detail-endpoint locator for the requested identifier.
pub fn report_detail_url(id: usize) -> (r: String)
    ensures
        r@ == detail_url_chars(id as nat),
{
    let digits = usize_to_decimal(id);
    let r = String::from_str("https://www.iresearch.com.cn/api/Detail/reportM?id=").concat(
        digits.as_str(),
    ).concat("&isfree=0");
    proof {
        assert(r@ =~= detail_url_chars(id as nat));
    }
    r
}

/// Builds the download locator for a payload-reported identifier.
pub fn download_url(id: usize) -> (r: String)
    ensures
        r@ == download_url_chars(id as nat),
{
    let digits = usize_to_decimal(id);
    let r = String::from_str("https://www.iresearch.cn/include/ajax/user_ajax.ashx?work=idown&rid=").concat(
        digits.as_str(),
    );
    proof {
        assert(r@ =~= download_url_chars(id as nat));
    }
    r
}

} // verus!
