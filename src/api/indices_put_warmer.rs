//! Creation of index warmers: URL builders, each assembling its URL in a buffer
//! of exactly the right size.
use vstd::prelude::*;

use crate::buffer::string_with_capacity;
use crate::urlgen::byte_len;

verus! {

/// `{base}/{index}/_warmers/{name}`
pub fn put_index_name(base: &str, index: &str, name: &str) -> (r: String)
    requires
        byte_len(base@) + byte_len(index@) + byte_len(name@) + 11 <= usize::MAX,
    ensures
        r@ == base@ + "/"@ + index@ + "/_warmers/"@ + name@,
{
    let mut url_fmtd = string_with_capacity(base.len() + 1 + index.len() + 10 + name.len());
    url_fmtd.append(base);
    url_fmtd.append("/");
    url_fmtd.append(index);
    url_fmtd.append("/_warmers/");
    url_fmtd.append(name);
    url_fmtd
}

/// `{base}/_warmers/{name}`
pub fn post_name(base: &str, name: &str) -> (r: String)
    requires
        byte_len(base@) + byte_len(name@) + 10 <= usize::MAX,
    ensures
        r@ == base@ + "/_warmers/"@ + name@,
{
    let mut url_fmtd = string_with_capacity(base.len() + 10 + name.len());
    url_fmtd.append(base);
    url_fmtd.append("/_warmers/");
    url_fmtd.append(name);
    url_fmtd
}

/// `{base}/{index}/{type}/_warmers/{name}`
pub fn put_index_type_name(base: &str, index: &str, _type: &str, name: &str) -> (r: String)
    requires
        byte_len(base@) + byte_len(index@) + byte_len(_type@) + byte_len(name@) + 12 <= usize::MAX,
    ensures
        r@ == base@ + "/"@ + index@ + "/"@ + _type@ + "/_warmers/"@ + name@,
{
    let mut url_fmtd = string_with_capacity(
        base.len() + 1 + index.len() + 1 + _type.len() + 10 + name.len(),
    );
    url_fmtd.append(base);
    url_fmtd.append("/");
    url_fmtd.append(index);
    url_fmtd.append("/");
    url_fmtd.append(_type);
    url_fmtd.append("/_warmers/");
    url_fmtd.append(name);
    url_fmtd
}

/// `{base}/_warmers/{name}`
pub fn put_name(base: &str, name: &str) -> (r: String)
    requires
        byte_len(base@) + byte_len(name@) + 10 <= usize::MAX,
    ensures
        r@ == base@ + "/_warmers/"@ + name@,
{
    let mut url_fmtd = string_with_capacity(base.len() + 10 + name.len());
    url_fmtd.append(base);
    url_fmtd.append("/_warmers/");
    url_fmtd.append(name);
    url_fmtd
}

/// `{base}/{index}/{type}/_warmers/{name}`
pub fn post_index_type_name(base: &str, index: &str, _type: &str, name: &str) -> (r: String)
    requires
        byte_len(base@) + byte_len(index@) + byte_len(_type@) + byte_len(name@) + 12 <= usize::MAX,
    ensures
        r@ == base@ + "/"@ + index@ + "/"@ + _type@ + "/_warmers/"@ + name@,
{
    let mut url_fmtd = string_with_capacity(
        base.len() + 1 + index.len() + 1 + _type.len() + 10 + name.len(),
    );
    url_fmtd.append(base);
    url_fmtd.append("/");
    url_fmtd.append(index);
    url_fmtd.append("/");
    url_fmtd.append(_type);
    url_fmtd.append("/_warmers/");
    url_fmtd.append(name);
    url_fmtd
}

/// `{base}/{index}/_warmers/{name}`
pub fn post_index_name(base: &str, index: &str, name: &str) -> (r: String)
    requires
        byte_len(base@) + byte_len(index@) + byte_len(name@) + 11 <= usize::MAX,
    ensures
        r@ == base@ + "/"@ + index@ + "/_warmers/"@ + name@,
{
    let mut url_fmtd = string_with_capacity(base.len() + 1 + index.len() + 10 + name.len());
    url_fmtd.append(base);
    url_fmtd.append("/");
    url_fmtd.append(index);
    url_fmtd.append("/_warmers/");
    url_fmtd.append(name);
    url_fmtd
}

} // verus!
