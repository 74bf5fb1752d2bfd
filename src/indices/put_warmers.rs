//! URLs of the put-warmer endpoint, under `_warmers`.
use vstd::prelude::*;

use crate::buffer::string_with_capacity;
use crate::urlgen::byte_len;

verus! {

/// `{base}/_warmers/{name}`
pub fn put_name(base: String, name: String) -> (r: String)
    requires
        byte_len(base@) + byte_len(name@) + 10 <= usize::MAX,
    ensures
        r@ == base@ + "/_warmers/"@ + name@,
{
    let mut url_fmtd = string_with_capacity(base.as_str().len() + 10 + name.as_str().len());
    url_fmtd.append(base.as_str());
    url_fmtd.append("/_warmers/");
    url_fmtd.append(name.as_str());
    url_fmtd
}

/// `{base}/{index}/_warmers/{name}`
pub fn put_index_name(base: String, index: String, name: String) -> (r: String)
    requires
        byte_len(base@) + byte_len(index@) + byte_len(name@) + 11 <= usize::MAX,
    ensures
        r@ == base@ + "/"@ + index@ + "/_warmers/"@ + name@,
{
    let mut url_fmtd = string_with_capacity(
        base.as_str().len() + 1 + index.as_str().len() + 10 + name.as_str().len(),
    );
    url_fmtd.append(base.as_str());
    url_fmtd.append("/");
    url_fmtd.append(index.as_str());
    url_fmtd.append("/_warmers/");
    url_fmtd.append(name.as_str());
    url_fmtd
}

/// `{base}/{index}/{type}/_warmers/{name}`
pub fn put_index_type_name(base: String, index: String, _type: String, name: String) -> (r: String)
    requires
        byte_len(base@) + byte_len(index@) + byte_len(_type@) + byte_len(name@) + 12 <= usize::MAX,
    ensures
        r@ == base@ + "/"@ + index@ + "/"@ + _type@ + "/_warmers/"@ + name@,
{
    let mut url_fmtd = string_with_capacity(
        base.as_str().len() + 1 + index.as_str().len() + 1 + _type.as_str().len() + 10
            + name.as_str().len(),
    );
    url_fmtd.append(base.as_str());
    url_fmtd.append("/");
    url_fmtd.append(index.as_str());
    url_fmtd.append("/");
    url_fmtd.append(_type.as_str());
    url_fmtd.append("/_warmers/");
    url_fmtd.append(name.as_str());
    url_fmtd
}

/// `{base}/_warmers/{name}`
pub fn post_name(base: String, name: String) -> (r: String)
    requires
        byte_len(base@) + byte_len(name@) + 10 <= usize::MAX,
    ensures
        r@ == base@ + "/_warmers/"@ + name@,
{
    let mut url_fmtd = string_with_capacity(base.as_str().len() + 10 + name.as_str().len());
    url_fmtd.append(base.as_str());
    url_fmtd.append("/_warmers/");
    url_fmtd.append(name.as_str());
    url_fmtd
}

/// `{base}/{index}/_warmers/{name}`
pub fn post_index_name(base: String, index: String, name: String) -> (r: String)
    requires
        byte_len(base@) + byte_len(index@) + byte_len(name@) + 11 <= usize::MAX,
    ensures
        r@ == base@ + "/"@ + index@ + "/_warmers/"@ + name@,
{
    let mut url_fmtd = string_with_capacity(
        base.as_str().len() + 1 + index.as_str().len() + 10 + name.as_str().len(),
    );
    url_fmtd.append(base.as_str());
    url_fmtd.append("/");
    url_fmtd.append(index.as_str());
    url_fmtd.append("/_warmers/");
    url_fmtd.append(name.as_str());
    url_fmtd
}

/// `{base}/{index}/{type}/_warmers/{name}`
pub fn post_index_type_name(base: String, index: String, _type: String, name: String) -> (r: String)
    requires
        byte_len(base@) + byte_len(index@) + byte_len(_type@) + byte_len(name@) + 12 <= usize::MAX,
    ensures
        r@ == base@ + "/"@ + index@ + "/"@ + _type@ + "/_warmers/"@ + name@,
{
    let mut url_fmtd = string_with_capacity(
        base.as_str().len() + 1 + index.as_str().len() + 1 + _type.as_str().len() + 10
            + name.as_str().len(),
    );
    url_fmtd.append(base.as_str());
    url_fmtd.append("/");
    url_fmtd.append(index.as_str());
    url_fmtd.append("/");
    url_fmtd.append(_type.as_str());
    url_fmtd.append("/_warmers/");
    url_fmtd.append(name.as_str());
    url_fmtd
}

} // verus!
