//! The address under which a browser loads markup that is handed to it
//! directly: a `data:` URL that carries the markup in base64.

use vstd::prelude::*;
use vstd::string::StringExecFns;
use vstd::string::StringSliceAdditionalSpecFns;

verus! {

/// The standard base64 text, with padding, of the UTF-8 bytes of `text`.
pub uninterp spec fn base64_text(text: Seq<char>) -> Seq<char>;

/// The longest markup, in bytes, that is turned into a URL.
pub open spec fn max_markup_len() -> nat {
    (usize::MAX as nat) / 4
}

/// The `data:` URL that carries `encoded`, which is markup in base64.
pub open spec fn html_url(encoded: Seq<char>) -> Seq<char> {
    "data:text/html;base64,"@ + encoded
}

/// `base64::encode`. Trusted: the result is the standard base64 text, with
/// padding, of the bytes of `text`; it depends on nothing else. The bound on
/// the length keeps the size of the result, four bytes for every three,
/// within what can be allocated.
#[verifier::external_body]
fn base64_encode(text: &str) -> (encoded: String)
    requires
        text.spec_bytes().len() <= max_markup_len(),
    ensures
        encoded@ == base64_text(text@),
{
    base64::encode(text)
}

/// The `data:` URL that carries `encoded`, which is markup in base64.
pub fn with_prefix(encoded: &str) -> (url: String)
    ensures
        url@ == html_url(encoded@),
{
    let mut url = String::from_str("data:text/html;base64,");
    url.append(encoded);
    url
}

/// The URL under which a browser shows `markup`: the markup itself, in
/// base64, as a `data:` URL. Markup of more than a quarter of the address
/// space has none.
pub fn data_url(markup: &str) -> (url: Option<String>)
    ensures
        match url {
            Some(url) => markup.spec_bytes().len() <= max_markup_len() && url@ == html_url(
                base64_text(markup@),
            ),
            None => markup.spec_bytes().len() > max_markup_len(),
        },
{
    if markup.as_bytes().len() > usize::MAX / 4 {
        return None;
    }
    let encoded = base64_encode(markup);
    Some(with_prefix(encoded.as_str()))
}

} // verus!
