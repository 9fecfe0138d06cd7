use vstd::prelude::*;

verus! {

/// The host and explicit port of a parsed URL.
pub struct UrlParts {
    pub host: Option<String>,
    pub port: Option<u16>,
}

/// What the url crate's `Url::parse` yields for `s`: the URL's `host_str()` and `port()`, or
/// the message of its parse error.
pub uninterp spec fn url_parse(s: Seq<char>) -> Result<(Option<Seq<char>>, Option<u16>), Seq<char>>;

/// The url crate's `Url::parse`, read out as `host_str()` and `port()` (the port only where
/// the URL names one that is not its scheme's default); a parse error becomes its message.
/// WHATWG URL parsing takes pages to state, so the result is named by `url_parse`.
#[verifier::external_body]
pub(crate) fn parse_url(s: &str) -> (res: Result<UrlParts, String>)
    ensures
        match res {
            Ok(u) => url_parse(s@) == Ok::<(Option<Seq<char>>, Option<u16>), Seq<char>>(
                (
                    match u.host {
                        Some(h) => Some(h@),
                        None => None,
                    },
                    u.port,
                ),
            ),
            Err(e) => url_parse(s@) == Err::<(Option<Seq<char>>, Option<u16>), Seq<char>>(e@),
        },
{
    match url::Url::parse(s) {
        Ok(u) => Ok(UrlParts { host: u.host_str().map(|h| h.to_string()), port: u.port() }),
        Err(e) => Err(e.to_string()),
    }
}

/// Bytes that percent-encoding keeps: ASCII letters and digits, `-`, `.`, `_`, `~`.
pub open spec fn url_safe(b: u8) -> bool {
    (48 <= b <= 57) || (65 <= b <= 90) || (97 <= b <= 122) || b == 45 || b == 46 || b == 95
        || b == 126
}

/// An upper-case hexadecimal digit.
pub open spec fn hex_digit(d: int) -> char {
    if d < 10 {
        (48 + d) as char
    } else {
        (55 + d) as char
    }
}

/// The percent-encoding of bytes: a kept byte as its character, any other as `%` and two
/// upper-case hexadecimal digits.
pub open spec fn percent_encoded(bytes: Seq<u8>) -> Seq<char>
    decreases bytes.len(),
{
    if bytes.len() == 0 {
        Seq::empty()
    } else {
        let b = bytes.last();
        percent_encoded(bytes.drop_last()) + if url_safe(b) {
            seq![b as char]
        } else {
            seq!['%', hex_digit(b as int / 16), hex_digit(b as int % 16)]
        }
    }
}

/// urlencoding's `encode`: "Percent-encodes every byte except alphanumerics and `-`, `_`,
/// `.`, `~`", over the UTF-8 bytes of `s`, with upper-case hexadecimal digits (its
/// `to_hex_digit`).
#[verifier::external_body]
pub(crate) fn url_encode(s: &str) -> (res: String)
    ensures
        res@ == percent_encoded(vstd::utf8::encode_utf8(s@)),
{
    urlencoding::encode(s).into_owned()
}

} // verus!
