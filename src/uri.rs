use vstd::prelude::*;

use hyper::http::uri::InvalidUri;

verus! {

/// What parsing `s` as a URI gives: `None` when it is rejected, otherwise its
/// scheme, host and port, each of which may be absent.
pub uninterp spec fn uri_parts_of(s: Seq<char>) -> Option<(Option<Seq<char>>, Option<Seq<char>>, Option<u16>)>;

/// The components of a parsed URI that the load balancer reads.
pub struct UriParts {
    pub scheme: Option<String>,
    pub host: Option<String>,
    pub port: Option<u16>,
}

pub open spec fn opt_str_view(o: Option<String>) -> Option<Seq<char>> {
    match o {
        Some(s) => Some(s@),
        None => None,
    }
}

impl UriParts {
    pub open spec fn parts(&self) -> (Option<Seq<char>>, Option<Seq<char>>, Option<u16>) {
        (opt_str_view(self.scheme), opt_str_view(self.host), self.port)
    }
}

/// Relies on `http::Uri`'s `FromStr` (re-exported by hyper) to parse `s`, and on
/// `Uri::scheme_str`, `Uri::host` and `Uri::port_u16` to read the parts back.
#[verifier::external_body]
pub(crate) fn parse_uri(s: &str) -> (r: Result<UriParts, InvalidUri>)
    ensures
        match r {
            Ok(p) => uri_parts_of(s@) == Some(p.parts()),
            Err(_) => uri_parts_of(s@) is None,
        },
{
    match <hyper::Uri as std::str::FromStr>::from_str(s) {
        Ok(uri) => Ok(UriParts {
            scheme: uri.scheme_str().map(String::from),
            host: uri.host().map(String::from),
            port: uri.port_u16(),
        }),
        Err(e) => Err(e),
    }
}

pub open spec fn digit_char(d: nat) -> char {
    if d == 0 { '0' }
    else if d == 1 { '1' }
    else if d == 2 { '2' }
    else if d == 3 { '3' }
    else if d == 4 { '4' }
    else if d == 5 { '5' }
    else if d == 6 { '6' }
    else if d == 7 { '7' }
    else if d == 8 { '8' }
    else { '9' }
}

/// The decimal digits of `n`, most significant first, without leading zeros.
pub open spec fn decimal(n: nat) -> Seq<char>
    decreases n,
{
    if n < 10 {
        seq![digit_char(n)]
    } else {
        decimal(n / 10) + seq![digit_char(n % 10)]
    }
}

fn digit_str(d: u16) -> (r: &'static str)
    requires
        d < 10,
    ensures
        r@ == seq![digit_char(d as nat)],
{
    proof {
        reveal_strlit("0");
        reveal_strlit("1");
        reveal_strlit("2");
        reveal_strlit("3");
        reveal_strlit("4");
        reveal_strlit("5");
        reveal_strlit("6");
        reveal_strlit("7");
        reveal_strlit("8");
        reveal_strlit("9");
    }
    if d == 0 { "0" }
    else if d == 1 { "1" }
    else if d == 2 { "2" }
    else if d == 3 { "3" }
    else if d == 4 { "4" }
    else if d == 5 { "5" }
    else if d == 6 { "6" }
    else if d == 7 { "7" }
    else if d == 8 { "8" }
    else { "9" }
}

/// Writes `n` in decimal.
pub fn decimal_string(n: u16) -> (r: String)
    ensures
        r@ == decimal(n as nat),
    decreases n,
{
    if n < 10 {
        String::from_str(digit_str(n))
    } else {
        let prefix = decimal_string(n / 10);
        prefix.concat(digit_str(n % 10))
    }
}

} // verus!
