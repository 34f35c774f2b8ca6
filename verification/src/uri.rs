//! The request-URI model: scheme, host, optional port, and the rest of
//! the URI verbatim; parsing from a string, and port resolution.
//!
//! Parsing accepts absolute URIs of the shape
//! `scheme://host[:port][/path...]`, with a bracketed host for IPv6
//! literals.  A missing scheme in a directly constructed value is an
//! empty string, which has no well-known port.

use vstd::prelude::*;
use vstd::string::*;
use crate::text::{
    all_digits, digits_val, spec_find_char, spec_rfind_char, lemma_find_char, lemma_rfind_char,
    find_char, rfind_char, parse_port, str_eq,
};

verus! {

/// What a URI means to the mediator: its routable components, and the
/// path-and-query remainder carried through untouched.
#[verifier::ext_equal]
pub ghost struct UriModel {
    pub scheme: Seq<char>,
    pub host: Seq<char>,
    pub port: Option<u16>,
    pub path_and_query: Seq<char>,
}

/// An absolute request URI, taken apart.
#[derive(Debug)]
pub struct Uri {
    /// The scheme, or empty when none was given.
    pub scheme: String,
    /// The host, without brackets for an IPv6 literal.
    pub host: String,
    /// The explicit port, if one was written.
    pub port: Option<u16>,
    /// Everything after the authority, verbatim; possibly empty.
    pub path_and_query: String,
}

impl View for Uri {
    type V = UriModel;

    open spec fn view(&self) -> UriModel {
        UriModel {
            scheme: self.scheme@,
            host: self.host@,
            port: self.port,
            path_and_query: self.path_and_query@,
        }
    }
}

/// Where the authority component ends: at the first `/` or `?`, or at
/// the end of the string.
pub open spec fn spec_authority_end(s: Seq<char>) -> int {
    match (spec_find_char(s, '/'), spec_find_char(s, '?')) {
        (Some(x), Some(y)) => if x <= y {
            x
        } else {
            y
        },
        (Some(x), None) => x,
        (None, Some(y)) => y,
        (None, None) => s.len() as int,
    }
}

/// A valid port string: nonempty decimal digits denoting at most 65535.
pub open spec fn is_port_digits(s: Seq<char>) -> bool {
    s.len() > 0 && all_digits(s) && digits_val(s) <= 65535
}

/// The host and explicit port an authority denotes, or `None` when the
/// authority is malformed.  A bracketed host may be followed by `:port`;
/// an unbracketed one holds no colon, except the one cutting off a valid
/// port.
pub open spec fn spec_parse_authority(a: Seq<char>) -> Option<(Seq<char>, Option<u16>)> {
    if a.len() == 0 {
        None
    } else if a[0] == '[' {
        match spec_find_char(a, ']') {
            None => None,
            Some(k) => if k < 2 {
                None
            } else {
                let host = a.subrange(1, k);
                let after = a.skip(k + 1);
                if after.len() == 0 {
                    Some((host, None))
                } else if after[0] == ':' && is_port_digits(after.skip(1)) {
                    Some((host, Some(digits_val(after.skip(1)) as u16)))
                } else {
                    None
                }
            },
        }
    } else {
        match spec_rfind_char(a, ':') {
            None => Some((a, None)),
            Some(k) => {
                let host = a.take(k);
                let p = a.skip(k + 1);
                if k > 0 && spec_find_char(host, ':') is None && is_port_digits(p) {
                    Some((host, Some(digits_val(p) as u16)))
                } else {
                    None
                }
            },
        }
    }
}

/// The model an absolute URI string denotes, or `None` when it is not
/// one: a nonempty scheme up to the first colon, `//`, an authority, and
/// the rest verbatim.
pub open spec fn spec_parse_uri(s: Seq<char>) -> Option<UriModel> {
    match spec_find_char(s, ':') {
        None => None,
        Some(i) => if !(i >= 1 && i + 3 <= s.len() && s[i + 1] == '/' && s[i + 2] == '/') {
            None
        } else {
            let scheme = s.take(i);
            let rest = s.skip(i + 3);
            let j = spec_authority_end(rest);
            match spec_parse_authority(rest.take(j)) {
                None => None,
                Some((host, port)) => Some(
                    UriModel { scheme, host, port, path_and_query: rest.skip(j) },
                ),
            }
        },
    }
}

/// Parses an absolute URI.
pub fn parse_uri(s: &str) -> (r: Option<Uri>)
    ensures
        r matches Some(u) ==> spec_parse_uri(s@) == Some(u@),
        r is None ==> spec_parse_uri(s@) is None,
{
    proof {
        lemma_find_char(s@, ':');
    }
    let len = s.unicode_len();
    let i = match find_char(s, ':') {
        None => {
            return None;
        },
        Some(i) => i,
    };
    if i == 0 || len - i < 3 {
        return None;
    }
    if s.get_char(i + 1) != '/' || s.get_char(i + 2) != '/' {
        return None;
    }
    let scheme = s.substring_char(0, i);
    let rest = s.substring_char(i + 3, len);
    proof {
        assert(scheme@ =~= s@.take(i as int));
        assert(rest@ =~= s@.skip(i + 3));
        lemma_find_char(rest@, '/');
        lemma_find_char(rest@, '?');
    }
    let rlen = rest.unicode_len();
    let j: usize = match (find_char(rest, '/'), find_char(rest, '?')) {
        (Some(x), Some(y)) => if x <= y {
            x
        } else {
            y
        },
        (Some(x), None) => x,
        (None, Some(y)) => y,
        (None, None) => rlen,
    };
    assert(j as int == spec_authority_end(rest@));
    let auth = rest.substring_char(0, j);
    let pq = rest.substring_char(j, rlen);
    proof {
        assert(auth@ =~= rest@.take(j as int));
        assert(pq@ =~= rest@.skip(j as int));
    }
    let alen = auth.unicode_len();
    if alen == 0 {
        return None;
    }
    let (host, port): (String, Option<u16>) = if auth.get_char(0) == '[' {
        proof {
            lemma_find_char(auth@, ']');
        }
        let k = match find_char(auth, ']') {
            None => {
                return None;
            },
            Some(k) => k,
        };
        if k < 2 {
            return None;
        }
        let host = auth.substring_char(1, k);
        assert(host@ =~= auth@.subrange(1, k as int));
        if k + 1 == alen {
            assert(auth@.skip(k + 1).len() == 0);
            (host.to_owned(), None)
        } else {
            assert(auth@.skip(k + 1).len() > 0);
            assert(auth@.skip(k + 1)[0] == auth@[k + 1]);
            if auth.get_char(k + 1) != ':' {
                return None;
            }
            let ps = auth.substring_char(k + 2, alen);
            assert(ps@ =~= auth@.skip(k + 1).skip(1));
            match parse_port(ps) {
                None => {
                    return None;
                },
                Some(p) => (host.to_owned(), Some(p)),
            }
        }
    } else {
        proof {
            lemma_rfind_char(auth@, ':');
        }
        match rfind_char(auth, ':') {
            None => (auth.to_owned(), None),
            Some(k) => {
                let host = auth.substring_char(0, k);
                assert(host@ =~= auth@.take(k as int));
                let ps = auth.substring_char(k + 1, alen);
                assert(ps@ =~= auth@.skip(k + 1));
                proof {
                    lemma_find_char(host@, ':');
                }
                if k == 0 || find_char(host, ':').is_some() {
                    return None;
                }
                match parse_port(ps) {
                    None => {
                        return None;
                    },
                    Some(p) => (host.to_owned(), Some(p)),
                }
            },
        }
    };
    let u = Uri { scheme: scheme.to_owned(), host, port, path_and_query: pq.to_owned() };
    assert(spec_parse_uri(s@) == Some(u@)) by {
        assert(spec_parse_authority(auth@) == Some((u@.host, u@.port)));
        assert(spec_parse_uri(s@)->Some_0 =~= u@);
    }
    Some(u)
}

/// The well-known port of a scheme: 80 for `http`, 443 for `https`,
/// nothing else — a missing scheme included.
pub open spec fn spec_default_port(scheme: Seq<char>) -> Option<u16> {
    if scheme == "http"@ {
        Some(80u16)
    } else if scheme == "https"@ {
        Some(443u16)
    } else {
        None
    }
}

/// The port a request actually addresses: the explicit port when one was
/// written, else the scheme's well-known default, else nothing.
pub open spec fn spec_resolved_port(u: UriModel) -> Option<u16> {
    match u.port {
        Some(p) => Some(p),
        None => spec_default_port(u.scheme),
    }
}

/// Resolves the port a request addresses.
pub fn resolved_port(u: &Uri) -> (r: Option<u16>)
    ensures
        r == spec_resolved_port(u@),
{
    match u.port {
        Some(p) => Some(p),
        None => {
            if str_eq(u.scheme.as_str(), "http") {
                Some(80)
            } else if str_eq(u.scheme.as_str(), "https") {
                Some(443)
            } else {
                None
            }
        },
    }
}

} // verus!
