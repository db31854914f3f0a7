//! Where a `CONNECT` request asks to be connected.
//!
//! Clients name the target as `host`, as `host:port`, or as a whole URI. The
//! address to dial is the target's authority, with port 443 where it names
//! none. A target that looks like a URI and does not read as one is no
//! target in this sense: the tunnel falls back on the text as it stands.

use vstd::prelude::*;
use vstd::string::*;
use vstd::utf8::*;
use crate::text::{lemma_contains_in_encoding, lemma_decode_around_ascii, occurs_in, str_contains};

verus! {

/// The address that a tunnel dials, `host:port`. It always names a port.
#[derive(Debug)]
pub struct TunnelTarget {
    address: String,
}

impl View for TunnelTarget {
    type V = Seq<char>;

    /// The address.
    closed spec fn view(&self) -> Seq<char> {
        self.address@
    }
}

/// What the target of a `CONNECT` request resolves to.
#[derive(Debug)]
pub enum Resolution {
    /// The target was an authority, `host` or `host:port`.
    Authority(TunnelTarget),
    /// The target was a URI; the address is its authority.
    Uri(TunnelTarget),
    /// The target had the looks of a URI and did not read as one with an
    /// authority. The text is the target as it came; nothing is known of it.
    Fallback(String),
}

/// A resolution as plain values.
pub enum ResolutionView {
    Authority(Seq<char>),
    Uri(Seq<char>),
    Fallback(Seq<char>),
}

impl View for Resolution {
    type V = ResolutionView;

    open spec fn view(&self) -> ResolutionView {
        match self {
            Resolution::Authority(target) => ResolutionView::Authority(target@),
            Resolution::Uri(target) => ResolutionView::Uri(target@),
            Resolution::Fallback(raw) => ResolutionView::Fallback(raw@),
        }
    }
}

/// The text that the tunnel dials.
pub open spec fn dialled(resolution: ResolutionView) -> Seq<char> {
    match resolution {
        ResolutionView::Authority(address) => address,
        ResolutionView::Uri(address) => address,
        ResolutionView::Fallback(raw) => raw,
    }
}

/// The authority of `text` read as a URI: `None` where `text` does not read
/// as a URI, or has no authority.
pub uninterp spec fn uri_authority(text: Seq<char>) -> Option<Seq<char>>;

/// The target looks like a URI: it holds `://`.
pub open spec fn looks_like_uri(raw: Seq<char>) -> bool {
    occurs_in("://"@, raw)
}

/// The `:` at index `i` of `host` sets a port off: no `]` comes after it.
/// The colons of a bracketed address, as in `[::1]`, are part of the host.
pub open spec fn is_port_delimiter(host: Seq<char>, i: int) -> bool {
    &&& 0 <= i < host.len()
    &&& host[i] == ':'
    &&& forall|k: int| i < k < host.len() ==> host[k] != ']'
}

/// `host` names a port.
pub open spec fn names_port(host: Seq<char>) -> bool {
    exists|i: int| is_port_delimiter(host, i)
}

/// `host` with the default port, 443, where it names none.
pub open spec fn with_default_port(host: Seq<char>) -> Seq<char> {
    if names_port(host) {
        host
    } else {
        host + ":443"@
    }
}

/// What `raw` resolves to, where `authority` is what `raw` has for an
/// authority when read as a URI.
pub open spec fn resolved(raw: Seq<char>, authority: Option<Seq<char>>) -> ResolutionView {
    if !looks_like_uri(raw) {
        ResolutionView::Authority(with_default_port(raw))
    } else {
        match authority {
            Some(found) => ResolutionView::Uri(with_default_port(found)),
            None => ResolutionView::Fallback(raw),
        }
    }
}

/// A text as plain characters, if there is one.
pub open spec fn text_view(text: Option<String>) -> Option<Seq<char>> {
    match text {
        Some(t) => Some(t@),
        None => None,
    }
}

/// Reads `text` as a URI and returns its authority.
///
/// Parses with `hyper::Uri` and takes `authority()` as text. The result is
/// named, not described: the same text always has the same authority, or
/// none.
#[verifier::external_body]
fn parse_authority(text: &str) -> (r: Option<String>)
    ensures
        text_view(r) == uri_authority(text@),
{
    match text.parse::<hyper::Uri>() {
        Ok(uri) => uri.authority().map(|a| a.to_string()),
        Err(_) => None,
    }
}

/// A host with `:443` after it names a port.
proof fn lemma_default_port_is_named(host: Seq<char>)
    ensures
        names_port(host + ":443"@),
{
    reveal_strlit(":443");
    let whole = host + ":443"@;
    assert(is_port_delimiter(whole, host.len() as int));
}

/// Whether `host` names a port.
pub fn has_port(host: &str) -> (r: bool)
    ensures
        r == names_port(host@),
{
    let bytes = host.as_bytes();
    let ghost text = host@;
    proof {
        encode_utf8_valid_utf8(text);
        encode_utf8_decode_utf8(text);
    }
    let mut i: usize = bytes.len();
    while i > 0
        invariant
            i <= bytes.len(),
            text == host@,
            bytes@ == encode_utf8(text),
            valid_utf8(bytes@),
            decode_utf8(bytes@) == text,
            forall|k: int| i <= k < bytes.len() ==> bytes@[k] != 0x3a && bytes@[k] != 0x5d,
        decreases i,
    {
        i -= 1;
        let b = bytes[i];
        if b == 0x5d || b == 0x3a {
            proof {
                let j = i as int;
                let n = bytes@.len() as int;
                assert(bytes@.subrange(j, j + 1) =~= seq![b]);
                lemma_decode_around_ascii(bytes@, j, 1);
                let before = decode_utf8(bytes@.subrange(0, j));
                let after = decode_utf8(bytes@.subrange(j + 1, n));
                let at = before.len() as int;
                assert(crate::text::ascii_chars(seq![b]) =~= seq![b as char]);
                assert(text == before + seq![b as char] + after);
                decode_utf8_encode_utf8(bytes@.subrange(j + 1, n));
                lemma_contains_in_encoding(0x3a, after);
                lemma_contains_in_encoding(0x5d, after);
                assert(!after.contains(':') && !after.contains(']')) by {
                    let rest = bytes@.subrange(j + 1, n);
                    if rest.contains(0x3au8) {
                        let k = choose|k: int| 0 <= k < rest.len() && rest[k] == 0x3au8;
                        assert(bytes@[j + 1 + k] == 0x3au8);
                    }
                    if rest.contains(0x5du8) {
                        let k = choose|k: int| 0 <= k < rest.len() && rest[k] == 0x5du8;
                        assert(bytes@[j + 1 + k] == 0x5du8);
                    }
                }
                assert(text[at] == b as char);
                assert forall|k: int| at < k < text.len() implies text[k] != ':' && text[k]
                    != ']' by {
                    assert(text[k] == after[k - at - 1]);
                }
                if b == 0x3a {
                    assert(is_port_delimiter(text, at));
                } else {
                    assert forall|m: int| !is_port_delimiter(text, m) by {
                        if is_port_delimiter(text, m) {
                            if m < at {
                                assert(text[at] == ']');
                            }
                            if m > at {
                                assert(text[m] == after[m - at - 1]);
                            }
                        }
                    }
                }
            }
            return b == 0x3a;
        }
    }
    proof {
        lemma_contains_in_encoding(0x3a, text);
        assert(!text.contains(':')) by {
            if bytes@.contains(0x3au8) {
                let k = choose|k: int| 0 <= k < bytes@.len() && bytes@[k] == 0x3au8;
                assert(bytes@[k] != 0x3a);
            }
        }
        assert forall|m: int| !is_port_delimiter(text, m) by {
            if is_port_delimiter(text, m) {
                assert(text.contains(text[m]));
            }
        }
    }
    false
}

impl TunnelTarget {
    #[verifier::type_invariant]
    spec fn port_is_named(&self) -> bool {
        names_port(self.address@)
    }

    /// `host` with the default port where it names none.
    pub fn from_host(host: &str) -> (target: TunnelTarget)
        ensures
            target@ == with_default_port(host@),
    {
        let mut address = String::from_str(host);
        if !has_port(host) {
            address.append(":443");
            proof {
                lemma_default_port_is_named(host@);
            }
        }
        TunnelTarget { address }
    }

    /// The address to dial. It names a port.
    pub fn address(&self) -> (address: &str)
        ensures
            address@ == self@,
            names_port(address@),
    {
        proof {
            use_type_invariant(self);
        }
        self.address.as_str()
    }
}

impl Resolution {
    /// The text that the tunnel dials: the address of the target, or on a
    /// fallback the text as it came.
    pub fn dial_address(&self) -> (address: &str)
        ensures
            address@ == dialled(self@),
            !(self is Fallback) ==> names_port(address@),
    {
        match self {
            Resolution::Authority(target) => target.address(),
            Resolution::Uri(target) => target.address(),
            Resolution::Fallback(raw) => raw.as_str(),
        }
    }
}

/// Whether the target holds `://`.
pub fn has_scheme_separator(raw: &str) -> (r: bool)
    ensures
        r == looks_like_uri(raw@),
{
    proof {
        reveal_strlit("://");
    }
    str_contains(raw, "://")
}

/// Resolves a target whose authority, read as a URI, is `authority`.
pub fn resolve_with(raw: &str, authority: Option<String>) -> (resolution: Resolution)
    ensures
        resolution@ == resolved(raw@, text_view(authority)),
{
    if !has_scheme_separator(raw) {
        Resolution::Authority(TunnelTarget::from_host(raw))
    } else {
        match authority {
            Some(found) => Resolution::Uri(TunnelTarget::from_host(found.as_str())),
            None => Resolution::Fallback(String::from_str(raw)),
        }
    }
}

/// Resolves the target of a `CONNECT` request to the address to dial.
pub fn resolve(raw: &str) -> (resolution: Resolution)
    ensures
        resolution@ == resolved(raw@, uri_authority(raw@)),
{
    if has_scheme_separator(raw) {
        let authority = parse_authority(raw);
        resolve_with(raw, authority)
    } else {
        resolve_with(raw, None)
    }
}

/// Whatever the target, an address found from an authority names a port:
/// its own, or the default one.
pub proof fn resolved_names_a_port(raw: Seq<char>, authority: Option<Seq<char>>)
    ensures
        resolved(raw, authority) matches ResolutionView::Authority(address) ==> names_port(
            address,
        ),
        resolved(raw, authority) matches ResolutionView::Uri(address) ==> names_port(address),
{
    lemma_default_port_is_named(raw);
    if let Some(found) = authority {
        lemma_default_port_is_named(found);
    }
}

/// The default port is given to the hosts that name none, and to no other:
/// a host that names a port is kept as it is.
pub proof fn default_port_where_none_is_named(host: Seq<char>)
    ensures
        names_port(host) ==> with_default_port(host) == host,
        !names_port(host) ==> with_default_port(host) == host + ":443"@,
        !host.contains(':') ==> !names_port(host),
{
    if !host.contains(':') && names_port(host) {
        let i = choose|i: int| is_port_delimiter(host, i);
        assert(host.contains(host[i]));
    }
}

/// The tunnel falls back on the text as it came just when the target looks
/// like a URI and has no authority to read.
pub proof fn fallback_keeps_the_target(raw: Seq<char>, authority: Option<Seq<char>>)
    ensures
        resolved(raw, authority) is Fallback <==> looks_like_uri(raw) && authority is None,
        resolved(raw, authority) is Fallback ==> dialled(resolved(raw, authority)) == raw,
{
}

} // verus!
