//! The tunnel that makes a local port reachable from outside.

use vstd::prelude::*;

use crate::camera::cli::words;
use crate::pattern::{first_address, first_captures, group_texts, tunnel_address};
use crate::text::{decimal, decimal_string, joined, same_text};

verus! {

/// The program that runs the tunnel.
pub const PROGRAM: &'static str = "cloudflared";

/// How a missing program reads.
pub const PROGRAM_MISSING: &'static str =
    "`cloudflared` is required. Install: https://developers.cloudflare.com/cloudflare-one/connections/connect-apps/install-and-setup/installation";

/// How a missing address reads.
pub const ADDRESS_MISSING: &'static str = "Failed to extract TryCloudflare URL.";

/// A tunnel that is open.
#[derive(Debug)]
pub struct Tunnel {
    pub public_url: String,
}

/// Whether a wish for a protocol is granted.
pub open spec fn known_protocol(wish: Seq<char>) -> bool {
    wish == "https"@ || wish == "quic"@ || wish == "http2"@
}

/// The protocol for a wish: the wish itself where it is granted, and `https`
/// otherwise.
pub open spec fn protocol_for(wish: Seq<char>) -> Seq<char> {
    if known_protocol(wish) {
        wish
    } else {
        "https"@
    }
}

/// The arguments with which the program opens a tunnel.
pub open spec fn tunnel_words(local_port: u16, wish: Seq<char>) -> Seq<Seq<char>> {
    seq![
        "tunnel"@,
        "--protocol"@,
        protocol_for(wish),
        "--url"@,
        "http://127.0.0.1:"@ + decimal(local_port as nat),
    ]
}

/// Whether `url` is the first tunnel address of a line; `None` where the line
/// holds none.
pub open spec fn address_of(line: Seq<char>, url: Option<Seq<char>>) -> bool {
    match url {
        None => forall|from: int, to: int| !tunnel_address(line, from, to),
        Some(found) => exists|from: int, to: int|
            {
                &&& #[trigger] tunnel_address(line, from, to)
                &&& forall|f: int, t: int| #[trigger] tunnel_address(line, f, t) ==> from <= f
                &&& found == line.subrange(from, to)
            },
    }
}

impl Tunnel {
    /// An error where the program is missing.
    pub fn ensure_cloudflared(found: bool) -> (r: Result<(), &'static str>)
        ensures
            r is Ok <==> found,
            r matches Err(text) ==> text@ == PROGRAM_MISSING@,
    {
        if found {
            Ok(())
        } else {
            Err(PROGRAM_MISSING)
        }
    }

    /// Whether a wish for a protocol is granted.
    pub fn is_known_protocol(protocol: &str) -> (r: bool)
        ensures
            r == known_protocol(protocol@),
    {
        same_text(protocol, "https") || same_text(protocol, "quic") || same_text(protocol, "http2")
    }

    /// https / quic / http2, default: https
    pub fn set_protocol(protocol: &str) -> (r: &'static str)
        ensures
            r@ == protocol_for(protocol@),
    {
        if same_text(protocol, "quic") {
            "quic"
        } else if same_text(protocol, "http2") {
            "http2"
        } else {
            "https"
        }
    }

    /// The arguments with which the program opens a tunnel.
    pub fn arguments(local_port: u16, protocol: &str) -> (r: Vec<String>)
        ensures
            words(r@) == tunnel_words(local_port, protocol@),
    {
        let port = decimal_string(local_port as u128);
        let r = vec![
            "tunnel".to_string(),
            "--protocol".to_string(),
            Self::set_protocol(protocol).to_string(),
            "--url".to_string(),
            joined("http://127.0.0.1:", &port),
        ];
        assert(words(r@) =~= tunnel_words(local_port, protocol@));
        r
    }

    /// The tunnel's address in a line that the program writes: the first one, if
    /// there is any.
    pub fn address_in(line: &str) -> (r: Option<String>)
        ensures
            address_of(
                line@,
                match r {
                    Some(url) => Some(url@),
                    None => None,
                },
            ),
    {
        match first_captures("https://[a-zA-Z0-9-]+\\.trycloudflare\\.com", line) {
            Ok(Some(groups)) => {
                let ghost texts = group_texts(groups@);
                assert(first_address(line@, Some(texts)));
                let ghost (from, to) = choose|from: int, to: int|
                    {
                        &&& #[trigger] tunnel_address(line@, from, to)
                        &&& forall|f: int, t: int|
                            #[trigger] tunnel_address(line@, f, t) ==> from <= f
                        &&& texts == seq![Some(line@.subrange(from, to))]
                    };
                assert(texts.len() == 1);
                assert(texts[0] == Some(line@.subrange(from, to)));
                assert(groups@[0] is Some);
                match &groups[0] {
                    Some(url) => Some(url.clone()),
                    None => None,
                }
            },
            _ => None,
        }
    }

    /// The tunnel, once the program was read until its address came or it ended.
    pub fn opened(address: Option<String>) -> (r: Result<Tunnel, &'static str>)
        ensures
            r is Ok <==> (address matches Some(url) && url@.len() > 0),
            match r {
                Ok(tunnel) => address == Some(tunnel.public_url),
                Err(text) => text@ == ADDRESS_MISSING@,
            },
    {
        match address {
            Some(public_url) => if public_url.as_str().is_empty() {
                Err(ADDRESS_MISSING)
            } else {
                Ok(Tunnel { public_url })
            },
            None => Err(ADDRESS_MISSING),
        }
    }
}

/// An address that was found in a line opens the tunnel: it is not empty.
pub proof fn found_addresses_are_not_empty(line: Seq<char>, url: Seq<char>)
    requires
        address_of(line, Some(url)),
    ensures
        url.len() > 0,
        "https://"@.is_prefix_of(url),
{
    let (from, to) = choose|from: int, to: int|
        {
            &&& #[trigger] tunnel_address(line, from, to)
            &&& forall|f: int, t: int| #[trigger] tunnel_address(line, f, t) ==> from <= f
            &&& url == line.subrange(from, to)
        };
    assert(url.subrange(0, "https://"@.len() as int) =~= line.subrange(
        from,
        from + "https://"@.len(),
    ));
}

} // verus!
