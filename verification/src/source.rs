//! The source registry: configured endpoint URLs, classified by scheme.

use vstd::prelude::*;
use vstd::string::*;
use vstd::utf8::*;
use crate::bytes::starts_with;

verus! {

/// The transport that a source speaks.
#[derive(Clone, Copy, Debug, PartialEq, Eq, Structural)]
pub enum Protocol {
    /// Ranged GET over plain HTTP or HTTPS.
    Http,
    /// The private length-prefixed binary protocol.
    Private,
    /// Ranged GET against a WebDAV server.
    Webdav,
}

/// One configured endpoint.
#[derive(Debug, PartialEq, Eq)]
pub struct Source {
    /// The position of the endpoint's URL in the configured list. It fixes
    /// the endpoint's place in the fallback order.
    pub index: usize,
    pub protocol: Protocol,
    /// What the transport is given to connect to.
    pub address: String,
}

pub struct SourceView {
    pub index: nat,
    pub protocol: Protocol,
    /// The address in UTF-8.
    pub address: Seq<u8>,
}

impl View for Source {
    type V = SourceView;

    open spec fn view(&self) -> SourceView {
        SourceView {
            index: self.index as nat,
            protocol: self.protocol,
            address: encode_utf8(self.address@),
        }
    }
}

pub open spec fn http_scheme() -> Seq<u8> {
    "http://".spec_bytes()
}

pub open spec fn https_scheme() -> Seq<u8> {
    "https://".spec_bytes()
}

pub open spec fn private_scheme() -> Seq<u8> {
    "mcpatch://".spec_bytes()
}

pub open spec fn webdav_scheme() -> Seq<u8> {
    "webdav://".spec_bytes()
}

/// The transport and address for a URL, by its scheme. The private scheme
/// is stripped from the address; the others stay. A URL with any other
/// beginning names no source.
pub open spec fn classify(url: Seq<u8>) -> Option<(Protocol, Seq<u8>)> {
    if http_scheme().is_prefix_of(url) || https_scheme().is_prefix_of(url) {
        Some((Protocol::Http, url))
    } else if private_scheme().is_prefix_of(url) {
        Some((Protocol::Private, url.subrange(private_scheme().len() as int, url.len() as int)))
    } else if webdav_scheme().is_prefix_of(url) {
        Some((Protocol::Webdav, url))
    } else {
        None
    }
}

/// The sources that a list of URLs configures: one for each URL with a known
/// scheme, in the order of the list, each with its position in the list.
pub open spec fn sources_of(urls: Seq<Seq<u8>>) -> Seq<SourceView>
    decreases urls.len(),
{
    if urls.len() == 0 {
        Seq::empty()
    } else {
        let earlier = sources_of(urls.drop_last());
        match classify(urls.last()) {
            Some((protocol, address)) => earlier.push(
                SourceView { index: (urls.len() - 1) as nat, protocol, address },
            ),
            None => earlier,
        }
    }
}

/// The URLs of a configuration in UTF-8.
pub open spec fn url_bytes(urls: Seq<String>) -> Seq<Seq<u8>> {
    urls.map_values(|url: String| encode_utf8(url@))
}

/// The views of a list of sources.
pub open spec fn source_views(sources: Seq<Source>) -> Seq<SourceView> {
    sources.map_values(|source: Source| source@)
}

/// What follows the scheme in a URL that begins with it.
fn after_scheme<'a>(url: &'a str, scheme: &str) -> (rest: &'a str)
    requires
        scheme.spec_bytes().is_prefix_of(url.spec_bytes()),
        scheme.spec_bytes().len() > 0,
        scheme.spec_bytes().last() < 128,
    ensures
        rest.spec_bytes() == url.spec_bytes().subrange(
            scheme.spec_bytes().len() as int,
            url.spec_bytes().len() as int,
        ),
{
    let ghost all = url.spec_bytes();
    let last: usize = scheme.as_bytes().len() - 1;
    proof {
        broadcast use group_utf8_lib;

        assert(valid_utf8(all));
        assert(all.subrange(0, scheme.spec_bytes().len() as int)[last as int] == all[last as int]);
        assert(!is_continuation_byte(all[last as int]));
        assert(is_char_boundary(all, last as int));
    }
    let (_, tail) = url.split_at(last);
    proof {
        broadcast use group_utf8_lib;

        let bytes = tail.spec_bytes();
        assert(bytes[0] == all[last as int]);
        assert(valid_utf8(bytes));
        assert(is_leading_byte_width_1(bytes[0]));
        assert(length_of_first_scalar(bytes) == 1);
        reveal_with_fuel(is_char_boundary, 2);
        assert(is_char_boundary(bytes, 1));
    }
    let (_, rest) = tail.split_at(1);
    assert(rest.spec_bytes() =~= all.subrange(last + 1, all.len() as int));
    rest
}

/// Classifies one URL.
pub fn source_for(index: usize, url: &String) -> (source: Option<Source>)
    ensures
        match classify(encode_utf8(url@)) {
            Some((protocol, address)) => source is Some && source->0@ == (SourceView {
                index: index as nat,
                protocol,
                address,
            }),
            None => source is None,
        },
{
    let text: &str = url.as_str();
    let bytes = text.as_bytes();
    if starts_with(bytes, "http://".as_bytes()) || starts_with(bytes, "https://".as_bytes()) {
        Some(Source { index, protocol: Protocol::Http, address: url.clone() })
    } else if starts_with(bytes, "mcpatch://".as_bytes()) {
        proof {
            broadcast use is_ascii_spec_bytes;

            reveal_strlit("mcpatch://");
            assert(is_ascii("mcpatch://"));
            assert("mcpatch://".spec_bytes().len() == 10);
            assert("mcpatch://".spec_bytes()[9] == 47);
        }
        let rest = after_scheme(text, "mcpatch://");
        Some(Source { index, protocol: Protocol::Private, address: rest.to_owned() })
    } else if starts_with(bytes, "webdav://".as_bytes()) {
        Some(Source { index, protocol: Protocol::Webdav, address: url.clone() })
    } else {
        None
    }
}

/// Builds the source list for the configured URLs. A URL with an unknown
/// scheme is passed over.
pub fn registry(urls: &Vec<String>) -> (sources: Vec<Source>)
    ensures
        source_views(sources@) == sources_of(url_bytes(urls@)),
{
    let mut sources: Vec<Source> = Vec::new();
    let mut i: usize = 0;
    while i < urls.len()
        invariant
            i <= urls.len(),
            source_views(sources@) == sources_of(url_bytes(urls@).subrange(0, i as int)),
        decreases urls.len() - i,
    {
        let ghost before = url_bytes(urls@).subrange(0, i as int);
        let ghost after = url_bytes(urls@).subrange(0, i + 1);
        let ghost held = sources@;
        assert(after.drop_last() =~= before);
        assert(after.last() == encode_utf8(urls[i as int]@));
        match source_for(i, &urls[i]) {
            Some(source) => {
                sources.push(source);
                assert(source_views(sources@) =~= source_views(held).push(source@));
            },
            None => {},
        }
        i += 1;
    }
    assert(url_bytes(urls@).subrange(0, i as int) =~= url_bytes(urls@));
    sources
}

} // verus!
