//! The ColaManga source: what a reading application needs from the site,
//! worked out from plain values. The heart of it is the page list of a
//! chapter: the token hidden in the chapter's markup, the manifest that the
//! decoding service answers with, and the image URLs built from the
//! manifest.

use crate::text::same_text;
use vstd::prelude::*;
use vstd::string::*;

pub mod api;
pub mod error;
pub mod json;
pub mod parser;
pub mod text;
pub mod token;
pub mod uri;

verus! {

/// The site's root address.
pub const BASE_URL: &'static str = "https://www.colamanga.com";

/// The name of the header that tells the site where a request comes from.
pub const REFERER: &'static str = "Referer";

/// The address of a title's page on the site.
pub open spec fn manga_page(id: Seq<char>) -> Seq<char> {
    BASE_URL@ + "/manga-"@ + id + "/"@
}

/// The address of a chapter's page on the site.
pub open spec fn chapter_page(manga_id: Seq<char>, chapter_id: Seq<char>) -> Seq<char> {
    BASE_URL@ + "/manga-"@ + manga_id + "/"@ + chapter_id + ".html"@
}

/// Builds the address of the page of the title `id`.
pub fn manga_url(id: &str) -> (url: String)
    ensures
        url@ == manga_page(id@),
{
    let mut url = String::from_str(BASE_URL);
    url.append("/manga-");
    url.append(id);
    url.append("/");
    url
}

/// Builds the address of the page of chapter `chapter_id` of the title
/// `manga_id`.
pub fn chapter_url(manga_id: &str, chapter_id: &str) -> (url: String)
    ensures
        url@ == chapter_page(manga_id@, chapter_id@),
{
    let mut url = String::from_str(BASE_URL);
    url.append("/manga-");
    url.append(manga_id);
    url.append("/");
    url.append(chapter_id);
    url.append(".html");
    url
}

/// One header of a request.
#[derive(Clone, Debug, PartialEq, Eq)]
pub struct Header {
    pub name: String,
    pub value: String,
}

impl View for Header {
    type V = (Seq<char>, Seq<char>);

    open spec fn view(&self) -> (Seq<char>, Seq<char>) {
        (self.name@, self.value@)
    }
}

/// A request for an image, as far as this library has a say in it: where it
/// goes, and the headers it carries.
#[derive(Clone, Debug, PartialEq, Eq)]
pub struct ImageRequest {
    pub url: String,
    pub headers: Vec<Header>,
}

/// The headers of `headers` that are not called `name`, in their order.
pub open spec fn headers_but(headers: Seq<Header>, name: Seq<char>) -> Seq<(Seq<char>, Seq<char>)>
    decreases headers.len(),
{
    if headers.len() == 0 {
        Seq::empty()
    } else if headers.last().name@ == name {
        headers_but(headers.drop_last(), name)
    } else {
        headers_but(headers.drop_last(), name).push(headers.last()@)
    }
}

/// The views of a list of headers.
pub open spec fn header_views(headers: Seq<Header>) -> Seq<(Seq<char>, Seq<char>)> {
    headers.map_values(|h: Header| h@)
}

/// Makes the request name the site's root as its referrer, whatever host the
/// request goes to: the site serves an image only to a request that does.
/// A referrer that the request already names is replaced; the other headers
/// and the target stay as they are.
pub fn modify_image_request(request: &mut ImageRequest)
    ensures
        final(request).url@ == old(request).url@,
        header_views(final(request).headers@) == headers_but(old(request).headers@, REFERER@).push(
            (REFERER@, BASE_URL@),
        ),
{
    let n: usize = request.headers.len();
    let mut kept: Vec<Header> = Vec::new();
    let mut i: usize = 0;
    while i < n
        invariant
            i <= n,
            n == request.headers@.len(),
            *request == *old(request),
            header_views(kept@) == headers_but(request.headers@.take(i as int), REFERER@),
        decreases n - i,
    {
        proof {
            let next = request.headers@.take(i + 1);
            assert(next.drop_last() == request.headers@.take(i as int));
            assert(next.last() == request.headers@[i as int]);
        }
        if !same_text(request.headers[i].name.as_str(), REFERER) {
            let header = Header {
                name: request.headers[i].name.clone(),
                value: request.headers[i].value.clone(),
            };
            proof {
                assert(header_views(kept@.push(header)) == header_views(kept@).push(header@));
            }
            kept.push(header);
        }
        i += 1;
    }
    let referer = Header { name: String::from_str(REFERER), value: String::from_str(BASE_URL) };
    proof {
        assert(request.headers@.take(n as int) == request.headers@);
        assert(header_views(kept@.push(referer)) == header_views(kept@).push(referer@));
    }
    kept.push(referer);
    request.headers = kept;
}

} // verus!
