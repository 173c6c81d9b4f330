//! The decoding service: the request that asks it for a chapter's manifest,
//! the manifest it answers with, and the image URLs built from a manifest.

use crate::error::ResolveError;
use crate::json::{get_member, list_member, number_member, text_member, JsonValue};
use crate::uri::{
    component_encoding_is_query_safe, encode_uri_component, encoding_is_empty_only_for_empty,
    is_query_safe, percent_decode, percent_decode_inverts_encode, percent_encode, Escaping,
};
use vstd::prelude::*;
use vstd::string::*;
use vstd::utf8::{encode_scalar, encode_utf8};

verus! {

/// Where the decoding service listens unless the caller says otherwise.
pub const BASE_URL: &'static str = "http://localhost:8346";

/// Name of the manifest member that holds the number of pages.
pub const PAGE_TOTAL_COUNT: &'static str = "pageTotalCount";

/// Name of the manifest member that holds the page sources.
pub const PAGE_IMG_LIST: &'static str = "pageImgList";

/// Name of the manifest member that holds the key type.
pub const KEY_TYPE: &'static str = "keyType";

/// Name of the manifest member that holds the image key.
pub const IMG_KEY: &'static str = "imgKey";

/// One entry of a manifest's page list: the token of a page, or the mark that
/// the entry could not be read.
#[derive(Clone, Debug, PartialEq, Eq)]
pub enum PageSource {
    Present(String),
    Missing,
}

impl View for PageSource {
    type V = Option<Seq<char>>;

    open spec fn view(&self) -> Option<Seq<char>> {
        match self {
            PageSource::Present(token) => Some(token@),
            PageSource::Missing => None,
        }
    }
}

/// What the decoding service knows of one chapter: how many pages it has, the
/// source of each page in reading order, and the key material that all pages
/// share.
#[derive(Clone, Debug, PartialEq, Eq)]
pub struct PageListRes {
    pub page_total_count: i64,
    pub page_img_list: Vec<PageSource>,
    pub key_type: String,
    pub img_key: String,
}

/// A manifest as plain mathematics.
pub struct Manifest {
    pub page_count: int,
    pub sources: Seq<Option<Seq<char>>>,
    pub key_type: Seq<char>,
    pub img_key: Seq<char>,
}

impl Manifest {
    /// The page count is the number of sources.
    pub open spec fn well_formed(self) -> bool {
        self.sources.len() == self.page_count
    }
}

impl View for PageListRes {
    type V = Manifest;

    open spec fn view(&self) -> Manifest {
        Manifest {
            page_count: self.page_total_count as int,
            sources: self.page_img_list@.map_values(|source: PageSource| source@),
            key_type: self.key_type@,
            img_key: self.img_key@,
        }
    }
}

impl PageListRes {
    /// Whether the page count is the number of sources.
    pub fn is_well_formed(&self) -> (ok: bool)
        ensures
            ok == self@.well_formed(),
    {
        self.page_total_count >= 0 && self.page_img_list.len() as u64 == self.page_total_count as u64
    }
}

/// The token that a page source stands for: a missing one stands for the
/// empty token.
pub open spec fn token_text(source: Option<Seq<char>>) -> Seq<char> {
    match source {
        Some(token) => token,
        None => Seq::empty(),
    }
}

/// The `src` query value of a page: its token's UTF-8 bytes, percent-encoded
/// as a URI component.
pub open spec fn src_value(source: Option<Seq<char>>) -> Seq<char> {
    percent_encode(encode_utf8(token_text(source)), Escaping::Component)
}

/// The part of an image URL that carries the key material. It is the same for
/// every page of a manifest, and nothing in it is escaped.
pub open spec fn key_suffix(img_key: Seq<char>, key_type: Seq<char>) -> Seq<char> {
    "&imgKey="@ + img_key + "&keyType="@ + key_type
}

/// The URL under which the decoding service serves one page's image.
pub open spec fn image_url(
    base: Seq<char>,
    source: Option<Seq<char>>,
    img_key: Seq<char>,
    key_type: Seq<char>,
) -> Seq<char> {
    base + "/img?src="@ + src_value(source) + key_suffix(img_key, key_type)
}

/// The image URLs of a manifest: one for each source, in the order of the
/// sources.
pub open spec fn page_urls(base: Seq<char>, manifest: Manifest) -> Seq<Seq<char>> {
    Seq::new(
        manifest.sources.len(),
        |i: int| image_url(base, manifest.sources[i], manifest.img_key, manifest.key_type),
    )
}

/// The URL that asks the decoding service for the manifest of `token`.
pub open spec fn pages_url(base: Seq<char>, token: Seq<char>) -> Seq<char> {
    base + "/pages/"@ + token
}

/// Builds the URL that asks the service at `service_base` for the manifest of
/// `token`. The token goes into the path as it is.
pub fn request_url(service_base: &str, token: &str) -> (url: String)
    ensures
        url@ == pages_url(service_base@, token@),
{
    let mut url = String::from_str(service_base);
    url.append("/pages/");
    url.append(token);
    url
}

fn build_image_url(service_base: &str, source: &PageSource, img_key: &str, key_type: &str) -> (url:
    String)
    ensures
        url@ == image_url(service_base@, source@, img_key@, key_type@),
{
    let src = match source {
        PageSource::Present(token) => encode_uri_component(token.as_str()),
        PageSource::Missing => {
            proof {
                assert(encode_utf8(Seq::<char>::empty()) == Seq::<u8>::empty());
            }
            String::new()
        },
    };
    let mut url = String::from_str(service_base);
    url.append("/img?src=");
    url.append(src.as_str());
    url.append("&imgKey=");
    url.append(img_key);
    url.append("&keyType=");
    url.append(key_type);
    url
}

/// Builds the image URL of every page of `manifest`, in page order. A missing
/// source still gets its URL, with an empty `src` value.
pub fn synthesize_urls(service_base: &str, manifest: &PageListRes) -> (urls: Vec<String>)
    ensures
        urls@.len() == manifest.page_img_list@.len(),
        manifest@.well_formed() ==> urls@.len() == manifest.page_total_count,
        forall|i: int|
            0 <= i < urls@.len() ==> (#[trigger] urls@[i])@ == page_urls(
                service_base@,
                manifest@,
            )[i],
{
    let n: usize = manifest.page_img_list.len();
    let mut urls: Vec<String> = Vec::new();
    let mut i: usize = 0;
    while i < n
        invariant
            i <= n,
            n == manifest.page_img_list@.len(),
            urls@.len() == i,
            forall|j: int|
                0 <= j < i ==> (#[trigger] urls@[j])@ == page_urls(service_base@, manifest@)[j],
        decreases n - i,
    {
        let url = build_image_url(
            service_base,
            &manifest.page_img_list[i],
            manifest.img_key.as_str(),
            manifest.key_type.as_str(),
        );
        urls.push(url);
        i += 1;
    }
    urls
}

/// What came back from the request to the decoding service.
#[derive(Debug)]
pub enum ServiceReply {
    /// Nothing came back: the connection was refused or timed out.
    Unreachable,
    /// The service answered with this status, and with this body if the body
    /// was JSON at all.
    Answer { status: u16, body: Option<JsonValue> },
}

/// The page source that one element of the page list gives: its text if it
/// is a text, and the missing mark for anything else.
pub open spec fn source_of(item: JsonValue) -> Option<Seq<char>> {
    match item {
        JsonValue::Text(token) => Some(token@),
        _ => None,
    }
}

/// The manifest that a response body holds. There is one exactly if the body
/// is an object with a numeric page count, both keys as texts, and the page
/// list as an array of as many elements as the page count says. An element of
/// the page list that is no text does not spoil the manifest: it becomes a
/// missing source, in its place.
pub open spec fn manifest_of(body: JsonValue) -> Option<Manifest> {
    match body {
        JsonValue::Object(fields) => {
            let count = number_member(fields@, PAGE_TOTAL_COUNT@);
            let key_type = text_member(fields@, KEY_TYPE@);
            let img_key = text_member(fields@, IMG_KEY@);
            let items = list_member(fields@, PAGE_IMG_LIST@);
            if count is Some && key_type is Some && img_key is Some && items is Some && count->0
                == items->0.len() {
                Some(
                    Manifest {
                        page_count: count->0,
                        sources: items->0.map_values(|item: JsonValue| source_of(item)),
                        key_type: key_type->0,
                        img_key: img_key->0,
                    },
                )
            } else {
                None
            }
        },
        _ => None,
    }
}

/// What a reply amounts to: a manifest, or the kind of failure. No answer, or
/// an answer with a status other than 200, is a network error; an answer
/// whose body holds no manifest is a decode error.
pub open spec fn decoded(reply: ServiceReply) -> Result<Manifest, ResolveError> {
    match reply {
        ServiceReply::Unreachable => Err(ResolveError::NetworkError),
        ServiceReply::Answer { status, body } => {
            if status != 200 {
                Err(ResolveError::NetworkError)
            } else if body is Some && manifest_of(body->0) is Some {
                Ok(manifest_of(body->0)->0)
            } else {
                Err(ResolveError::DecodeError)
            }
        },
    }
}

fn read_source(item: &JsonValue) -> (source: PageSource)
    ensures
        source@ == source_of(*item),
{
    match item {
        JsonValue::Text(token) => PageSource::Present(token.clone()),
        _ => PageSource::Missing,
    }
}

/// Reads the manifest out of a response body. The manifest that comes out is
/// well formed; a body that holds none is a decode error.
pub fn decode_manifest(body: &JsonValue) -> (r: Result<PageListRes, ResolveError>)
    ensures
        match r {
            Ok(manifest) => manifest_of(*body) == Some(manifest@) && manifest@.well_formed(),
            Err(e) => e == ResolveError::DecodeError && manifest_of(*body) is None,
        },
{
    let fields = match body {
        JsonValue::Object(fields) => fields,
        _ => { return Err(ResolveError::DecodeError); },
    };
    let page_total_count: i64 = match get_member(fields, PAGE_TOTAL_COUNT) {
        Some(JsonValue::Number(n)) => *n,
        _ => { return Err(ResolveError::DecodeError); },
    };
    let key_type = match get_member(fields, KEY_TYPE) {
        Some(JsonValue::Text(t)) => t.clone(),
        _ => { return Err(ResolveError::DecodeError); },
    };
    let img_key = match get_member(fields, IMG_KEY) {
        Some(JsonValue::Text(t)) => t.clone(),
        _ => { return Err(ResolveError::DecodeError); },
    };
    let items = match get_member(fields, PAGE_IMG_LIST) {
        Some(JsonValue::Array(items)) => items,
        _ => { return Err(ResolveError::DecodeError); },
    };
    let n: usize = items.len();
    if page_total_count < 0 || n as u64 != page_total_count as u64 {
        return Err(ResolveError::DecodeError);
    }
    let mut page_img_list: Vec<PageSource> = Vec::new();
    let mut i: usize = 0;
    while i < n
        invariant
            i <= n,
            n == items@.len(),
            page_img_list@.len() == i,
            forall|j: int| 0 <= j < i ==> (#[trigger] page_img_list@[j])@ == source_of(items@[j]),
        decreases n - i,
    {
        page_img_list.push(read_source(&items[i]));
        i += 1;
    }
    let manifest = PageListRes { page_total_count, page_img_list, key_type, img_key };
    proof {
        assert(manifest@.sources =~= items@.map_values(|item: JsonValue| source_of(item)));
    }
    Ok(manifest)
}

/// Reads the manifest out of a reply, or says why there is none.
pub fn decode_reply(reply: &ServiceReply) -> (r: Result<PageListRes, ResolveError>)
    ensures
        match r {
            Ok(manifest) => decoded(*reply) == Ok::<Manifest, ResolveError>(manifest@)
                && manifest@.well_formed(),
            Err(e) => decoded(*reply) == Err::<Manifest, ResolveError>(e),
        },
{
    match reply {
        ServiceReply::Unreachable => Err(ResolveError::NetworkError),
        ServiceReply::Answer { status, body } => {
            if *status != 200 {
                Err(ResolveError::NetworkError)
            } else {
                match body {
                    Some(value) => decode_manifest(value),
                    None => Err(ResolveError::DecodeError),
                }
            }
        },
    }
}

/// Turns the service's reply into the chapter's image URLs, in page order:
/// the manifest is read out of the reply, and one URL is built for each of
/// its sources. Where the reply holds no manifest, the failure is returned
/// and no URL.
pub fn get_page_list(service_base: &str, reply: &ServiceReply) -> (r: Result<
    Vec<String>,
    ResolveError,
>)
    ensures
        match r {
            Ok(urls) => {
                &&& decoded(*reply) is Ok
                &&& urls@.len() == decoded(*reply)->Ok_0.page_count
                &&& forall|i: int|
                    0 <= i < urls@.len() ==> (#[trigger] urls@[i])@ == page_urls(
                        service_base@,
                        decoded(*reply)->Ok_0,
                    )[i]
            },
            Err(e) => decoded(*reply) == Err::<Manifest, ResolveError>(e),
        },
{
    match decode_reply(reply) {
        Ok(manifest) => Ok(synthesize_urls(service_base, &manifest)),
        Err(e) => Err(e),
    }
}

/// A manifest whose page count is the number of its sources gets as many
/// URLs as it counts pages, and the URL in each place is the one of the
/// source in that place.
pub proof fn urls_follow_the_sources(base: Seq<char>, manifest: Manifest)
    requires
        manifest.well_formed(),
    ensures
        page_urls(base, manifest).len() == manifest.page_count,
        forall|i: int|
            0 <= i < manifest.page_count ==> #[trigger] page_urls(base, manifest)[i] == image_url(
                base,
                manifest.sources[i],
                manifest.img_key,
                manifest.key_type,
            ),
{
}

/// Every URL of one manifest ends in the same key material: the manifest's
/// image key and key type, written as they are.
pub proof fn urls_share_the_key_material(base: Seq<char>, manifest: Manifest)
    ensures
        forall|i: int|
            0 <= i < manifest.sources.len() ==> {
                let url = #[trigger] page_urls(base, manifest)[i];
                let keys = key_suffix(manifest.img_key, manifest.key_type);
                url.len() >= keys.len() && url.subrange(url.len() - keys.len(), url.len() as int)
                    == keys
            },
{
    let keys = key_suffix(manifest.img_key, manifest.key_type);
    assert forall|i: int| 0 <= i < manifest.sources.len() implies {
        let url = #[trigger] page_urls(base, manifest)[i];
        url.len() >= keys.len() && url.subrange(url.len() - keys.len(), url.len() as int) == keys
    } by {
        let front = base + "/img?src="@ + src_value(manifest.sources[i]);
        let url = page_urls(base, manifest)[i];
        assert(url == front + keys);
        assert(url.subrange(url.len() - keys.len(), url.len() as int) == keys);
    }
}

/// Where one source of a manifest is missing and every other source is a
/// token that is not empty, the missing source's URL is the only one with an
/// empty `src` value, and every other URL is what it is in any manifest that
/// has the same keys and the same sources in the other places.
pub proof fn missing_source_empties_only_its_own_url(
    base: Seq<char>,
    manifest: Manifest,
    other: Manifest,
    gap: int,
)
    requires
        0 <= gap < manifest.sources.len(),
        manifest.sources[gap] is None,
        forall|i: int|
            0 <= i < manifest.sources.len() && i != gap ==> (#[trigger] manifest.sources[i]) is Some
                && manifest.sources[i]->0.len() > 0,
        other.sources.len() == manifest.sources.len(),
        other.img_key == manifest.img_key,
        other.key_type == manifest.key_type,
        forall|i: int|
            0 <= i < manifest.sources.len() && i != gap ==> #[trigger] other.sources[i]
                == manifest.sources[i],
    ensures
        page_urls(base, manifest).len() == manifest.sources.len(),
        src_value(manifest.sources[gap]).len() == 0,
        page_urls(base, manifest)[gap] == base + "/img?src="@ + key_suffix(
            manifest.img_key,
            manifest.key_type,
        ),
        forall|i: int|
            0 <= i < manifest.sources.len() && i != gap ==> src_value(
                #[trigger] manifest.sources[i],
            ).len() > 0,
        forall|i: int|
            0 <= i < manifest.sources.len() && i != gap ==> #[trigger] page_urls(base, manifest)[i]
                == page_urls(base, other)[i],
{
    assert(encode_utf8(Seq::<char>::empty()) == Seq::<u8>::empty());
    assert(src_value(manifest.sources[gap]) == Seq::<char>::empty());
    assert(base + "/img?src="@ + Seq::<char>::empty() == base + "/img?src="@);
    assert forall|i: int| 0 <= i < manifest.sources.len() && i != gap implies src_value(
        #[trigger] manifest.sources[i],
    ).len() > 0 by {
        let token = manifest.sources[i]->0;
        assert(token_text(manifest.sources[i]) == token);
        assert(encode_scalar(token[0] as u32).len() > 0);
        assert(encode_utf8(token).len() > 0);
        encoding_is_empty_only_for_empty(encode_utf8(token), Escaping::Component);
    }
}

/// The `src` value of a page decodes to the very bytes of the page's token,
/// whatever the token holds, and is itself made of characters that cannot
/// end or split a query value: `&`, `/`, `=` and the space never stand in it.
pub proof fn src_value_carries_the_token(source: Option<Seq<char>>)
    ensures
        percent_decode(src_value(source)) == Some(encode_utf8(token_text(source))),
        forall|i: int|
            0 <= i < src_value(source).len() ==> is_query_safe(#[trigger] src_value(source)[i]),
{
    percent_decode_inverts_encode(encode_utf8(token_text(source)), Escaping::Component);
    component_encoding_is_query_safe(encode_utf8(token_text(source)));
}

} // verus!
