//! What is made of the site's pages: the request and the page list of a
//! chapter, the entries of a catalogue page, the details of a title, its
//! chapters, and the URL of a catalogue query.

use crate::api::{self, decoded, page_urls, pages_url, Manifest, ServiceReply};
use crate::error::ResolveError;
use crate::json::{get_member, number_member, JsonValue};
use crate::text::{
    contains, contains_text, decimal, decimal_text, lowercase, remove_all, same_text, split,
    split_text, views, without,
};
use crate::token::{extract_token, token_in};
use crate::uri::{encode_uri, percent_encode, Escaping};
use crate::{manga_page, manga_url, BASE_URL};
use vstd::prelude::*;
use vstd::string::*;
use vstd::utf8::encode_utf8;

verus! {

/// One page of a chapter: its place in reading order, counted from zero, and
/// the URL of its image.
#[derive(Clone, Debug, PartialEq, Eq)]
pub struct ResolvedPage {
    pub index: usize,
    pub url: String,
}

/// First half of resolving a chapter: from the chapter page's markup to the
/// URL that asks the decoding service for the manifest. Where the markup
/// holds no token the answer is the parse error, and there is no URL to
/// fetch.
pub fn plan_request(service_base: &str, markup: &str) -> (r: Result<String, ResolveError>)
    ensures
        match r {
            Ok(url) => token_in(markup@) is Ok && url@ == pages_url(
                service_base@,
                token_in(markup@)->Ok_0,
            ),
            Err(e) => e == ResolveError::ParseError && token_in(markup@) == Err::<
                Seq<char>,
                ResolveError,
            >(e),
        },
{
    match extract_token(markup) {
        Ok(token) => Ok(api::request_url(service_base, token.as_str())),
        Err(e) => Err(e),
    }
}

/// Whether `r` is what the reply `reply` of the service at `base` resolves
/// to: the pages of the reply's manifest, numbered in its order, or the
/// reply's failure.
pub open spec fn resolves_to(
    r: Result<Vec<ResolvedPage>, ResolveError>,
    base: Seq<char>,
    reply: ServiceReply,
) -> bool {
    match r {
        Ok(pages) => {
            &&& decoded(reply) is Ok
            &&& pages@.len() == decoded(reply)->Ok_0.page_count
            &&& forall|i: int|
                0 <= i < pages@.len() ==> (#[trigger] pages@[i]).index == i && pages@[i].url@
                    == page_urls(base, decoded(reply)->Ok_0)[i]
        },
        Err(e) => decoded(reply) == Err::<Manifest, ResolveError>(e),
    }
}

/// Second half of resolving a chapter: from the service's reply to the
/// chapter's pages. There is one page for each source of the manifest, in the
/// manifest's order, numbered from zero without gaps. A reply that holds no
/// manifest gives its failure and no page.
pub fn get_page_list(service_base: &str, reply: &ServiceReply) -> (r: Result<
    Vec<ResolvedPage>,
    ResolveError,
>)
    ensures
        resolves_to(r, service_base@, *reply),
{
    let urls = match api::get_page_list(service_base, reply) {
        Ok(urls) => urls,
        Err(e) => { return Err(e); },
    };
    let n: usize = urls.len();
    let mut pages: Vec<ResolvedPage> = Vec::new();
    let mut i: usize = 0;
    while i < n
        invariant
            i <= n,
            n == urls@.len(),
            pages@.len() == i,
            forall|j: int|
                0 <= j < i ==> (#[trigger] pages@[j]).index == j && pages@[j].url@ == urls@[j]@,
        decreases n - i,
    {
        pages.push(ResolvedPage { index: i, url: urls[i].clone() });
        i += 1;
    }
    Ok(pages)
}

/// Resolves a chapter's pages from the chapter page's markup, with `fetch`
/// standing for the one round trip to the decoding service. Markup without a
/// token is a parse error, and `fetch` is not called. Else `fetch` is called
/// once, with the URL that asks for the token's manifest, and the result is
/// what its reply resolves to.
pub fn resolve_page_list<F: FnOnce(&str) -> ServiceReply>(
    service_base: &str,
    markup: &str,
    fetch: F,
) -> (r: Result<Vec<ResolvedPage>, ResolveError>)
    requires
        forall|url: &str| call_requires(fetch, (url,)),
    ensures
        token_in(markup@) is Err ==> r == Err::<Vec<ResolvedPage>, ResolveError>(
            ResolveError::ParseError,
        ),
        token_in(markup@) is Ok ==> exists|url: &str, reply: ServiceReply|
            url@ == pages_url(service_base@, token_in(markup@)->Ok_0) && call_ensures(
                fetch,
                (url,),
                reply,
            ) && resolves_to(r, service_base@, reply),
{
    let url = match plan_request(service_base, markup) {
        Ok(url) => url,
        Err(e) => { return Err(e); },
    };
    let request = url.as_str();
    let reply = fetch(request);
    let r = get_page_list(service_base, &reply);
    proof {
        assert(request@ == pages_url(service_base@, token_in(markup@)->Ok_0) && call_ensures(
            fetch,
            (request,),
            reply,
        ) && resolves_to(r, service_base@, reply));
    }
    r
}

/// The category codes that the genre filter chooses from, by position. The
/// first stands for no restriction.
pub const FILTER_GENRE: [&'static str; 20] = [
    "all",
    "10023",
    "10024",
    "10126",
    "10210",
    "10143",
    "10124",
    "10129",
    "10242",
    "10560",
    "10122",
    "10641",
    "10309",
    "10461",
    "11224",
    "10201",
    "10943",
    "10138",
    "10321",
    "10301",
];

/// The status codes that the progress filter chooses from, by position. The
/// first stands for no restriction.
pub const FILTER_PROGRESS: [&'static str; 3] = ["all", "1", "2"];

/// The orderings that the sort filter chooses from, by position.
pub const SORT: [&'static str; 4] = ["weeklyCount", "dailyCount", "monthlyCount", "update"];

/// The name under which the host sends the genre filter.
pub const GENRE_FILTER: &'static str = "剧情";

/// The name under which the host sends the progress filter.
pub const PROGRESS_FILTER: &'static str = "进度";

/// The member of a sort filter's value that holds the chosen position.
pub const SORT_INDEX: &'static str = "index";

/// The code that leaves a category or a status unrestricted.
pub const UNRESTRICTED: &'static str = "all";

/// What a filter is about.
#[derive(Clone, Copy, Debug, PartialEq, Eq, Structural)]
pub enum FilterKind {
    /// A search for a title.
    Title,
    /// A choice of one of several values.
    Select,
    /// A choice of an ordering.
    Sort,
    /// Anything else: it has no say in the query.
    Other,
}

/// One filter as the host hands it over: its kind, its name, and the value
/// that the user gave it.
#[derive(Debug)]
pub struct Filter {
    pub kind: FilterKind,
    pub name: String,
    pub value: JsonValue,
}

/// What a list of filters asks for.
pub struct Query {
    /// Whether a title is searched for.
    pub searching: bool,
    /// The titles searched for, each in lower case and encoded, one after the
    /// other.
    pub search: Seq<char>,
    /// Position of the genre in `FILTER_GENRE`.
    pub genre: int,
    /// Position of the status in `FILTER_PROGRESS`.
    pub progress: int,
    /// Position of the ordering in `SORT`.
    pub sort: int,
}

/// The position that a select filter's value chooses: the number it holds,
/// or the first position if it holds no number.
pub open spec fn chosen(value: JsonValue) -> int {
    match value {
        JsonValue::Number(n) => n as int,
        _ => 0,
    }
}

/// The position that a sort filter's value chooses, if the value is an
/// object: the number in its index member, or the first position if there is
/// no such number.
pub open spec fn sorted_by(value: JsonValue) -> Option<int> {
    match value {
        JsonValue::Object(fields) => match number_member(fields@, SORT_INDEX@) {
            Some(n) => Some(n),
            None => Some(0),
        },
        _ => None,
    }
}

/// The title that a title filter searches for, if it searches for one: a
/// text that is not empty.
pub open spec fn searched(value: JsonValue) -> Option<Seq<char>> {
    match value {
        JsonValue::Text(title) => if title@.len() > 0 {
            Some(title@)
        } else {
            None
        },
        _ => None,
    }
}

/// How a title goes into the query: in lower case, its UTF-8 bytes encoded
/// as a URI.
pub open spec fn search_term(title: Seq<char>) -> Seq<char> {
    percent_encode(encode_utf8(lowercase(title)), Escaping::Uri)
}

/// Whether every position that `filter` chooses exists in the table it
/// chooses from.
pub open spec fn in_range(filter: Filter) -> bool {
    match filter.kind {
        FilterKind::Select => {
            if filter.name@ == GENRE_FILTER@ {
                0 <= chosen(filter.value) < 20
            } else if filter.name@ == PROGRESS_FILTER@ {
                0 <= chosen(filter.value) < 3
            } else {
                true
            }
        },
        FilterKind::Sort => sorted_by(filter.value) matches Some(i) ==> 0 <= i < 4,
        _ => true,
    }
}

/// Whether every filter of the list is in range.
pub open spec fn all_in_range(filters: Seq<Filter>) -> bool {
    forall|i: int| 0 <= i < filters.len() ==> in_range(#[trigger] filters[i])
}

/// The query after one more filter. A title that is searched for is added to
/// the search; a genre, a status or an ordering replaces the one chosen
/// before; any other filter changes nothing.
pub open spec fn refine(query: Query, filter: Filter) -> Query {
    match filter.kind {
        FilterKind::Title => match searched(filter.value) {
            Some(title) => Query {
                searching: true,
                search: query.search + search_term(title),
                ..query
            },
            None => query,
        },
        FilterKind::Select => {
            if filter.name@ == GENRE_FILTER@ {
                Query { genre: chosen(filter.value), ..query }
            } else if filter.name@ == PROGRESS_FILTER@ {
                Query { progress: chosen(filter.value), ..query }
            } else {
                query
            }
        },
        FilterKind::Sort => match sorted_by(filter.value) {
            Some(i) => Query { sort: i, ..query },
            None => query,
        },
        FilterKind::Other => query,
    }
}

/// What a list of filters asks for: the filters taken in order, starting from
/// no search, no restriction and the first ordering.
pub open spec fn query_of(filters: Seq<Filter>) -> Query
    decreases filters.len(),
{
    if filters.len() == 0 {
        Query { searching: false, search: Seq::empty(), genre: 0, progress: 0, sort: 0 }
    } else {
        refine(query_of(filters.drop_last()), filters.last())
    }
}

/// A restriction of the catalogue to `code` under the name `key`, or nothing
/// where the code is empty or leaves the catalogue unrestricted.
pub open spec fn restriction(key: Seq<char>, code: Seq<char>) -> Seq<char> {
    if code.len() > 0 && code != UNRESTRICTED@ {
        "&"@ + key + "="@ + code
    } else {
        Seq::empty()
    }
}

/// Path and query of the catalogue page that `query` asks for. A search
/// overrides everything but the page number; without one the catalogue is
/// shown in the chosen ordering, restricted to the chosen genre and status.
pub open spec fn query_path(query: Query, page: int) -> Seq<char> {
    if query.searching {
        "/search?type=1&searchString="@ + query.search + "&page="@ + decimal(page)
    } else {
        "/show?orderBy="@ + SORT@[query.sort]@ + "&page="@ + decimal(page) + restriction(
            "mainCategoryId"@,
            FILTER_GENRE@[query.genre]@,
        ) + restriction("status"@, FILTER_PROGRESS@[query.progress]@)
    }
}

fn chosen_position(value: &JsonValue) -> (n: i64)
    ensures
        n == chosen(*value),
{
    match value {
        JsonValue::Number(n) => *n,
        _ => 0,
    }
}

fn sort_position(value: &JsonValue) -> (r: Option<i64>)
    ensures
        match r {
            Some(n) => sorted_by(*value) == Some(n as int),
            None => sorted_by(*value) is None,
        },
{
    match value {
        JsonValue::Object(fields) => match get_member(fields, SORT_INDEX) {
            Some(JsonValue::Number(n)) => Some(*n),
            _ => Some(0),
        },
        _ => None,
    }
}

fn filter_in_range(filter: &Filter) -> (ok: bool)
    ensures
        ok == in_range(*filter),
{
    match filter.kind {
        FilterKind::Select => {
            let n = chosen_position(&filter.value);
            if same_text(filter.name.as_str(), GENRE_FILTER) {
                0 <= n && n < 20
            } else if same_text(filter.name.as_str(), PROGRESS_FILTER) {
                0 <= n && n < 3
            } else {
                true
            }
        },
        FilterKind::Sort => match sort_position(&filter.value) {
            Some(n) => 0 <= n && n < 4,
            None => true,
        },
        _ => true,
    }
}

/// Whether every position that the filters choose exists in its table.
pub fn filters_in_range(filters: &Vec<Filter>) -> (ok: bool)
    ensures
        ok == all_in_range(filters@),
{
    let n: usize = filters.len();
    let mut i: usize = 0;
    while i < n
        invariant
            i <= n,
            n == filters@.len(),
            forall|j: int| 0 <= j < i ==> in_range(#[trigger] filters@[j]),
        decreases n - i,
    {
        if !filter_in_range(&filters[i]) {
            return false;
        }
        i += 1;
    }
    true
}

fn push_restriction(url: &mut String, key: &str, code: &str)
    ensures
        final(url)@ == old(url)@ + restriction(key@, code@),
{
    if !code.is_empty() && !same_text(code, UNRESTRICTED) {
        url.append("&");
        url.append(key);
        url.append("=");
        url.append(code);
        proof {
            assert(final(url)@ == old(url)@ + ("&"@ + key@ + "="@ + code@));
        }
    } else {
        proof {
            assert(old(url)@ + Seq::<char>::empty() == old(url)@);
        }
    }
}

/// Appends to `url` the address of the catalogue page that the filters ask
/// for: the site's root, then the search for the given titles if a title
/// that is not empty is searched for, and else the catalogue in the chosen
/// ordering, restricted to the chosen genre and status. A filter that
/// chooses a position outside its table is not accepted.
pub fn get_filtered_url(filters: &Vec<Filter>, page: i32, url: &mut String)
    requires
        all_in_range(filters@),
    ensures
        final(url)@ == old(url)@ + BASE_URL@ + query_path(query_of(filters@), page as int),
{
    let mut searching = false;
    let mut search = String::new();
    let mut genre: usize = 0;
    let mut progress: usize = 0;
    let mut sort: usize = 0;
    let n: usize = filters.len();
    let mut i: usize = 0;
    proof {
        assert(filters@.take(0).len() == 0);
    }
    while i < n
        invariant
            i <= n,
            n == filters@.len(),
            all_in_range(filters@),
            genre < 20,
            progress < 3,
            sort < 4,
            query_of(filters@.take(i as int)) == (Query {
                searching,
                search: search@,
                genre: genre as int,
                progress: progress as int,
                sort: sort as int,
            }),
        decreases n - i,
    {
        let filter = &filters[i];
        proof {
            let next = filters@.take(i + 1);
            assert(next.drop_last() == filters@.take(i as int));
            assert(next.last() == filters@[i as int]);
            assert(in_range(filters@[i as int]));
        }
        match filter.kind {
            FilterKind::Title => {
                match &filter.value {
                    JsonValue::Text(title) => {
                        if !title.as_str().is_empty() {
                            let lowered = title.as_str().to_lowercase();
                            let term = encode_uri(lowered.as_str());
                            search.append(term.as_str());
                            searching = true;
                        }
                    },
                    _ => {},
                }
            },
            FilterKind::Select => {
                let at = chosen_position(&filter.value);
                if same_text(filter.name.as_str(), GENRE_FILTER) {
                    genre = at as usize;
                } else if same_text(filter.name.as_str(), PROGRESS_FILTER) {
                    progress = at as usize;
                }
            },
            FilterKind::Sort => {
                match sort_position(&filter.value) {
                    Some(at) => {
                        sort = at as usize;
                    },
                    None => {},
                }
            },
            FilterKind::Other => {},
        }
        i += 1;
    }
    proof {
        assert(filters@.take(n as int) == filters@);
    }
    let number = decimal_text(page);
    url.append(BASE_URL);
    if searching {
        url.append("/search?type=1&searchString=");
        url.append(search.as_str());
        url.append("&page=");
        url.append(number.as_str());
        proof {
            assert(final(url)@ == old(url)@ + BASE_URL@ + ("/search?type=1&searchString="@
                + search@ + "&page="@ + number@));
        }
    } else {
        url.append("/show?orderBy=");
        url.append(SORT[sort]);
        url.append("&page=");
        url.append(number.as_str());
        push_restriction(url, "mainCategoryId", FILTER_GENRE[genre]);
        push_restriction(url, "status", FILTER_PROGRESS[progress]);
        proof {
            assert(final(url)@ == old(url)@ + BASE_URL@ + ("/show?orderBy="@ + SORT@[sort as int]@
                + "&page="@ + number@ + restriction(
                "mainCategoryId"@,
                FILTER_GENRE@[genre as int]@,
            ) + restriction("status"@, FILTER_PROGRESS@[progress as int]@)));
        }
    }
}

/// Where the entries of the catalogue stand in a catalogue page.
pub const HOME_ENTRIES: &'static str = "ul.fed-list-info > li";

/// Where the entries of a search stand in a result page.
pub const SEARCH_ENTRIES: &'static str = "dl.fed-deta-info";

/// Where the links of the pager stand in either page.
pub const PAGER_LINKS: &'static str = ".fed-page-info > a";

/// The text of the pager's link to the last page.
pub const LAST_PAGE: &'static str = "尾页";

/// What stands in front of a title's id in a link to the title.
pub const MANGA_PREFIX: &'static str = "/manga-";

/// The path of the catalogue, as opposed to the search.
pub const CATALOGUE_PATH: &'static str = "/show";

/// Whether a title is still appearing.
#[derive(Clone, Copy, Debug, PartialEq, Eq, Structural)]
pub enum MangaStatus {
    Ongoing,
    Completed,
}

/// A title of the site.
#[derive(Clone, Debug, PartialEq, Eq)]
pub struct Manga {
    pub id: String,
    pub cover: String,
    pub title: String,
    pub author: String,
    pub artist: String,
    pub description: String,
    pub url: String,
    pub status: MangaStatus,
}

/// A title as plain mathematics.
pub struct MangaView {
    pub id: Seq<char>,
    pub cover: Seq<char>,
    pub title: Seq<char>,
    pub author: Seq<char>,
    pub artist: Seq<char>,
    pub description: Seq<char>,
    pub url: Seq<char>,
    pub status: MangaStatus,
}

impl View for Manga {
    type V = MangaView;

    open spec fn view(&self) -> MangaView {
        MangaView {
            id: self.id@,
            cover: self.cover@,
            title: self.title@,
            author: self.author@,
            artist: self.artist@,
            description: self.description@,
            url: self.url@,
            status: self.status,
        }
    }
}

/// One page of the catalogue or of a search: its titles, and whether a
/// further page follows.
#[derive(Clone, Debug, PartialEq, Eq)]
pub struct MangaPageResult {
    pub manga: Vec<Manga>,
    pub has_more: bool,
}

/// What a page shows of one title: the link to the title, its name, the
/// address of its cover and, in a search, a line of description.
#[derive(Clone, Debug, PartialEq, Eq)]
pub struct ListEntry {
    pub href: String,
    pub title: String,
    pub cover: String,
    pub description: String,
}

/// One link of the pager: what it reads, and what it does when clicked.
#[derive(Clone, Debug, PartialEq, Eq)]
pub struct PagerLink {
    pub text: String,
    pub onclick: String,
}

/// The id of the title that a link leads to: the link without the prefix of
/// title links and without any slash.
pub open spec fn manga_id(href: Seq<char>) -> Seq<char> {
    without(without(href, MANGA_PREFIX@), "/"@)
}

/// The script call by which the pager shows page `page`.
pub open spec fn show_call(page: int) -> Seq<char> {
    "show('"@ + decimal(page) + "')"@
}

/// Whether `link` is the link to the last page and the last page is not page
/// `page`.
pub open spec fn leads_beyond(link: PagerLink, page: int) -> bool {
    link.text@ == LAST_PAGE@ && !contains(link.onclick@, show_call(page))
}

/// Whether a page follows page `page`: the pager has a link to the last
/// page, and that is another page.
pub open spec fn has_more(pager: Seq<PagerLink>, page: int) -> bool {
    exists|i: int| 0 <= i < pager.len() && leads_beyond(#[trigger] pager[i], page)
}

/// The title that an entry stands for. The description is taken over only
/// where `described` says so.
pub open spec fn listed(entry: ListEntry, described: bool) -> MangaView {
    MangaView {
        id: manga_id(entry.href@),
        cover: entry.cover@,
        title: entry.title@,
        author: Seq::empty(),
        artist: Seq::empty(),
        description: if described {
            entry.description@
        } else {
            Seq::empty()
        },
        url: manga_page(manga_id(entry.href@)),
        status: MangaStatus::Completed,
    }
}

/// The titles that a list of entries stands for, in the order of the
/// entries.
pub open spec fn listing(entries: Seq<ListEntry>, described: bool) -> Seq<MangaView> {
    entries.map_values(|entry: ListEntry| listed(entry, described))
}

/// The views of a list of titles.
pub open spec fn manga_views(manga: Seq<Manga>) -> Seq<MangaView> {
    manga.map_values(|m: Manga| m@)
}

fn list_manga(entry: &ListEntry, described: bool) -> (manga: Manga)
    ensures
        manga@ == listed(*entry, described),
{
    let unprefixed = remove_all(entry.href.as_str(), MANGA_PREFIX);
    let id = remove_all(unprefixed.as_str(), "/");
    let url = manga_url(id.as_str());
    let description = if described {
        entry.description.clone()
    } else {
        String::new()
    };
    Manga {
        id,
        cover: entry.cover.clone(),
        title: entry.title.clone(),
        author: String::new(),
        artist: String::new(),
        description,
        url,
        status: MangaStatus::Completed,
    }
}

fn link_leads_beyond(link: &PagerLink, call: &str) -> (beyond: bool)
    ensures
        beyond == (link.text@ == LAST_PAGE@ && !contains(link.onclick@, call@)),
{
    same_text(link.text.as_str(), LAST_PAGE) && !contains_text(link.onclick.as_str(), call)
}

fn page_follows(pager: &Vec<PagerLink>, page: i32) -> (more: bool)
    ensures
        more == has_more(pager@, page as int),
{
    let mut call = String::from_str("show('");
    call.append(decimal_text(page).as_str());
    call.append("')");
    let n: usize = pager.len();
    let mut i: usize = 0;
    while i < n
        invariant
            i <= n,
            n == pager@.len(),
            call@ == show_call(page as int),
            forall|j: int| 0 <= j < i ==> !leads_beyond(#[trigger] pager@[j], page as int),
        decreases n - i,
    {
        if link_leads_beyond(&pager[i], call.as_str()) {
            return true;
        }
        i += 1;
    }
    false
}

fn list_page(entries: &Vec<ListEntry>, pager: &Vec<PagerLink>, page: i32, described: bool) -> (result:
    MangaPageResult)
    ensures
        manga_views(result.manga@) == listing(entries@, described),
        result.has_more == has_more(pager@, page as int),
{
    let n: usize = entries.len();
    let mut manga: Vec<Manga> = Vec::new();
    let mut i: usize = 0;
    while i < n
        invariant
            i <= n,
            n == entries@.len(),
            manga@.len() == i,
            forall|j: int| 0 <= j < i ==> (#[trigger] manga@[j])@ == listed(entries@[j], described),
        decreases n - i,
    {
        manga.push(list_manga(&entries[i], described));
        i += 1;
    }
    proof {
        assert(manga_views(manga@) =~= listing(entries@, described));
    }
    MangaPageResult { manga, has_more: page_follows(pager, page) }
}

/// Reads one page of the catalogue: a title for each entry, in the order of
/// the entries and without description, and whether a page follows page
/// `page`.
pub fn parse_home_page(entries: &Vec<ListEntry>, pager: &Vec<PagerLink>, page: i32) -> (result:
    MangaPageResult)
    ensures
        manga_views(result.manga@) == listing(entries@, false),
        result.has_more == has_more(pager@, page as int),
{
    list_page(entries, pager, page, false)
}

/// Reads one page of a search: a title for each entry, in the order of the
/// entries and with its description, and whether a page follows page `page`.
pub fn parse_search_page(entries: &Vec<ListEntry>, pager: &Vec<PagerLink>, page: i32) -> (result:
    MangaPageResult)
    ensures
        manga_views(result.manga@) == listing(entries@, true),
        result.has_more == has_more(pager@, page as int),
{
    list_page(entries, pager, page, true)
}

/// Whether `url` asks for the catalogue rather than for a search, and so
/// which of the two kinds of page answers it.
pub fn is_catalogue_url(url: &str) -> (catalogue: bool)
    ensures
        catalogue == contains(url@, BASE_URL@ + CATALOGUE_PATH@),
{
    let mut prefix = String::from_str(BASE_URL);
    prefix.append(CATALOGUE_PATH);
    contains_text(url, prefix.as_str())
}

/// Where a title's page shows the title's name.
pub const DETAILS_TITLE: &'static str = "dl.fed-deta-info h1.fed-part-eone";

/// Where a title's page shows the author.
pub const DETAILS_AUTHOR: &'static str = "dl.fed-deta-info ul.fed-part-rows li:nth-child(3) a";

/// Where a title's page shows the description.
pub const DETAILS_DESCRIPTION: &'static str = "dl.fed-deta-info ul.fed-part-rows li:last-child div";

/// Where a title's page shows the cover.
pub const DETAILS_COVER: &'static str = "dl.fed-deta-info a.fed-list-pics";

/// The heading that the site writes into the description.
pub const DESCRIPTION_HEADING: &'static str = "简介";

/// What a title's page shows of the title.
#[derive(Clone, Debug, PartialEq, Eq)]
pub struct Details {
    pub title: String,
    pub author: String,
    pub description: String,
    pub cover: String,
}

/// The title that a title's page describes. The author stands for the artist
/// too, the heading is taken out of the description, and a title with a page
/// of its own counts as still appearing.
pub open spec fn detailed(details: Details, manga_id: Seq<char>) -> MangaView {
    MangaView {
        id: manga_id,
        cover: details.cover@,
        title: details.title@,
        author: details.author@,
        artist: details.author@,
        description: without(details.description@, DESCRIPTION_HEADING@),
        url: manga_page(manga_id),
        status: MangaStatus::Ongoing,
    }
}

/// Reads the title `manga_id` from what its page shows.
pub fn parse_manga_details(details: &Details, manga_id: String) -> (manga: Manga)
    ensures
        manga@ == detailed(*details, manga_id@),
{
    let url = manga_url(manga_id.as_str());
    Manga {
        id: manga_id,
        cover: details.cover.clone(),
        title: details.title.clone(),
        author: details.author.clone(),
        artist: details.author.clone(),
        description: remove_all(details.description.as_str(), DESCRIPTION_HEADING),
        url,
        status: MangaStatus::Ongoing,
    }
}

/// Where the chapters stand in a title's page.
pub const CHAPTER_ENTRIES: &'static str = ".all_data_list ul li";

/// The ending of a chapter page's address.
pub const PAGE_SUFFIX: &'static str = ".html";

/// The language of every chapter of the site.
pub const LANGUAGE: &'static str = "zh";

/// What a title's page shows of one chapter: the link to it and its name.
#[derive(Clone, Debug, PartialEq, Eq)]
pub struct ChapterEntry {
    pub href: String,
    pub title: String,
}

/// A chapter of a title. Volume and number are given as the texts that the
/// site writes them in: whether such a text is a number, and which, is for
/// the caller to say.
#[derive(Clone, Debug, PartialEq, Eq)]
pub struct Chapter {
    pub id: String,
    pub title: String,
    pub volume: String,
    pub chapter: String,
    pub url: String,
    pub lang: String,
}

/// A chapter as plain mathematics.
pub struct ChapterView {
    pub id: Seq<char>,
    pub title: Seq<char>,
    pub volume: Seq<char>,
    pub chapter: Seq<char>,
    pub url: Seq<char>,
    pub lang: Seq<char>,
}

impl View for Chapter {
    type V = ChapterView;

    open spec fn view(&self) -> ChapterView {
        ChapterView {
            id: self.id@,
            title: self.title@,
            volume: self.volume@,
            chapter: self.chapter@,
            url: self.url@,
            lang: self.lang@,
        }
    }
}

/// The parts of a chapter link: the link without the ending of a page
/// address, cut at every slash.
pub open spec fn link_parts(href: Seq<char>) -> Seq<Seq<char>> {
    split(without(href, PAGE_SUFFIX@), '/')
}

/// Whether a link has the parts of a chapter link: something before the
/// first slash, then the volume, the title's id and the chapter's.
pub open spec fn is_chapter_link(href: Seq<char>) -> bool {
    link_parts(href).len() >= 4
}

/// The text that a chapter's name gives for its number: the first word of
/// the name, without the signs that the site puts round the number.
pub open spec fn number_text(title: Seq<char>) -> Seq<char> {
    without(without(split(title, ' ')[0], "第"@), "话"@)
}

/// The chapter that an entry stands for. Its id is the title's id and the
/// chapter's own, joined by a slash.
pub open spec fn chapter_of(entry: ChapterEntry) -> ChapterView {
    let parts = link_parts(entry.href@);
    ChapterView {
        id: parts[2] + "/"@ + parts[3],
        title: entry.title@,
        volume: parts[1],
        chapter: number_text(entry.title@),
        url: entry.href@,
        lang: LANGUAGE@,
    }
}

/// Whether every entry of the list has a chapter link.
pub open spec fn all_chapter_links(entries: Seq<ChapterEntry>) -> bool {
    forall|i: int| 0 <= i < entries.len() ==> is_chapter_link((#[trigger] entries[i]).href@)
}

/// Whether `href` has the parts of a chapter link.
pub fn has_chapter_link(href: &str) -> (ok: bool)
    ensures
        ok == is_chapter_link(href@),
{
    let parsed = remove_all(href, PAGE_SUFFIX);
    let parts = split_text(parsed.as_str(), '/');
    proof {
        assert(views(parts@).len() == parts@.len());
    }
    parts.len() >= 4
}

fn read_chapter(entry: &ChapterEntry) -> (chapter: Chapter)
    requires
        is_chapter_link(entry.href@),
    ensures
        chapter@ == chapter_of(*entry),
{
    let parsed = remove_all(entry.href.as_str(), PAGE_SUFFIX);
    let parts = split_text(parsed.as_str(), '/');
    let words = split_text(entry.title.as_str(), ' ');
    proof {
        assert(views(parts@).len() == parts@.len());
        assert(views(parts@)[1] == parts@[1]@);
        assert(views(parts@)[2] == parts@[2]@);
        assert(views(parts@)[3] == parts@[3]@);
        assert(views(words@)[0] == words@[0]@);
    }
    let mut id = parts[2].clone();
    id.append("/");
    id.append(parts[3].as_str());
    let bare = remove_all(words[0].as_str(), "第");
    Chapter {
        id,
        title: entry.title.clone(),
        volume: parts[1].clone(),
        chapter: remove_all(bare.as_str(), "话"),
        url: entry.href.clone(),
        lang: String::from_str(LANGUAGE),
    }
}

/// The views of a list of chapters.
pub open spec fn chapter_views(chapters: Seq<Chapter>) -> Seq<ChapterView> {
    chapters.map_values(|c: Chapter| c@)
}

/// Reads the chapters of a title from the entries of its page: one chapter
/// for each entry, in the order of the entries. An entry whose link lacks
/// the parts of a chapter link is not accepted.
pub fn get_chapter_list(entries: &Vec<ChapterEntry>) -> (chapters: Vec<Chapter>)
    requires
        all_chapter_links(entries@),
    ensures
        chapter_views(chapters@) == entries@.map_values(|entry: ChapterEntry| chapter_of(entry)),
{
    let n: usize = entries.len();
    let mut chapters: Vec<Chapter> = Vec::new();
    let mut i: usize = 0;
    while i < n
        invariant
            i <= n,
            n == entries@.len(),
            all_chapter_links(entries@),
            chapters@.len() == i,
            forall|j: int| 0 <= j < i ==> (#[trigger] chapters@[j])@ == chapter_of(entries@[j]),
        decreases n - i,
    {
        chapters.push(read_chapter(&entries[i]));
        i += 1;
    }
    proof {
        assert(chapter_views(chapters@) =~= entries@.map_values(
            |entry: ChapterEntry| chapter_of(entry),
        ));
    }
    chapters
}

} // verus!
