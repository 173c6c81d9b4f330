use colamanga::parser::{
    get_chapter_list, has_chapter_link, is_catalogue_url, parse_home_page, parse_manga_details,
    parse_search_page, Chapter, ChapterEntry, Details, ListEntry, Manga, MangaStatus, PagerLink,
};

fn entry(href: &str, title: &str, cover: &str, description: &str) -> ListEntry {
    ListEntry {
        href: href.to_string(),
        title: title.to_string(),
        cover: cover.to_string(),
        description: description.to_string(),
    }
}

fn link(text: &str, onclick: &str) -> PagerLink {
    PagerLink { text: text.to_string(), onclick: onclick.to_string() }
}

fn pager(last: i32) -> Vec<PagerLink> {
    vec![
        link("首页", "show('1')"),
        link("下页", "show('2')"),
        link("尾页", &format!("show('{}')", last)),
    ]
}

#[test]
fn catalogue_entry_becomes_a_title_without_description() {
    let entries = vec![entry("/manga-ab12345/", "海贼王", "https://img/c.jpg", "ignored")];
    let page = parse_home_page(&entries, &pager(9), 1);
    assert_eq!(
        page.manga,
        vec![Manga {
            id: "ab12345".to_string(),
            cover: "https://img/c.jpg".to_string(),
            title: "海贼王".to_string(),
            author: String::new(),
            artist: String::new(),
            description: String::new(),
            url: "https://www.colamanga.com/manga-ab12345/".to_string(),
            status: MangaStatus::Completed,
        }]
    );
    assert!(page.has_more);
}

#[test]
fn search_entry_keeps_its_description() {
    let entries = vec![
        entry("/manga-x1/", "A", "ca", "first"),
        entry("/manga-y2/", "B", "cb", "second"),
    ];
    let page = parse_search_page(&entries, &pager(3), 3);
    assert_eq!(page.manga.len(), 2);
    assert_eq!(page.manga[0].id, "x1");
    assert_eq!(page.manga[0].description, "first");
    assert_eq!(page.manga[1].id, "y2");
    assert_eq!(page.manga[1].title, "B");
    assert_eq!(page.manga[1].cover, "cb");
    assert_eq!(page.manga[1].description, "second");
    assert_eq!(page.manga[1].url, "https://www.colamanga.com/manga-y2/");
    assert_eq!(page.manga[1].status, MangaStatus::Completed);
    assert!(!page.has_more);
}

#[test]
fn every_prefix_and_slash_leaves_the_id() {
    let entries = vec![
        entry("https://x/manga-a/b/manga-c/", "", "", ""),
        entry("no-prefix", "", "", ""),
        entry("", "", "", ""),
    ];
    let page = parse_home_page(&entries, &Vec::new(), 1);
    assert_eq!(page.manga[0].id, "https:xabc");
    assert_eq!(page.manga[1].id, "no-prefix");
    assert_eq!(page.manga[1].url, "https://www.colamanga.com/manga-no-prefix/");
    assert_eq!(page.manga[2].id, "");
    assert_eq!(page.manga[2].url, "https://www.colamanga.com/manga-/");
}

#[test]
fn a_page_follows_unless_the_last_page_is_this_one() {
    let none: Vec<ListEntry> = Vec::new();
    assert!(parse_home_page(&none, &pager(5), 1).has_more);
    assert!(parse_home_page(&none, &pager(5), 4).has_more);
    assert!(!parse_home_page(&none, &pager(5), 5).has_more);
    assert!(parse_home_page(&none, &pager(15), 1).has_more);
    assert!(parse_home_page(&none, &pager(15), 5).has_more);
    assert!(!parse_home_page(&none, &pager(-3), -3).has_more);
}

#[test]
fn no_page_follows_without_a_link_to_the_last_page() {
    let none: Vec<ListEntry> = Vec::new();
    assert!(!parse_home_page(&none, &Vec::new(), 1).has_more);
    assert!(!parse_search_page(&none, &vec![link("下页", "show('2')")], 1).has_more);
    assert!(!parse_search_page(&none, &vec![link("尾页 ", "show('2')")], 1).has_more);
    assert!(parse_search_page(&none, &vec![link("尾页", "")], 1).has_more);
    assert!(parse_search_page(&none, &vec![link("尾页", "show('1')"), link("尾页", "show('2')")], 1).has_more);
}

#[test]
fn catalogue_url_is_told_from_a_search_url() {
    assert!(is_catalogue_url("https://www.colamanga.com/show?orderBy=update&page=1"));
    assert!(!is_catalogue_url("https://www.colamanga.com/search?type=1&searchString=a&page=1"));
    assert!(!is_catalogue_url("http://www.colamanga.com/show"));
    assert!(!is_catalogue_url(""));
}

#[test]
fn details_give_the_title() {
    let details = Details {
        title: "海贼王".to_string(),
        author: "尾田".to_string(),
        description: "简介：故事简介".to_string(),
        cover: "https://img/c.jpg".to_string(),
    };
    assert_eq!(
        parse_manga_details(&details, "ab12345".to_string()),
        Manga {
            id: "ab12345".to_string(),
            cover: "https://img/c.jpg".to_string(),
            title: "海贼王".to_string(),
            author: "尾田".to_string(),
            artist: "尾田".to_string(),
            description: "：故事".to_string(),
            url: "https://www.colamanga.com/manga-ab12345/".to_string(),
            status: MangaStatus::Ongoing,
        }
    );
}

#[test]
fn chapter_entry_becomes_a_chapter() {
    let entries = vec![
        ChapterEntry { href: "/manga-ab12345/1/23.html".to_string(), title: "第23话 出航".to_string() },
        ChapterEntry { href: "/manga-ab12345/2/7.html".to_string(), title: "番外".to_string() },
    ];
    assert_eq!(
        get_chapter_list(&entries),
        vec![
            Chapter {
                id: "1/23".to_string(),
                title: "第23话 出航".to_string(),
                volume: "manga-ab12345".to_string(),
                chapter: "23".to_string(),
                url: "/manga-ab12345/1/23.html".to_string(),
                lang: "zh".to_string(),
            },
            Chapter {
                id: "2/7".to_string(),
                title: "番外".to_string(),
                volume: "manga-ab12345".to_string(),
                chapter: "番外".to_string(),
                url: "/manga-ab12345/2/7.html".to_string(),
                lang: "zh".to_string(),
            },
        ]
    );
    assert_eq!(get_chapter_list(&Vec::new()), Vec::<Chapter>::new());
}

#[test]
fn chapter_link_needs_four_parts() {
    assert!(has_chapter_link("/manga-ab12345/1/23.html"));
    assert!(has_chapter_link("a/b/c/d/e"));
    assert!(has_chapter_link("///"));
    assert!(has_chapter_link("a/b/.html/c/d"));
    assert!(!has_chapter_link("/manga-ab12345/1.html"));
    assert!(!has_chapter_link("a/b/c"));
    assert!(!has_chapter_link(""));
}

#[test]
fn chapter_number_text_is_the_first_word_without_its_signs() {
    let entries = vec![
        ChapterEntry { href: "a/b/c/d".to_string(), title: "第12.5话".to_string() },
        ChapterEntry { href: "a/b/c/d".to_string(), title: " 第3话".to_string() },
        ChapterEntry { href: "a/b/c/d".to_string(), title: "话第第7话话 x 第8话".to_string() },
    ];
    let chapters = get_chapter_list(&entries);
    assert_eq!(chapters[0].chapter, "12.5");
    assert_eq!(chapters[0].volume, "b");
    assert_eq!(chapters[0].id, "c/d");
    assert_eq!(chapters[1].chapter, "");
    assert_eq!(chapters[2].chapter, "7");
}
