use colamanga::api::{
    decode_manifest, decode_reply, get_page_list, synthesize_urls, PageListRes, PageSource,
    ServiceReply, BASE_URL, IMG_KEY, KEY_TYPE, PAGE_IMG_LIST, PAGE_TOTAL_COUNT,
};
use colamanga::error::ResolveError;
use colamanga::json::{get_member, JsonField, JsonValue};

fn member(name: &str, value: JsonValue) -> JsonField {
    JsonField { name: name.to_string(), value }
}

fn string(value: &str) -> JsonValue {
    JsonValue::Text(value.to_string())
}

fn full_body() -> Vec<JsonField> {
    vec![
        member("pageTotalCount", JsonValue::Number(2)),
        member("pageImgList", JsonValue::Array(vec![string("a.jpg"), string("b jpg")])),
        member("keyType", string("T1")),
        member("imgKey", string("K1")),
    ]
}

fn body_without(name: &str) -> JsonValue {
    JsonValue::Object(full_body().into_iter().filter(|f| f.name != name).collect())
}

fn body_with(name: &str, value: JsonValue) -> JsonValue {
    let mut fields: Vec<JsonField> = full_body().into_iter().filter(|f| f.name != name).collect();
    fields.push(member(name, value));
    JsonValue::Object(fields)
}

fn manifest(sources: Vec<PageSource>) -> PageListRes {
    PageListRes {
        page_total_count: sources.len() as i64,
        page_img_list: sources,
        key_type: "T1".to_string(),
        img_key: "K1".to_string(),
    }
}

fn present(token: &str) -> PageSource {
    PageSource::Present(token.to_string())
}

#[test]
fn complete_body_gives_the_manifest() {
    let decoded = decode_manifest(&JsonValue::Object(full_body()));
    assert_eq!(decoded, Ok(manifest(vec![present("a.jpg"), present("b jpg")])));
    assert!(decoded.unwrap().is_well_formed());
}

#[test]
fn member_names_are_those_of_the_service() {
    assert_eq!(PAGE_TOTAL_COUNT, "pageTotalCount");
    assert_eq!(PAGE_IMG_LIST, "pageImgList");
    assert_eq!(KEY_TYPE, "keyType");
    assert_eq!(IMG_KEY, "imgKey");
    assert_eq!(BASE_URL, "http://localhost:8346");
}

#[test]
fn each_missing_member_is_a_decode_error() {
    for name in ["pageTotalCount", "pageImgList", "keyType", "imgKey"] {
        assert_eq!(decode_manifest(&body_without(name)), Err(ResolveError::DecodeError));
    }
}

#[test]
fn each_member_of_the_wrong_type_is_a_decode_error() {
    assert_eq!(
        decode_manifest(&body_with("pageTotalCount", string("2"))),
        Err(ResolveError::DecodeError)
    );
    assert_eq!(
        decode_manifest(&body_with("pageTotalCount", JsonValue::Null)),
        Err(ResolveError::DecodeError)
    );
    assert_eq!(
        decode_manifest(&body_with("keyType", JsonValue::Number(1))),
        Err(ResolveError::DecodeError)
    );
    assert_eq!(
        decode_manifest(&body_with("imgKey", JsonValue::Bool(true))),
        Err(ResolveError::DecodeError)
    );
    assert_eq!(
        decode_manifest(&body_with("pageImgList", string("a.jpg"))),
        Err(ResolveError::DecodeError)
    );
}

#[test]
fn body_that_is_no_object_is_a_decode_error() {
    assert_eq!(decode_manifest(&JsonValue::Null), Err(ResolveError::DecodeError));
    assert_eq!(decode_manifest(&JsonValue::Array(vec![])), Err(ResolveError::DecodeError));
    assert_eq!(decode_manifest(&string("{}")), Err(ResolveError::DecodeError));
    assert_eq!(decode_manifest(&JsonValue::Object(vec![])), Err(ResolveError::DecodeError));
}

#[test]
fn element_that_is_no_text_becomes_a_missing_source() {
    let body = body_with(
        "pageImgList",
        JsonValue::Array(vec![string("a"), JsonValue::Number(7), string("c"), JsonValue::Null]),
    );
    let body = match body {
        JsonValue::Object(mut fields) => {
            fields.retain(|f| f.name != "pageTotalCount");
            fields.push(member("pageTotalCount", JsonValue::Number(4)));
            JsonValue::Object(fields)
        }
        other => other,
    };
    let decoded = decode_manifest(&body).unwrap();
    assert_eq!(
        decoded.page_img_list,
        vec![present("a"), PageSource::Missing, present("c"), PageSource::Missing]
    );
    assert_eq!(decoded.page_total_count, 4);
    assert!(decoded.is_well_formed());
}

#[test]
fn page_count_that_is_not_the_length_of_the_list_is_a_decode_error() {
    for count in [-1i64, 0, 1, 3, i64::MAX, i64::MIN] {
        assert_eq!(
            decode_manifest(&body_with("pageTotalCount", JsonValue::Number(count))),
            Err(ResolveError::DecodeError)
        );
    }
    let empty = body_with("pageImgList", JsonValue::Array(vec![]));
    assert_eq!(decode_manifest(&empty), Err(ResolveError::DecodeError));
    let empty = match empty {
        JsonValue::Object(mut fields) => {
            fields.retain(|f| f.name != "pageTotalCount");
            fields.push(member("pageTotalCount", JsonValue::Number(0)));
            JsonValue::Object(fields)
        }
        other => other,
    };
    assert_eq!(decode_manifest(&empty), Ok(manifest(vec![])));
}

#[test]
fn first_member_of_a_name_is_the_one_read() {
    let fields = vec![member("k", string("first")), member("k", string("second"))];
    match get_member(&fields, "k") {
        Some(JsonValue::Text(t)) => assert_eq!(t, "first"),
        other => panic!("unexpected member: {:?}", other),
    }
    assert!(get_member(&fields, "K").is_none());
    assert!(get_member(&Vec::new(), "k").is_none());
}

#[test]
fn status_other_than_200_is_a_network_error() {
    for status in [0u16, 199, 201, 204, 301, 404, 500, 503] {
        let reply = ServiceReply::Answer { status, body: Some(JsonValue::Object(full_body())) };
        assert_eq!(decode_reply(&reply), Err(ResolveError::NetworkError));
        assert_eq!(get_page_list(BASE_URL, &reply), Err(ResolveError::NetworkError));
    }
    assert_eq!(get_page_list(BASE_URL, &ServiceReply::Unreachable), Err(ResolveError::NetworkError));
}

#[test]
fn answer_without_json_is_a_decode_error() {
    let reply = ServiceReply::Answer { status: 200, body: None };
    assert_eq!(decode_reply(&reply), Err(ResolveError::DecodeError));
    assert_eq!(get_page_list(BASE_URL, &reply), Err(ResolveError::DecodeError));
}

#[test]
fn good_answer_gives_the_urls() {
    let reply = ServiceReply::Answer { status: 200, body: Some(JsonValue::Object(full_body())) };
    assert_eq!(
        get_page_list("http://localhost:8346", &reply),
        Ok(vec![
            "http://localhost:8346/img?src=a.jpg&imgKey=K1&keyType=T1".to_string(),
            "http://localhost:8346/img?src=b%20jpg&imgKey=K1&keyType=T1".to_string(),
        ])
    );
}

#[test]
fn there_is_one_url_for_each_source() {
    for count in [0usize, 1, 2, 17] {
        let sources: Vec<PageSource> = (0..count).map(|i| present(&format!("img{}", i))).collect();
        let urls = synthesize_urls("http://s", &manifest(sources));
        assert_eq!(urls.len(), count);
        for (i, url) in urls.iter().enumerate() {
            assert_eq!(url, &format!("http://s/img?src=img{}&imgKey=K1&keyType=T1", i));
        }
    }
}

#[test]
fn missing_source_gets_a_url_with_an_empty_src() {
    let with_gap = synthesize_urls("http://s", &manifest(vec![present("a"), PageSource::Missing, present("c")]));
    let without_gap = synthesize_urls("http://s", &manifest(vec![present("a"), present("b"), present("c")]));
    assert_eq!(
        with_gap,
        vec![
            "http://s/img?src=a&imgKey=K1&keyType=T1".to_string(),
            "http://s/img?src=&imgKey=K1&keyType=T1".to_string(),
            "http://s/img?src=c&imgKey=K1&keyType=T1".to_string(),
        ]
    );
    assert_eq!(with_gap[0], without_gap[0]);
    assert_eq!(with_gap[2], without_gap[2]);
}

#[test]
fn every_url_ends_in_the_same_key_material() {
    let res = PageListRes {
        page_total_count: 3,
        page_img_list: vec![present("x/y"), PageSource::Missing, present("z z")],
        key_type: "type&1".to_string(),
        img_key: "key=/ 2".to_string(),
    };
    let urls = synthesize_urls("http://s", &res);
    assert_eq!(urls.len(), 3);
    for url in &urls {
        assert!(url.ends_with("&imgKey=key=/ 2&keyType=type&1"));
    }
    assert_eq!(urls[0], "http://s/img?src=x%2Fy&imgKey=key=/ 2&keyType=type&1");
}

#[test]
fn negative_or_wrong_count_is_not_well_formed() {
    let mut res = manifest(vec![present("a")]);
    assert!(res.is_well_formed());
    res.page_total_count = 2;
    assert!(!res.is_well_formed());
    res.page_total_count = -1;
    assert!(!res.is_well_formed());
    res.page_img_list.clear();
    res.page_total_count = 0;
    assert!(res.is_well_formed());
}
