use spacedrive_core::custom_uri::{
    binary_mime_type, cors, parse_file_route, plan_serve_file, range_response, text_content_type, text_sample_len,
    FileFacts, FileRoute, RangeHeader, ServeBody, ServeError, ServePlan, ServeRequest, MAX_TEXT_READ_LENGTH,
};

#[test]
fn binary_mime_types() {
    assert_eq!(binary_mime_type("mp4", false), Some("video/mp4"));
    assert_eq!(binary_mime_type("m4v", true), Some("video/mp4"));
    assert_eq!(binary_mime_type("midi", false), Some("audio/midi, audio/x-midi"));
    assert_eq!(binary_mime_type("heics", false), Some("image/heic,image/heic-sequence"));
    assert_eq!(binary_mime_type("avcs", false), Some("image/avif"));
    assert_eq!(binary_mime_type("pdf", false), Some("application/pdf"));
    assert_eq!(binary_mime_type("ts", false), Some("video/mp2t"));
    assert_eq!(binary_mime_type("mpeg", false), Some("video/mpeg"));
    // These break video rendering on macOS, where they are served as text.
    assert_eq!(binary_mime_type("ts", true), None);
    assert_eq!(binary_mime_type("mpeg", true), None);
    assert_eq!(binary_mime_type("txt", false), None);
    assert_eq!(binary_mime_type("MP4", false), None);
}

#[test]
fn text_content_types() {
    assert_eq!(text_content_type("html", "utf-8"), "text/html; charset=utf-8");
    assert_eq!(text_content_type("mjs", ""), "text/javascript; charset=");
    assert_eq!(text_content_type("txt", "ascii"), "text/plain; charset=ascii");
    assert_eq!(text_content_type("rs", "utf-8"), "text/plain; charset=utf-8");
}

#[test]
fn text_sample_lengths() {
    assert_eq!(text_sample_len(0), (0, true));
    assert_eq!(text_sample_len(100), (100, true));
    assert_eq!(text_sample_len(10240), (MAX_TEXT_READ_LENGTH, true));
    assert_eq!(text_sample_len(20000), (10240, false));
}

fn request(is_get: bool, if_none_match: Option<&str>, range: RangeHeader) -> ServeRequest {
    ServeRequest { is_get, if_none_match: if_none_match.map(|s| s.as_bytes().to_vec()), range }
}

fn unwrap_plan(r: Option<Result<ServePlan, ServeError>>) -> ServePlan {
    match r {
        Some(Ok(p)) => p,
        other => panic!("unexpected answer: {:?}", other.map(|r| r.map(|p| p.status))),
    }
}

#[test]
fn file_without_facts_is_streamed_whole() {
    let p = unwrap_plan(plan_serve_file(None, &request(true, None, RangeHeader::Absent)));
    assert_eq!(p.status, 200);
    assert!(!p.accept_ranges);
    assert_eq!(p.etag, None);
    assert_eq!(p.body, ServeBody::WholeFile);
}

#[test]
fn etag_is_the_quoted_modification_time() {
    let facts = FileFacts { len: 10, modified_millis: Some(1700000000123) };
    let p = unwrap_plan(plan_serve_file(Some(facts), &request(true, None, RangeHeader::Absent)));
    assert_eq!(p.status, 200);
    assert!(p.accept_ranges);
    assert_eq!(p.etag.as_deref(), Some("\"1700000000123\""));
    assert_eq!(p.body, ServeBody::WholeFile);
}

#[test]
fn matching_etag_is_not_modified() {
    let facts = FileFacts { len: 10, modified_millis: Some(42) };
    let range = RangeHeader::Text("bytes=0-1".to_string());
    let p = unwrap_plan(plan_serve_file(Some(facts), &request(true, Some("\"42\""), range)));
    assert_eq!(p.status, 304);
    assert_eq!(p.body, ServeBody::Nothing);
    assert_eq!(p.etag, None);
    let p = unwrap_plan(plan_serve_file(Some(facts), &request(true, Some("\"43\""), RangeHeader::Absent)));
    assert_eq!(p.status, 200);
}

#[test]
fn empty_files_have_no_body() {
    let facts = FileFacts { len: 0, modified_millis: None };
    let range = RangeHeader::Text("bytes=0-1".to_string());
    let p = unwrap_plan(plan_serve_file(Some(facts), &request(true, None, range)));
    assert_eq!(p.status, 200);
    assert_eq!(p.content_length.as_deref(), Some("0"));
    assert_eq!(p.body, ServeBody::Nothing);
}

#[test]
fn one_range_is_partial_content() {
    let facts = FileFacts { len: 200, modified_millis: None };
    let range = RangeHeader::Text("bytes=6-".to_string());
    let p = unwrap_plan(plan_serve_file(Some(facts), &request(true, None, range)));
    assert_eq!(p.status, 206);
    assert_eq!(p.content_range.as_deref(), Some("bytes 6-199/200"));
    assert_eq!(p.content_length.as_deref(), Some("194"));
    assert_eq!(p.body, ServeBody::Bytes { start: 6, length: 194 });
    let range = RangeHeader::Text("bytes=-6".to_string());
    let p = unwrap_plan(plan_serve_file(Some(facts), &request(true, None, range)));
    assert_eq!(p.body, ServeBody::Bytes { start: 194, length: 6 });
    assert_eq!(p.content_range.as_deref(), Some("bytes 194-199/200"));
}

#[test]
fn ranges_only_apply_to_get() {
    let facts = FileFacts { len: 200, modified_millis: None };
    let range = RangeHeader::Text("bytes=0-9".to_string());
    let p = unwrap_plan(plan_serve_file(Some(facts), &request(false, None, range)));
    assert_eq!(p.status, 200);
    assert_eq!(p.body, ServeBody::WholeFile);
}

#[test]
fn bad_ranges_are_bad_requests() {
    let facts = FileFacts { len: 200, modified_millis: None };
    for header in ["foo", "bytes=5-4", "bytes=A-"] {
        let range = RangeHeader::Text(header.to_string());
        assert!(matches!(
            plan_serve_file(Some(facts), &request(true, None, range)),
            Some(Err(ServeError::BadRequest))
        ));
    }
    assert!(matches!(
        plan_serve_file(Some(facts), &request(true, None, RangeHeader::Unreadable)),
        Some(Err(ServeError::BadRequest))
    ));
}

#[test]
fn several_ranges_are_not_supported() {
    let facts = FileFacts { len: 200, modified_millis: None };
    let range = RangeHeader::Text("bytes=0-1,5-6".to_string());
    assert!(plan_serve_file(Some(facts), &request(true, None, range)).is_none());
    let range = RangeHeader::Text(String::new());
    assert!(plan_serve_file(Some(facts), &request(true, None, range)).is_none());
}

#[test]
fn range_response_headers() {
    let base = ServePlan {
        status: 200,
        accept_ranges: true,
        etag: Some("\"1\"".to_string()),
        content_range: None,
        content_length: None,
        body: ServeBody::WholeFile,
    };
    let p = range_response(base, (0, 1), 1);
    assert_eq!(p.status, 206);
    assert_eq!(p.content_range.as_deref(), Some("bytes 0-0/1"));
    assert_eq!(p.content_length.as_deref(), Some("1"));
    assert_eq!(p.etag.as_deref(), Some("\"1\""));
}

#[test]
fn file_route_parts_are_parsed() {
    assert_eq!(
        parse_file_route("67e55044-10b1-426f-9247-bb680e5fe0c8", "3", "-17"),
        Ok(FileRoute {
            library_id: 0x67e5504410b1426f9247bb680e5fe0c8,
            location_id: 3,
            file_path_id: -17,
        })
    );
    assert_eq!(
        parse_file_route("67e55044-10b1-426f-9247-bb680e5fe0c8", "+2147483647", "0"),
        Ok(FileRoute {
            library_id: 0x67e5504410b1426f9247bb680e5fe0c8,
            location_id: 2147483647,
            file_path_id: 0,
        })
    );
}

#[test]
fn file_route_with_a_bad_part_is_a_bad_request() {
    let lib = "67e55044-10b1-426f-9247-bb680e5fe0c8";
    assert_eq!(parse_file_route("not-a-uuid", "1", "1"), Err(ServeError::BadRequest));
    assert_eq!(parse_file_route(lib, "x", "1"), Err(ServeError::BadRequest));
    assert_eq!(parse_file_route(lib, "1", ""), Err(ServeError::BadRequest));
    assert_eq!(parse_file_route(lib, "2147483648", "1"), Err(ServeError::BadRequest));
    assert_eq!(parse_file_route(lib, "1", "-2147483649"), Err(ServeError::BadRequest));
}

#[test]
fn cors_answers_preflight_and_decorates_responses() {
    let preflight = cors(true);
    assert!(preflight.answer_now);
    assert_eq!(
        preflight.headers,
        vec![
            ("Access-Control-Allow-Methods", "GET, HEAD, POST, OPTIONS"),
            ("Access-Control-Allow-Headers", "*"),
            ("Access-Control-Max-Age", "86400"),
        ]
    );
    let other = cors(false);
    assert!(!other.answer_now);
    assert_eq!(
        other.headers,
        vec![("Access-Control-Allow-Origin", "*"), ("Connection", "Keep-Alive"), ("Server", "Spacedrive")]
    );
}
