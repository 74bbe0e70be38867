use api_tools::credential::{resolve_credential, CredOutcome, StoreLookup};
use api_tools::image::{handle_image_response, image_payload, image_url, ImageOutcome};
use api_tools::json::{to_compact, to_pretty};
use api_tools::parse::parse_chars;
use api_tools::resolution::map_resolution;
use api_tools::search::{handle_search_response, search_payload, SearchOutcome};

fn cs(s: &str) -> Vec<char> {
    s.chars().collect()
}

fn st(v: &Vec<char>) -> String {
    v.iter().collect()
}

#[test]
fn resolution_four_k_keywords_win() {
    assert_eq!(st(&map_resolution(&Some(cs("4K ultra")))), "4K");
    assert_eq!(st(&map_resolution(&Some(cs("ULTRA")))), "4K");
    assert_eq!(st(&map_resolution(&Some(cs("very high please")))), "4K");
}

#[test]
fn resolution_two_k_keywords() {
    assert_eq!(st(&map_resolution(&Some(cs("Medium")))), "2K");
    assert_eq!(st(&map_resolution(&Some(cs("2048")))), "2K");
    assert_eq!(st(&map_resolution(&Some(cs("normal")))), "2K");
}

#[test]
fn resolution_defaults_to_one_k() {
    assert_eq!(st(&map_resolution(&Some(cs("1080p")))), "1K");
    assert_eq!(st(&map_resolution(&Some(cs("low")))), "1K");
    assert_eq!(st(&map_resolution(&None)), "1K");
}

#[test]
fn resolution_first_branch_wins_on_conflict() {
    assert_eq!(st(&map_resolution(&Some(cs("2k4k")))), "4K");
}

#[test]
fn credential_store_secret_wins() {
    let r = resolve_credential(
        StoreLookup::Present(cs("secret-a")),
        Some(cs("env-b")),
        &cs("exa-search-skill"),
        &cs("API_KEY"),
    );
    match r {
        CredOutcome::Key(k) => assert_eq!(st(&k), "secret-a"),
        CredOutcome::Fatal(_) => panic!("expected a key"),
    }
}

#[test]
fn credential_falls_back_to_environment() {
    let r = resolve_credential(
        StoreLookup::Missing,
        Some(cs("env-b")),
        &cs("exa-search-skill"),
        &cs("API_KEY"),
    );
    match r {
        CredOutcome::Key(k) => assert_eq!(st(&k), "env-b"),
        CredOutcome::Fatal(_) => panic!("expected a key"),
    }
}

#[test]
fn credential_double_miss_names_both_paths() {
    let r = resolve_credential(StoreLookup::Missing, None, &cs("exa-search-skill"), &cs("API_KEY"));
    match r {
        CredOutcome::Key(_) => panic!("expected a failure"),
        CredOutcome::Fatal(msg) => assert_eq!(
            st(&msg),
            "Error: exa-search-skill:API_KEY not found in keychain (service: exa-search-skill, account: API_KEY) or environment variables."
        ),
    }
}

#[test]
fn credential_unreachable_store_is_fatal() {
    let r = resolve_credential(
        StoreLookup::Unavailable(cs("no backend")),
        Some(cs("env-b")),
        &cs("svc"),
        &cs("API_KEY"),
    );
    match r {
        CredOutcome::Key(_) => panic!("expected a failure"),
        CredOutcome::Fatal(msg) => assert_eq!(st(&msg), "Error accessing keychain: no backend"),
    }
}

#[test]
fn search_payload_escapes_the_query() {
    let p = search_payload(&cs("hi \"q\"\n"));
    assert_eq!(st(&p), "{\"query\":\"hi \\\"q\\\"\\u000a\"}");
}

#[test]
fn search_success_pretty_prints_json() {
    let r = handle_search_response(200, Some(cs("{\"answer\":\"x\"}")));
    match r {
        SearchOutcome::Print(out) => {
            let text = st(&out);
            assert!(text.contains("\"answer\": \"x\""));
            assert_eq!(text, "{\n  \"answer\": \"x\"\n}");
        },
        SearchOutcome::Fail { .. } => panic!("expected output"),
    }
}

#[test]
fn search_success_with_invalid_json_prints_raw_body() {
    let r = handle_search_response(204, Some(cs("not json")));
    match r {
        SearchOutcome::Print(out) => assert_eq!(st(&out), "not json"),
        SearchOutcome::Fail { .. } => panic!("expected output"),
    }
}

#[test]
fn search_failure_reports_status_and_body() {
    let r = handle_search_response(403, Some(cs("denied")));
    match r {
        SearchOutcome::Print(_) => panic!("expected a failure"),
        SearchOutcome::Fail { line1, line2 } => {
            assert!(st(&line1).contains("403"));
            assert_eq!(st(&line1), "Error: API request failed with status: 403");
            assert_eq!(st(&line2), "Response: denied");
        },
    }
}

#[test]
fn search_failure_with_unreadable_body() {
    let r = handle_search_response(500, None);
    match r {
        SearchOutcome::Print(_) => panic!("expected a failure"),
        SearchOutcome::Fail { line2, .. } => {
            assert_eq!(st(&line2), "Response: (empty or error reading)");
        },
    }
}

#[test]
fn pretty_print_roundtrip_is_identity() {
    let body = cs("{\"a\": [1, true, null, \"x\\n\"], \"b\": {}, \"n\": -1.5e3}");
    let v1 = parse_chars(&body).expect("valid JSON");
    let printed = to_pretty(&v1);
    let v2 = parse_chars(&printed).expect("printed text is valid JSON");
    assert_eq!(v1, v2);
    let printed_again = to_pretty(&v2);
    assert_eq!(st(&printed), st(&printed_again));
}

#[test]
fn pretty_print_matches_the_reference_serializer() {
    let body = "{\"a\":[1,true,null,\"x\"],\"b\":{},\"c\":\"y\"}";
    let ours = st(&to_pretty(&parse_chars(&cs(body)).unwrap()));
    let theirs =
        serde_json::to_string_pretty(&serde_json::from_str::<serde_json::Value>(body).unwrap())
            .unwrap();
    assert_eq!(ours, theirs);
}

#[test]
fn compact_print_keeps_structure() {
    let body = cs(" { \"k\" : [ 1 , 2 ] } ");
    let v = parse_chars(&body).unwrap();
    assert_eq!(st(&to_compact(&v)), "{\"k\":[1,2]}");
}

#[test]
fn parse_rejects_garbage_and_trailing_text() {
    assert!(parse_chars(&cs("")).is_none());
    assert!(parse_chars(&cs("{\"a\":}")).is_none());
    assert!(parse_chars(&cs("1 2")).is_none());
    assert!(parse_chars(&cs("[1,]")).is_none());
}

#[test]
fn image_url_embeds_the_credential() {
    let url = st(&image_url(&cs("KEY123")));
    assert!(url.ends_with("?key=KEY123"));
    assert!(url.starts_with("https://generativelanguage.googleapis.com/"));
}

#[test]
fn image_payload_has_prompt_and_resolution() {
    let p = st(&image_payload(&cs("a cat"), &cs("4K")));
    assert_eq!(
        p,
        "{\"contents\":[{\"parts\":[{\"text\":\"a cat\"}]}],\"generationConfig\":{\"imageConfig\":{\"imageSize\":\"4K\"}}}"
    );
}

fn inline_body(mime: &str, data: &str) -> Vec<char> {
    cs(&format!(
        "{{\"candidates\":[{{\"content\":{{\"parts\":[{{\"inlineData\":{{\"mimeType\":\"{}\",\"data\":\"{}\"}}}}]}}}}]}}",
        mime, data
    ))
}

#[test]
fn image_inline_data_is_decoded_and_saved() {
    let png_bytes: Vec<u8> = vec![137, 80, 78, 71, 13, 10, 26, 10];
    let data = base64::Engine::encode(&base64::prelude::BASE64_STANDARD, &png_bytes);
    let body = inline_body("image/png", &data);
    let r = handle_image_response(200, Some(body), &cs("1K"), &None, 1000);
    match r {
        ImageOutcome::SaveFile { path, bytes, message, decode_errors } => {
            assert_eq!(st(&path), "image_1000.png");
            assert_eq!(bytes, png_bytes);
            let m = st(&message);
            assert!(m.contains("\"status\":\"success\""));
            assert!(m.contains("\"mime_type\":\"image/png\""));
            assert!(m.contains("\"resolution\":\"1K\""));
            assert!(m.contains("\"file_path\":\"image_1000.png\""));
            assert!(decode_errors.is_empty());
        },
        _ => panic!("expected a saved file"),
    }
}

#[test]
fn image_caller_filename_wins_over_timestamp() {
    let data = base64::Engine::encode(&base64::prelude::BASE64_STANDARD, b"bytes");
    let body = inline_body("image/jpeg", &data);
    let r = handle_image_response(200, Some(body), &cs("2K"), &Some(cs("out.bin")), 7);
    match r {
        ImageOutcome::SaveFile { path, .. } => assert_eq!(st(&path), "out.bin"),
        _ => panic!("expected a saved file"),
    }
}

#[test]
fn image_file_reference_is_reported_without_writing() {
    let body = cs(
        "{\"candidates\":[{\"content\":{\"parts\":[{\"fileData\":{\"mimeType\":\"image/png\",\"fileUri\":\"https://files/abc\"}}]}}]}",
    );
    let r = handle_image_response(200, Some(body), &cs("1K"), &None, 0);
    match r {
        ImageOutcome::Print { message, decode_errors } => {
            assert_eq!(
                st(&message),
                "{\"file_uri\":\"https://files/abc\",\"message\":\"Image generated (file).\",\"mime_type\":\"image/png\",\"status\":\"success\"}"
            );
            assert!(decode_errors.is_empty());
        },
        _ => panic!("expected a printed message"),
    }
}

#[test]
fn image_without_image_shapes_dumps_the_response() {
    let body = cs("{\"foo\":1}");
    let r = handle_image_response(200, Some(body), &cs("1K"), &None, 0);
    match r {
        ImageOutcome::Print { message, decode_errors } => {
            assert_eq!(st(&message), "{\"output\":{\"foo\":1}}");
            assert!(decode_errors.is_empty());
        },
        _ => panic!("expected a printed message"),
    }
}

#[test]
fn image_invalid_json_body_becomes_error_object() {
    let r = handle_image_response(200, Some(cs("oops")), &cs("1K"), &None, 0);
    match r {
        ImageOutcome::Print { message, .. } => {
            assert_eq!(st(&message), "{\"output\":{\"error\":\"Invalid JSON response\"}}");
        },
        _ => panic!("expected a printed message"),
    }
}

#[test]
fn image_decode_failure_is_reported_and_scanning_goes_on() {
    let good = base64::Engine::encode(&base64::prelude::BASE64_STANDARD, b"picture");
    let body = cs(&format!(
        "{{\"candidates\":[{{\"content\":{{\"parts\":[{{\"inlineData\":{{\"mimeType\":\"image/png\",\"data\":\"!!!\"}}}},{{\"inlineData\":{{\"mimeType\":\"image/jpeg\",\"data\":\"{}\"}}}}]}}}}]}}",
        good
    ));
    let r = handle_image_response(200, Some(body), &cs("1K"), &None, 5);
    match r {
        ImageOutcome::SaveFile { path, bytes, decode_errors, .. } => {
            assert_eq!(st(&path), "image_5.jpeg");
            assert_eq!(bytes, b"picture".to_vec());
            assert_eq!(decode_errors.len(), 1);
            assert!(st(&decode_errors[0]).starts_with("Error decoding base64: "));
        },
        _ => panic!("expected a saved file"),
    }
}

#[test]
fn image_http_failure_reports_status() {
    let r = handle_image_response(500, Some(cs("boom")), &cs("1K"), &None, 0);
    match r {
        ImageOutcome::Fail { line1, line2 } => {
            assert_eq!(st(&line1), "Error: API request failed with status: 500");
            assert_eq!(st(&line2), "Response: boom");
        },
        _ => panic!("expected a failure"),
    }
}

#[test]
fn image_missing_mime_defaults_to_jpeg() {
    let data = base64::Engine::encode(&base64::prelude::BASE64_STANDARD, b"x");
    let body = cs(&format!(
        "{{\"candidates\":[{{\"content\":{{\"parts\":[{{\"inlineData\":{{\"data\":\"{}\"}}}}]}}}}]}}",
        data
    ));
    let r = handle_image_response(200, Some(body), &cs("1K"), &None, 9);
    match r {
        ImageOutcome::SaveFile { path, message, .. } => {
            assert_eq!(st(&path), "image_9.jpeg");
            assert!(st(&message).contains("\"mime_type\":\"image/jpeg\""));
        },
        _ => panic!("expected a saved file"),
    }
}
