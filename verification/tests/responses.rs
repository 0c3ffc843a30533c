use static_assets::content_type::{content_type_from_guess, mime_for_path};
use static_assets::response::{
    create_file_response, error_response, error_status, file_response_with_guess, ReadError,
    BAD_REQUEST, FORBIDDEN, INTERNAL_SERVER_ERROR, NOT_FOUND, OK,
};

#[test]
fn known_extensions_have_their_types() {
    assert_eq!(mime_for_path("doc.html"), "text/html");
    assert_eq!(mime_for_path("styles/style.css"), "text/css");
    assert_eq!(mime_for_path("scripts/script.js"), "application/javascript");
    assert_eq!(mime_for_path("/srv/www/picture.png"), "image/png");
    assert_eq!(mime_for_path("notes.txt"), "text/plain");
}

#[test]
fn extension_lookup_ignores_case() {
    assert_eq!(mime_for_path("DOC.HTML"), "text/html");
}

#[test]
fn unknown_or_missing_extension_is_plain_text() {
    assert_eq!(mime_for_path("archive.no-such-extension"), "text/plain");
    assert_eq!(mime_for_path("Makefile"), "text/plain");
    assert_eq!(mime_for_path(".hidden"), "text/plain");
    assert_eq!(mime_for_path("dir.html/file"), "text/plain");
    assert_eq!(mime_for_path(""), "text/plain");
}

#[test]
fn guess_decides_the_content_type() {
    assert_eq!(content_type_from_guess(Some("image/png".to_string())), "image/png");
    assert_eq!(content_type_from_guess(None), "text/plain");
}

#[test]
fn status_codes_have_their_numbers() {
    assert_eq!(OK, 200);
    assert_eq!(BAD_REQUEST, 400);
    assert_eq!(FORBIDDEN, 403);
    assert_eq!(NOT_FOUND, 404);
    assert_eq!(INTERNAL_SERVER_ERROR, 500);
}

#[test]
fn each_read_error_has_its_status() {
    assert_eq!(error_status(ReadError::NotFound), 404);
    assert_eq!(error_status(ReadError::PermissionDenied), 403);
    assert_eq!(error_status(ReadError::Other), 500);
}

#[test]
fn error_bodies_name_the_status() {
    let response = error_response(ReadError::NotFound);
    assert_eq!(response.status, 404);
    let body = response.body.unwrap();
    assert_eq!(body.content, b"404 Not Found".to_vec());
    assert_eq!(body.content_type, "text/plain");

    let response = error_response(ReadError::PermissionDenied);
    assert_eq!(response.status, 403);
    let body = response.body.unwrap();
    assert_eq!(body.content, b"403 Forbidden".to_vec());
    assert_eq!(body.content_type, "text/plain");

    let response = error_response(ReadError::Other);
    assert_eq!(response.status, 500);
    let body = response.body.unwrap();
    assert_eq!(body.content, b"500 Internal Server Error".to_vec());
    assert_eq!(body.content_type, "text/plain");
}

#[test]
fn file_is_served_whole() {
    let content: Vec<u8> = (0..=255).collect();
    let response = create_file_response("blob.bin", Ok(content.clone()));
    assert_eq!(response.status, 200);
    let body = response.body.unwrap();
    assert_eq!(body.content, content);
    assert_eq!(body.content_type, "application/octet-stream");
}

#[test]
fn empty_file_is_served() {
    let response = create_file_response("empty.html", Ok(Vec::new()));
    assert_eq!(response.status, 200);
    let body = response.body.unwrap();
    assert!(body.content.is_empty());
    assert_eq!(body.content_type, "text/html");
}

#[test]
fn failed_read_ignores_the_path() {
    let response = create_file_response("secret/doc.html", Err(ReadError::NotFound));
    assert_eq!(response.status, 404);
    let body = response.body.unwrap();
    assert_eq!(body.content, b"404 Not Found".to_vec());
    assert_eq!(body.content_type, "text/plain");
}

#[test]
fn response_from_a_given_guess() {
    let response = file_response_with_guess(b"x".to_vec(), Some("text/css".to_string()));
    assert_eq!(response.status, 200);
    let body = response.body.unwrap();
    assert_eq!(body.content, b"x".to_vec());
    assert_eq!(body.content_type, "text/css");

    let response = file_response_with_guess(b"y".to_vec(), None);
    assert_eq!(response.body.unwrap().content_type, "text/plain");
}
