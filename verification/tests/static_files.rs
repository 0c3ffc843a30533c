use static_assets::content_type::mime_for_path;
use static_assets::handler::{FileHandler, FilePathExtractor, FileSystemHandler};
use static_assets::response::{create_file_response, ReadError, Response};

const ROOT: &str = "resources/test/static_files";

/// The files that the handlers under test can read, by path.
fn read(path: &str) -> Result<Vec<u8>, ReadError> {
    match path {
        "resources/test/static_files/doc.html" => Ok(b"<html>I am a doc.</html>".to_vec()),
        "resources/test/static_files/styles/style.css" => {
            Ok(b".styled { border: none; }".to_vec())
        }
        "resources/test/static_files/scripts/script.js" => {
            Ok(b"console.log('I am javascript!');".to_vec())
        }
        "resources/test/private_files/secret.txt" => Ok(b"secret".to_vec()),
        "resources/test/static_files/locked.txt" => Err(ReadError::PermissionDenied),
        "resources/test/static_files" => Err(ReadError::Other),
        _ => Err(ReadError::NotFound),
    }
}

/// The segments that a router mounted at `/*` captures from `url`.
fn capture(url: &str) -> FilePathExtractor {
    let path = url.strip_prefix("http://localhost/").unwrap();
    FilePathExtractor::new(path.split('/').map(|part| part.to_string()).collect())
}

/// Serves `url` from the directory handler bound to `ROOT`.
fn get(url: &str) -> Response {
    let handler = FileSystemHandler::new(ROOT.to_string()).new_handler();
    let path = handler.resolve(&capture(url));
    create_file_response(&path, read(&path))
}

fn content_type(response: &Response) -> &str {
    response.body.as_ref().unwrap().content_type.as_str()
}

fn content(response: &Response) -> &[u8] {
    &response.body.as_ref().unwrap().content[..]
}

#[test]
fn static_get_html() {
    let response = get("http://localhost/doc.html");

    assert_eq!(response.status, 200);
    assert_eq!(content_type(&response), "text/html");

    assert_eq!(content(&response), b"<html>I am a doc.</html>");
}

#[test]
fn static_get_css() {
    let response = get("http://localhost/styles/style.css");

    assert_eq!(response.status, 200);
    assert_eq!(content_type(&response), "text/css");

    assert_eq!(content(&response), b".styled { border: none; }");
}

#[test]
fn static_get_js() {
    let response = get("http://localhost/scripts/script.js");

    assert_eq!(response.status, 200);
    assert_eq!(content_type(&response), "application/javascript");

    assert_eq!(content(&response), b"console.log('I am javascript!');");
}

#[test]
fn static_traverse_parent() {
    let response = get("http://localhost/../private_files/secret.txt");

    assert_eq!(response.status, 404);
}

#[test]
fn static_single_file() {
    let handler = FileHandler::new("resources/test/static_files/doc.html".to_string());
    let _ = capture("http://localhost/");

    let path = handler.new_handler().resolve();
    let response = create_file_response(&path, read(&path));

    assert_eq!(response.status, 200);
    assert_eq!(content_type(&response), "text/html");

    assert_eq!(content(&response), b"<html>I am a doc.</html>");
}

#[test]
fn traversal_never_reads_outside_the_root() {
    let handler = FileSystemHandler::new(ROOT.to_string());
    let path = handler.resolve(&capture("http://localhost/../private_files/secret.txt"));
    assert_eq!(path, "resources/test/static_files/private_files/secret.txt");

    let response = get("http://localhost/../../../../private_files/secret.txt");
    assert_eq!(response.status, 404);
    assert_eq!(content(&response), b"404 Not Found");
    assert_eq!(content_type(&response), "text/plain");
}

#[test]
fn encoded_separators_cannot_escape() {
    let handler = FileSystemHandler::new(ROOT.to_string());
    let request = FilePathExtractor::new(vec!["styles/../../private_files/secret.txt".to_string()]);
    assert_eq!(
        handler.resolve(&request),
        "resources/test/static_files/private_files/secret.txt"
    );
    let request = FilePathExtractor::new(vec!["/etc/passwd".to_string()]);
    assert_eq!(handler.resolve(&request), "resources/test/static_files/etc/passwd");
}

#[test]
fn missing_file_is_not_found() {
    let response = get("http://localhost/missing.html");
    assert_eq!(response.status, 404);
    assert_eq!(content_type(&response), "text/plain");
    assert_eq!(content(&response), b"404 Not Found");
}

#[test]
fn unreadable_file_is_forbidden() {
    let response = get("http://localhost/locked.txt");
    assert_eq!(response.status, 403);
    assert_eq!(content_type(&response), "text/plain");
    assert_eq!(content(&response), b"403 Forbidden");
}

#[test]
fn empty_request_resolves_to_the_root() {
    let handler = FileSystemHandler::new(ROOT.to_string());
    assert_eq!(handler.resolve(&FilePathExtractor::new(Vec::new())), ROOT);
    assert_eq!(handler.resolve(&capture("http://localhost/")), ROOT);
    assert_eq!(handler.resolve(&capture("http://localhost/../..")), ROOT);
    assert_eq!(handler.resolve(&capture("http://localhost/a/./..")), ROOT);

    let response = get("http://localhost/");
    assert_eq!(response.status, 500);
    assert_eq!(content(&response), b"500 Internal Server Error");
}

#[test]
fn single_file_ignores_the_request() {
    let handler = FileHandler::new("resources/test/static_files/doc.html".to_string());
    let first = handler.new_handler().resolve();
    let second = handler.new_handler().resolve();
    assert_eq!(first, "resources/test/static_files/doc.html");
    assert_eq!(first, second);
    assert_eq!(mime_for_path(&first), "text/html");
}

#[test]
fn fresh_handlers_resolve_alike() {
    let handler = FileSystemHandler::new("/srv/www/".to_string());
    let request = capture("http://localhost/a/b.txt");
    assert_eq!(handler.resolve(&request), "/srv/www/a/b.txt");
    assert_eq!(handler.new_handler().resolve(&request), "/srv/www/a/b.txt");
    assert_eq!(request.parts(), &vec!["a".to_string(), "b.txt".to_string()]);
}

#[test]
fn malformed_capture_is_a_bad_request() {
    let mut response = Response { status: 200, body: None };
    FilePathExtractor::extend(&mut response);
    assert_eq!(response.status, 400);
    assert!(response.body.is_none());

    let mut response = get("http://localhost/doc.html");
    FilePathExtractor::extend(&mut response);
    assert_eq!(response.status, 400);
    assert_eq!(content(&response), b"<html>I am a doc.</html>");
}
