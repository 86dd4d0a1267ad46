use h123::service::{file_response, path_components, Part};
use h123::StaticFileService;

#[test]
fn parent_components_cannot_escape_root() {
    let service = StaticFileService::new("/srv/www");
    assert_eq!(service.real_path_of("/../../etc/passwd"), b"/srv/www/etc/passwd".to_vec());
    assert_eq!(service.real_path_of("/a/../b"), b"/srv/www/a/b".to_vec());
    assert_eq!(service.real_path_of("//x//./y/"), b"/srv/www/x/y".to_vec());
    assert_eq!(service.real_path_of("/"), b"/srv/www".to_vec());
}

#[test]
fn relative_root() {
    let service = StaticFileService::new("./site/");
    assert_eq!(service.real_path_of("/index.html"), b"./site/index.html".to_vec());
    let service = StaticFileService::new("site");
    assert_eq!(service.real_path_of("../x"), b"site/x".to_vec());
}

#[test]
fn components_of_paths() {
    let parts = path_components(b"/a/./../b");
    assert_eq!(parts.len(), 4);
    assert!(matches!(parts[0], Part::Root));
    assert!(matches!(&parts[1], Part::Normal(n) if n == b"a"));
    assert!(matches!(parts[2], Part::Parent));
    assert!(matches!(&parts[3], Part::Normal(n) if n == b"b"));
    assert!(path_components(b"").is_empty());
    assert!(matches!(path_components(b"./x")[0], Part::Current));
}

#[test]
fn missing_file_is_404() {
    let service = StaticFileService::new("/srv/www");
    let path = service.real_path_of("/../../etc/passwd");
    let r = service.response_for(&path, None);
    assert_eq!(r.status, 404);
    assert!(r.headers.is_empty());
    assert!(r.body.is_empty());
}

#[test]
fn found_file_is_200_with_guessed_type() {
    let service = StaticFileService::new("/srv/www");
    let path = service.real_path_of("/index.html");
    let r = service.response_for(&path, Some(b"<html></html>".to_vec()));
    assert_eq!(r.status, 200);
    assert_eq!(r.headers.len(), 1);
    assert_eq!(r.headers[0].name, "content-type");
    assert_eq!(r.headers[0].value, b"text/html".to_vec());
    assert_eq!(r.body, b"<html></html>".to_vec());
    let r = service.response_for(&b"/srv/www/blob".to_vec(), Some(vec![1, 2]));
    assert_eq!(r.headers[0].value, b"application/octet-stream".to_vec());
}

#[test]
fn file_response_exact() {
    let r = file_response(Some(b"body".to_vec()), "text/plain");
    assert_eq!(r.status, 200);
    assert_eq!(r.headers[0].value, b"text/plain".to_vec());
    let r = file_response(None, "text/plain");
    assert_eq!(r.status, 404);
}
