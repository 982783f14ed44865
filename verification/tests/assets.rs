use live_server::asset::{
    directory_index, resolve, respond, respond_unmapped, route, ReadOutcome, Route, Status,
};
use live_server::content_type::{content_type_for, extension_of, ContentType};
use live_server::inject::RELOAD_SCRIPT;

#[test]
fn other_files_are_served_byte_for_byte() {
    let bytes = vec![0u8, 159, 146, 150, b'<', b'/', b'b', b'o', b'd', b'y', b'>', 255];
    let r = respond(b"img/logo.png", ReadOutcome::Found(bytes.clone()), RELOAD_SCRIPT.as_bytes());
    assert_eq!(r.status, Status::Success);
    assert_eq!(r.status.code(), 200);
    assert_eq!(r.content_type, ContentType::Png);
    assert_eq!(r.content_type.mime(), "image/png");
    assert_eq!(r.body, bytes);

    let css = b"body { color: red }".to_vec();
    let r = respond(b"style.css", ReadOutcome::Found(css.clone()), RELOAD_SCRIPT.as_bytes());
    assert_eq!(r.content_type.mime(), "text/css");
    assert_eq!(r.body, css);
}

#[test]
fn html_files_are_served_with_the_script() {
    let html = b"<html><body>Hi</body></html>".to_vec();
    let r = respond(b"index.html", ReadOutcome::Found(html), b"<script>x</script>");
    assert_eq!(r.status, Status::Success);
    assert_eq!(r.content_type, ContentType::Html);
    assert_eq!(r.content_type.mime(), "text/html");
    assert_eq!(r.body, b"<html><body>Hi<script>x</script></body></html>".to_vec());
}

#[test]
fn missing_file_is_not_found() {
    let r = respond(b"nope.txt", ReadOutcome::Missing, b"<script>x</script>");
    assert_eq!(r.status, Status::NotFound);
    assert_eq!(r.status.code(), 404);
    assert!(r.body.is_empty());
    let r = respond(b"nope.html", ReadOutcome::Missing, b"<script>x</script>");
    assert_eq!(r.status, Status::NotFound);
    assert_eq!(r.content_type, ContentType::Html);
    assert!(r.body.is_empty());
}

#[test]
fn unreadable_file_is_a_server_error() {
    let r = respond(b"secret.html", ReadOutcome::Failed, b"<script>x</script>");
    assert_eq!(r.status, Status::ServerError);
    assert_eq!(r.status.code(), 500);
    assert!(r.body.is_empty());
}

#[test]
fn unmapped_path_is_not_found() {
    let r = respond_unmapped();
    assert_eq!(r.status, Status::NotFound);
    assert_eq!(r.status.code(), 404);
    assert_eq!(r.content_type, ContentType::OctetStream);
    assert!(r.body.is_empty());
}

#[test]
fn url_path_maps_to_the_file_below_the_root() {
    assert_eq!(resolve(b"/"), Some(b"".to_vec()));
    assert_eq!(resolve(b"/index.html"), Some(b"index.html".to_vec()));
    assert_eq!(resolve(b"/a/b/c.css"), Some(b"a/b/c.css".to_vec()));
    assert_eq!(resolve(b"/docs/"), Some(b"docs/".to_vec()));
    assert_eq!(resolve(b"/a..b/..c/d.."), Some(b"a..b/..c/d..".to_vec()));
    assert_eq!(resolve(b"/.../x"), Some(b".../x".to_vec()));
    assert_eq!(resolve(b"/./x"), Some(b"./x".to_vec()));
}

#[test]
fn url_path_that_leaves_the_root_maps_to_nothing() {
    assert_eq!(resolve(b""), None);
    assert_eq!(resolve(b"index.html"), None);
    assert_eq!(resolve(b"/.."), None);
    assert_eq!(resolve(b"/../etc/passwd"), None);
    assert_eq!(resolve(b"/a/../../b"), None);
    assert_eq!(resolve(b"/a/.."), None);
    assert_eq!(resolve(b"/a/../b"), None);
    assert_eq!(resolve(b"//etc/passwd"), None);
    assert_eq!(resolve(b"//"), None);
}

#[test]
fn directory_is_served_by_its_index_file() {
    assert_eq!(directory_index(b""), b"index.html".to_vec());
    assert_eq!(directory_index(b"docs"), b"docs/index.html".to_vec());
    assert_eq!(directory_index(b"docs/"), b"docs/index.html".to_vec());
    assert_eq!(directory_index(b"a/b"), b"a/b/index.html".to_vec());
    assert_eq!(content_type_for(&directory_index(b"docs")), ContentType::Html);
}

#[test]
fn reload_endpoint_has_its_own_route() {
    assert_eq!(route(b"/live-server-ws"), Route::ReloadEndpoint);
    assert_eq!(route(b"/live-server-ws/"), Route::Asset);
    assert_eq!(route(b"/LIVE-SERVER-WS"), Route::Asset);
    assert_eq!(route(b"/"), Route::Asset);
    assert_eq!(route(b"/index.html"), Route::Asset);
    assert_eq!(route(b""), Route::Asset);
}

#[test]
fn extension_is_what_follows_the_last_dot_of_the_name() {
    assert_eq!(extension_of(b"index.html"), b"html".to_vec());
    assert_eq!(extension_of(b"a/b.c/d.tar.GZ"), b"gz".to_vec());
    assert_eq!(extension_of(b"a.b/readme"), b"".to_vec());
    assert_eq!(extension_of(b"Makefile"), b"".to_vec());
    assert_eq!(extension_of(b"trailing."), b"".to_vec());
    assert_eq!(extension_of(b".hidden"), b"hidden".to_vec());
    assert_eq!(extension_of(b""), b"".to_vec());
    assert_eq!(extension_of(b"dir.d/"), b"".to_vec());
}

#[test]
fn content_type_follows_the_extension() {
    let table: [(&[u8], ContentType, &str); 33] = [
        (b"a.html", ContentType::Html, "text/html"),
        (b"a.htm", ContentType::Html, "text/html"),
        (b"a.css", ContentType::Css, "text/css"),
        (b"a.js", ContentType::JavaScript, "text/javascript"),
        (b"a.mjs", ContentType::JavaScript, "text/javascript"),
        (b"a.json", ContentType::Json, "application/json"),
        (b"a.map", ContentType::Json, "application/json"),
        (b"a.xml", ContentType::Xml, "text/xml"),
        (b"a.txt", ContentType::Text, "text/plain"),
        (b"a.csv", ContentType::Csv, "text/csv"),
        (b"a.md", ContentType::Markdown, "text/markdown"),
        (b"a.svg", ContentType::Svg, "image/svg+xml"),
        (b"a.png", ContentType::Png, "image/png"),
        (b"a.jpg", ContentType::Jpeg, "image/jpeg"),
        (b"a.jpeg", ContentType::Jpeg, "image/jpeg"),
        (b"a.gif", ContentType::Gif, "image/gif"),
        (b"a.webp", ContentType::WebP, "image/webp"),
        (b"a.ico", ContentType::Icon, "image/x-icon"),
        (b"a.bmp", ContentType::Bmp, "image/bmp"),
        (b"a.avif", ContentType::Avif, "image/avif"),
        (b"a.woff", ContentType::Woff, "font/woff"),
        (b"a.woff2", ContentType::Woff2, "font/woff2"),
        (b"a.ttf", ContentType::Ttf, "font/ttf"),
        (b"a.otf", ContentType::Otf, "font/otf"),
        (b"a.wasm", ContentType::Wasm, "application/wasm"),
        (b"a.pdf", ContentType::Pdf, "application/pdf"),
        (b"a.mp3", ContentType::Mp3, "audio/mpeg"),
        (b"a.wav", ContentType::Wav, "audio/wav"),
        (b"a.ogg", ContentType::Ogg, "audio/ogg"),
        (b"a.mp4", ContentType::Mp4, "video/mp4"),
        (b"a.webm", ContentType::WebM, "video/webm"),
        (b"a.zip", ContentType::Zip, "application/zip"),
        (b"a.unknown", ContentType::OctetStream, "application/octet-stream"),
    ];
    for (path, content_type, mime) in table {
        assert_eq!(content_type_for(path), content_type);
        assert_eq!(content_type.mime(), mime);
        assert_eq!(content_type.is_html(), mime == "text/html");
    }
}

#[test]
fn content_type_ignores_the_case_of_the_extension() {
    assert_eq!(content_type_for(b"INDEX.HTML"), ContentType::Html);
    assert_eq!(content_type_for(b"photo.JpEg"), ContentType::Jpeg);
    assert_eq!(content_type_for(b"no_extension"), ContentType::OctetStream);
    assert_eq!(content_type_for(b"html"), ContentType::OctetStream);
    assert_eq!(content_type_for(b"page.html/"), ContentType::OctetStream);
    assert_eq!(content_type_for(b"page.html.bak"), ContentType::OctetStream);
}

#[test]
fn every_file_below_the_root_has_a_url() {
    for path in ["index.html", "a/b/c.png", "docs/", "", "x..y/z"] {
        let url = format!("/{path}");
        assert_eq!(resolve(url.as_bytes()), Some(path.as_bytes().to_vec()));
    }
}
