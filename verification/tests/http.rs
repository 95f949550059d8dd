use baseline::http::{
    asset_path, form_delay, header, path, response, response_head, scan, target, BadDelay,
    ContentType, Header, Scan, Source, Status, Target,
};
use baseline::Message;

#[test]
fn a_get_is_routed_by_its_path() {
    assert_eq!(target(b"GET / HTTP/1.1\r\n"), Some(Target::Home));
    assert_eq!(target(b"GET /delayed HTTP/1.1\r\n"), Some(Target::Delayed));
    assert_eq!(target(b"GET /plaintext HTTP/1.1\r\n"), Some(Target::Plaintext));
    assert_eq!(target(b"GET /json HTTP/1.1\r\n"), Some(Target::Json));
    assert_eq!(target(b"GET /img HTTP/1.1\r\n"), Some(Target::Img));
    assert_eq!(target(b"GET /imgs HTTP/1.1\r\n"), Some(Target::Imgs));
    assert_eq!(target(b"GET /vid HTTP/1.1\r\n"), Some(Target::Vid));
    assert_eq!(target(b"GET /0.jpg HTTP/1.1\r\n"), Some(Target::Jpg));
    assert_eq!(target(b"GET /.jpg HTTP/1.1\r\n"), Some(Target::Jpg));
    assert_eq!(target(b"GET /a/b.mp4 HTTP/1.1\r\n"), Some(Target::Mp4));
    assert_eq!(target(b"GET /0.jpg.mp4 HTTP/1.1\r\n"), Some(Target::Mp4));
    assert_eq!(target(b"GET /0.mp4.jpg HTTP/1.1\r\n"), Some(Target::Jpg));
}

#[test]
fn a_get_for_anything_else_is_missing() {
    assert_eq!(target(b"GET /nothing HTTP/1.1\r\n"), Some(Target::Missing));
    assert_eq!(target(b"GET /helloform HTTP/1.1\r\n"), Some(Target::Missing));
    assert_eq!(target(b"GET /Json HTTP/1.1\r\n"), Some(Target::Missing));
    assert_eq!(target(b"GET /json/ HTTP/1.1\r\n"), Some(Target::Missing));
    assert_eq!(target(b"GET /0.JPG HTTP/1.1\r\n"), Some(Target::Missing));
    assert_eq!(target(b"GET /0.jpg?x HTTP/1.1\r\n"), Some(Target::Missing));
}

#[test]
fn a_line_of_another_shape_is_missing() {
    assert_eq!(target(b"GET / HTTP/1.0\r\n"), Some(Target::Missing));
    assert_eq!(target(b"GET / HTTP/1.1\n"), Some(Target::Missing));
    assert_eq!(target(b"GET / HTTP/1.1"), Some(Target::Missing));
    assert_eq!(target(b"GET  / HTTP/1.1\r\n"), Some(Target::Missing));
    assert_eq!(target(b"GET json HTTP/1.1\r\n"), Some(Target::Missing));
    assert_eq!(target(b"GETX / HTTP/1.1\r\n"), Some(Target::Missing));
    assert_eq!(target(b"GET"), Some(Target::Missing));
    assert_eq!(target(b"POST"), Some(Target::Missing));
    assert_eq!(target(b"POSTAL /helloform HTTP/1.1\r\n"), Some(Target::Missing));
}

#[test]
fn a_post_reaches_the_form_alone() {
    assert_eq!(target(b"POST /helloform HTTP/1.1\r\n"), Some(Target::HelloForm));
    assert_eq!(target(b"POST / HTTP/1.1\r\n"), Some(Target::Missing));
    assert_eq!(target(b"POST /json HTTP/1.1\r\n"), Some(Target::Missing));
    assert_eq!(target(b"POST /0.jpg HTTP/1.1\r\n"), Some(Target::Missing));
    assert_eq!(target(b"POST /helloform HTTP/1.0\r\n"), Some(Target::Missing));
}

#[test]
fn other_methods_get_no_answer() {
    assert_eq!(target(b"PUT / HTTP/1.1\r\n"), None);
    assert_eq!(target(b"get / HTTP/1.1\r\n"), None);
    assert_eq!(target(b" GET / HTTP/1.1\r\n"), None);
    assert_eq!(target(b"GE"), None);
    assert_eq!(target(b"POS"), None);
    assert_eq!(target(b""), None);
}

#[test]
fn the_path_stands_between_method_and_version() {
    assert_eq!(path(b"GET /a/b.mp4 HTTP/1.1\r\n", "GET"), Some(&b"a/b.mp4"[..]));
    assert_eq!(path(b"GET / HTTP/1.1\r\n", "GET"), Some(&b""[..]));
    assert_eq!(path(b"POST /helloform HTTP/1.1\r\n", "POST"), Some(&b"helloform"[..]));
    assert_eq!(path(b"POST /helloform HTTP/1.1\r\n", "GET"), None);
    assert_eq!(path(b"GET /x HTTP/1.1", "GET"), None);
    assert_eq!(path(b"GET / HTTP/1.1 HTTP/1.1\r\n", "GET"), Some(&b" HTTP/1.1"[..]));
}

#[test]
fn what_each_target_is_answered_with() {
    let pages = [
        (Target::Home, "src/baseline.html"),
        (Target::Delayed, "src/baseline.html"),
        (Target::Img, "src/img.html"),
        (Target::Imgs, "src/imgs.html"),
        (Target::Vid, "src/vid.html"),
        (Target::Missing, "src/404.html"),
    ];
    for (target, file) in pages {
        assert_eq!(target.source(), Source::File(file));
        assert_eq!(target.content_type(), ContentType::Html);
    }
    assert_eq!(Target::Plaintext.source(), Source::Text("Hello, world!"));
    assert_eq!(Target::Plaintext.content_type(), ContentType::Plain);
    assert_eq!(Target::HelloForm.source(), Source::Text("Hello received"));
    assert_eq!(Target::HelloForm.content_type(), ContentType::Plain);
    assert_eq!(Target::Json.source(), Source::Json(Message { message: "Hello, world!" }));
    assert_eq!(Target::Json.content_type(), ContentType::Json);
    assert_eq!(Target::Jpg.source(), Source::Asset);
    assert_eq!(Target::Jpg.content_type(), ContentType::Jpg);
    assert_eq!(Target::Mp4.source(), Source::Asset);
    assert_eq!(Target::Mp4.content_type(), ContentType::Mp4);
}

#[test]
fn only_what_is_missing_is_not_found_and_only_delayed_waits() {
    let all = [
        Target::Home, Target::Delayed, Target::Plaintext, Target::Json, Target::Img,
        Target::Imgs, Target::Vid, Target::Jpg, Target::Mp4, Target::HelloForm, Target::Missing,
    ];
    for target in all {
        let status = if target == Target::Missing { Status::NotFound } else { Status::Success };
        assert_eq!(target.status(), status);
        let delay = if target == Target::Delayed { 10 } else { 0 };
        assert_eq!(target.delay(), delay);
    }
}

#[test]
fn status_lines_and_content_types() {
    assert_eq!(Status::Success.line(), "HTTP/1.1 200 OK");
    assert_eq!(Status::NotFound.line(), "HTTP/1.1 404 NOT FOUND");
    assert_eq!(ContentType::Html.name(), "text/html");
    assert_eq!(ContentType::Plain.name(), "text/plain");
    assert_eq!(ContentType::Json.name(), "application/json");
    assert_eq!(ContentType::Jpg.name(), "image/jpg");
    assert_eq!(ContentType::Mp4.name(), "video/mp4");
    assert!(ContentType::Jpg.is_media());
    assert!(ContentType::Mp4.is_media());
    assert!(!ContentType::Html.is_media());
    assert!(!ContentType::Plain.is_media());
    assert!(!ContentType::Json.is_media());
}

#[test]
fn an_asset_lies_under_the_assets_directory() {
    assert_eq!(asset_path(b"0.jpg"), b"assets/0.jpg".to_vec());
    assert_eq!(asset_path(b"a/b.mp4"), b"assets/a/b.mp4".to_vec());
    assert_eq!(asset_path(b""), b"assets/".to_vec());
}

#[test]
fn header_lines() {
    assert_eq!(header(b"\r\n"), Header::End);
    assert_eq!(header(b"Content-Length: 37\r\n"), Header::Length(37));
    assert_eq!(header(b"Content-Length:   37  \r\n"), Header::Length(37));
    assert_eq!(header(b"Content-Length: +37"), Header::Length(37));
    assert_eq!(header(b"Content-Length: 0\r\n"), Header::Length(0));
    assert_eq!(header(b"Content-Length: \r\n"), Header::BadLength);
    assert_eq!(header(b"Content-Length: 3 7\r\n"), Header::BadLength);
    assert_eq!(header(b"Content-Length: -1\r\n"), Header::BadLength);
    assert_eq!(header(b"Content-Length: ten\r\n"), Header::BadLength);
    assert_eq!(header(b"Content-Length: 99999999999999999999999\r\n"), Header::BadLength);
    assert_eq!(header(b"Content-Length:37\r\n"), Header::Other);
    assert_eq!(header(b"content-length: 37\r\n"), Header::Other);
    assert_eq!(header(b" Content-Length: 37\r\n"), Header::Other);
    assert_eq!(header(b"Host: localhost:8000\r\n"), Header::Other);
    assert_eq!(header(b"\n"), Header::Other);
    assert_eq!(header(b""), Header::Other);
    assert_eq!(header(b"\r\n\r\n"), Header::Other);
}

#[test]
fn the_largest_length_is_the_largest_usize() {
    let most = format!("Content-Length: {}\r\n", usize::MAX);
    assert_eq!(header(most.as_bytes()), Header::Length(usize::MAX));
    let more = format!("Content-Length: {}0\r\n", usize::MAX);
    assert_eq!(header(more.as_bytes()), Header::BadLength);
}

#[test]
fn the_delay_of_a_form() {
    assert_eq!(form_delay(b"delay=3&message=Hello, world!"), Ok(3));
    assert_eq!(form_delay(b"delay=0&message=Hello, world!"), Ok(0));
    assert_eq!(form_delay(b"delay= 12 &message=Hello, world!"), Ok(12));
    assert_eq!(form_delay(b"delay=+7&message=Hello, world!"), Ok(7));
    assert_eq!(
        form_delay(b"delay=18446744073709551615&message=Hello, world!"),
        Ok(u64::MAX)
    );
    assert_eq!(form_delay(b"delay=18446744073709551616&message=Hello, world!"), Err(BadDelay));
    assert_eq!(form_delay(b"delay=&message=Hello, world!"), Err(BadDelay));
    assert_eq!(form_delay(b"delay=soon&message=Hello, world!"), Err(BadDelay));
    assert_eq!(form_delay(b"delay=-3&message=Hello, world!"), Err(BadDelay));
    assert_eq!(form_delay(b"delay=3&x=1&message=Hello, world!"), Err(BadDelay));
}

#[test]
fn a_form_of_another_shape_asks_for_no_delay() {
    assert_eq!(form_delay(b""), Ok(0));
    assert_eq!(form_delay(b"&message=Hello, world!"), Ok(0));
    assert_eq!(form_delay(b"wait=3&message=Hello, world!"), Ok(0));
    assert_eq!(form_delay(b"delay=3&message=Hello, World!"), Ok(0));
    assert_eq!(form_delay(b"delay=3&message=Hello, world!\r\n"), Ok(0));
    assert_eq!(form_delay(b"delay=3"), Ok(0));
    assert_eq!(form_delay(b"delay=soon"), Ok(0));
    assert_eq!(form_delay(b"message=Hello, world!&delay=3"), Ok(0));
}

#[test]
fn the_head_of_a_response() {
    assert_eq!(
        response_head(Status::Success, ContentType::Plain, 13),
        b"HTTP/1.1 200 OK\r\nContent-Type: text/plain\r\nContent-Length: 13\r\n\r\n".to_vec()
    );
    assert_eq!(
        response_head(Status::NotFound, ContentType::Html, 0),
        b"HTTP/1.1 404 NOT FOUND\r\nContent-Type: text/html\r\nContent-Length: 0\r\n\r\n".to_vec()
    );
    assert_eq!(
        response_head(Status::Success, ContentType::Jpg, 1048576),
        b"HTTP/1.1 200 OK\r\nContent-Type: image/jpg\r\nContent-Length: 1048576\r\n\r\n".to_vec()
    );
}

#[test]
fn a_whole_response() {
    assert_eq!(
        response(Status::Success, ContentType::Plain, b"Hello, world!"),
        b"HTTP/1.1 200 OK\r\nContent-Type: text/plain\r\nContent-Length: 13\r\n\r\nHello, world!"
            .to_vec()
    );
    assert_eq!(
        response(Status::Success, ContentType::Json, b"{\"message\":\"Hello, world!\"}"),
        b"HTTP/1.1 200 OK\r\nContent-Type: application/json\r\nContent-Length: 27\r\n\r\n{\"message\":\"Hello, world!\"}"
            .to_vec()
    );
    assert_eq!(
        response(Status::NotFound, ContentType::Html, b""),
        b"HTTP/1.1 404 NOT FOUND\r\nContent-Type: text/html\r\nContent-Length: 0\r\n\r\n".to_vec()
    );
}

#[test]
fn the_length_counts_bytes() {
    let body = "h\u{00e9}llo".as_bytes();
    let sent = response(Status::Success, ContentType::Html, body);
    assert!(sent.starts_with(b"HTTP/1.1 200 OK\r\nContent-Type: text/html\r\nContent-Length: 6\r\n\r\n"));
    assert!(sent.ends_with(body));
}

#[test]
fn a_header_section_is_read_line_by_line() {
    assert_eq!(scan(0, b"Host: localhost:8000\r\n"), Scan::More(0));
    assert_eq!(scan(0, b"Content-Length: 29\r\n"), Scan::More(29));
    assert_eq!(scan(29, b"Content-Type: application/x-www-form-urlencoded\r\n"), Scan::More(29));
    assert_eq!(scan(29, b"Content-Length: 31\r\n"), Scan::More(31));
    assert_eq!(scan(31, b"\r\n"), Scan::Done(31));
    assert_eq!(scan(0, b"\r\n"), Scan::Done(0));
    assert_eq!(scan(31, b"Content-Length: many\r\n"), Scan::Bad);
    assert_eq!(scan(7, b""), Scan::More(7));
}

#[test]
fn a_whole_form_request() {
    assert_eq!(target(b"POST /helloform HTTP/1.1\r\n"), Some(Target::HelloForm));
    let lines: [&[u8]; 4] = [
        b"Host: 127.0.0.1:8000\r\n",
        b"Content-Type: application/x-www-form-urlencoded\r\n",
        b"Content-Length: 29\r\n",
        b"\r\n",
    ];
    let mut length = 0;
    let mut ended = false;
    for line in lines {
        match scan(length, line) {
            Scan::More(n) => length = n,
            Scan::Done(n) => {
                length = n;
                ended = true;
            }
            Scan::Bad => panic!("the length is a number"),
        }
    }
    assert!(ended);
    let form = b"delay=2&message=Hello, world!";
    assert_eq!(length, form.len());
    assert_eq!(form_delay(form), Ok(2));
    assert_eq!(
        response(Target::HelloForm.status(), Target::HelloForm.content_type(), b"Hello received"),
        b"HTTP/1.1 200 OK\r\nContent-Type: text/plain\r\nContent-Length: 14\r\n\r\nHello received"
            .to_vec()
    );
}

#[test]
fn the_length_that_a_head_names_is_read_back() {
    for length in [0usize, 9, 27, 1000, usize::MAX] {
        let head = response_head(Status::Success, ContentType::Html, length);
        let lines: Vec<&[u8]> = head.split_inclusive(|b| *b == b'\n').collect();
        assert_eq!(lines.len(), 4);
        assert_eq!(header(lines[0]), Header::Other);
        assert_eq!(header(lines[1]), Header::Other);
        assert_eq!(header(lines[2]), Header::Length(length));
        assert_eq!(header(lines[3]), Header::End);
    }
}
