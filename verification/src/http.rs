//! The decisions of the hand-rolled server: what a request line asks for,
//! what the header section of a form says, how long a form asks to wait, and
//! the bytes that open a response.
//!
//! Nothing here reads or writes. The caller reads lines and bodies, hands
//! them over as bytes, and sends what comes back.

use crate::message::Message;
use crate::text::{
    decimal, decimal_digits, number, parse_number, same, strip_prefix, strip_suffix, trim, trimmed,
    without_prefix, without_suffix,
};
use crate::text::{ends_with, starts_with};
use vstd::prelude::*;
use vstd::string::StringSliceAdditionalSpecFns;

verus! {

/// What a request line asks for.
#[derive(Clone, Copy, Debug, PartialEq, Eq, Structural)]
pub enum Target {
    /// The home page.
    Home,
    /// The home page, after a wait of ten seconds.
    Delayed,
    /// The greeting as plain text.
    Plaintext,
    /// The greeting as JSON.
    Json,
    /// The page with one image.
    Img,
    /// The page with several images.
    Imgs,
    /// The page with a video.
    Vid,
    /// A picture among the assets, named by the path.
    Jpg,
    /// A video among the assets, named by the path.
    Mp4,
    /// The greeting form.
    HelloForm,
    /// Nothing that the server has.
    Missing,
}

/// The status of a response.
#[derive(Clone, Copy, Debug, PartialEq, Eq, Structural)]
pub enum Status {
    /// 200: the request is answered.
    Success,
    /// 404: the server has no such thing.
    NotFound,
}

/// The kind of content that a response carries.
#[derive(Clone, Copy, Debug, PartialEq, Eq, Structural)]
pub enum ContentType {
    Html,
    Plain,
    Json,
    Jpg,
    Mp4,
}

/// Where the body of a response comes from.
#[derive(Debug, PartialEq, Eq)]
pub enum Source {
    /// A text file, by its path.
    File(&'static str),
    /// The text itself.
    Text(&'static str),
    /// A message, to be sent in its JSON form.
    Json(Message),
    /// The file among the assets that the request's path names.
    Asset,
}

/// What a line of a header section says.
#[derive(Clone, Copy, Debug, PartialEq, Eq, Structural)]
pub enum Header {
    /// The empty line that ends the section.
    End,
    /// The length of the body, in bytes.
    Length(usize),
    /// A length that is no number, or none that fits.
    BadLength,
    /// Anything else.
    Other,
}

/// How far the reading of a header section has come.
#[derive(Clone, Copy, Debug, PartialEq, Eq, Structural)]
pub enum Scan {
    /// The section goes on; the body's length, as far as it is known.
    More(usize),
    /// The section has ended; the body's length.
    Done(usize),
    /// The section names a length that is none.
    Bad,
}

/// The error of a form whose delay is no number, or none that fits.
#[derive(Clone, Copy, Debug, PartialEq, Eq, Structural)]
pub struct BadDelay;

/// The path of a request line that opens with `method`: what stands between
/// the method with the slash after it and the protocol version at the line's
/// end. `None` where the line has not that shape.
pub open spec fn path_in(line: Seq<u8>, method: Seq<u8>) -> Option<Seq<u8>> {
    match without_prefix(line, method + " /".spec_bytes()) {
        Some(rest) => without_suffix(rest, " HTTP/1.1\r\n".spec_bytes()),
        None => None,
    }
}

/// What a `GET` for `path` asks for. The fixed names come first; a picture or
/// a video is any other path with the right ending.
pub open spec fn get_target(path: Option<Seq<u8>>) -> Target {
    match path {
        None => Target::Missing,
        Some(p) => if p.len() == 0 {
            Target::Home
        } else if p == "delayed".spec_bytes() {
            Target::Delayed
        } else if p == "plaintext".spec_bytes() {
            Target::Plaintext
        } else if p == "json".spec_bytes() {
            Target::Json
        } else if p == "img".spec_bytes() {
            Target::Img
        } else if p == "imgs".spec_bytes() {
            Target::Imgs
        } else if p == "vid".spec_bytes() {
            Target::Vid
        } else if ".jpg".spec_bytes().is_suffix_of(p) {
            Target::Jpg
        } else if ".mp4".spec_bytes().is_suffix_of(p) {
            Target::Mp4
        } else {
            Target::Missing
        },
    }
}

/// What a `POST` to `path` asks for.
pub open spec fn post_target(path: Option<Seq<u8>>) -> Target {
    if path == Some("helloform".spec_bytes()) {
        Target::HelloForm
    } else {
        Target::Missing
    }
}

/// What a request line asks for; `None` where the line opens with neither
/// `GET` nor `POST`, and the request gets no answer at all.
pub open spec fn target_of(line: Seq<u8>) -> Option<Target> {
    if "GET".spec_bytes().is_prefix_of(line) {
        Some(get_target(path_in(line, "GET".spec_bytes())))
    } else if "POST".spec_bytes().is_prefix_of(line) {
        Some(post_target(path_in(line, "POST".spec_bytes())))
    } else {
        None
    }
}

/// What a line of a header section says.
pub open spec fn header_of(line: Seq<u8>) -> Header {
    if line == "\r\n".spec_bytes() {
        Header::End
    } else {
        match without_prefix(line, "Content-Length: ".spec_bytes()) {
            Some(value) => match number(trimmed(value), usize::MAX as nat) {
                Some(n) => Header::Length(n as usize),
                None => Header::BadLength,
            },
            None => Header::Other,
        }
    }
}

/// The reading of a header section after one more line, where `length` is
/// the body's length as the lines before gave it: a line that names a length
/// replaces it, the empty line ends the section, any other line changes
/// nothing.
pub open spec fn scan_of(length: usize, line: Seq<u8>) -> Scan {
    match header_of(line) {
        Header::End => Scan::Done(length),
        Header::Length(n) => Scan::More(n),
        Header::BadLength => Scan::Bad,
        Header::Other => Scan::More(length),
    }
}

/// The seconds that a form asks to wait before it is answered. A form of the
/// shape `delay=<seconds>&message=Hello, world!` names them; any other form
/// asks for none.
pub open spec fn delay_of(form: Seq<u8>) -> Result<u64, BadDelay> {
    match without_suffix(form, "&message=Hello, world!".spec_bytes()) {
        Some(head) => match without_prefix(head, "delay=".spec_bytes()) {
            Some(value) => match number(trimmed(value), u64::MAX as nat) {
                Some(n) => Ok(n as u64),
                None => Err(BadDelay),
            },
            None => Ok(0),
        },
        None => Ok(0),
    }
}

impl Status {
    /// The status line.
    pub open spec fn line_of(self) -> Seq<u8> {
        match self {
            Status::Success => "HTTP/1.1 200 OK".spec_bytes(),
            Status::NotFound => "HTTP/1.1 404 NOT FOUND".spec_bytes(),
        }
    }

    /// The status line.
    pub fn line(self) -> (text: &'static str)
        ensures
            text.spec_bytes() == self.line_of(),
    {
        match self {
            Status::Success => "HTTP/1.1 200 OK",
            Status::NotFound => "HTTP/1.1 404 NOT FOUND",
        }
    }
}

impl ContentType {
    /// The name of the content type, as a header gives it.
    pub open spec fn name_of(self) -> Seq<u8> {
        match self {
            ContentType::Html => "text/html".spec_bytes(),
            ContentType::Plain => "text/plain".spec_bytes(),
            ContentType::Json => "application/json".spec_bytes(),
            ContentType::Jpg => "image/jpg".spec_bytes(),
            ContentType::Mp4 => "video/mp4".spec_bytes(),
        }
    }

    /// The name of the content type, as a header gives it.
    pub fn name(self) -> (text: &'static str)
        ensures
            text.spec_bytes() == self.name_of(),
    {
        match self {
            ContentType::Html => "text/html",
            ContentType::Plain => "text/plain",
            ContentType::Json => "application/json",
            ContentType::Jpg => "image/jpg",
            ContentType::Mp4 => "video/mp4",
        }
    }

    /// Whether the body is a file's raw bytes, sent after the head and apart
    /// from it.
    pub fn is_media(self) -> (b: bool)
        ensures
            b == (self == ContentType::Jpg || self == ContentType::Mp4),
    {
        match self {
            ContentType::Jpg => true,
            ContentType::Mp4 => true,
            _ => false,
        }
    }
}

impl Target {
    /// The status of the answer.
    pub fn status(self) -> (status: Status)
        ensures
            status == if self == Target::Missing {
                Status::NotFound
            } else {
                Status::Success
            },
    {
        match self {
            Target::Missing => Status::NotFound,
            _ => Status::Success,
        }
    }

    /// The kind of content of the answer.
    pub fn content_type(self) -> (content_type: ContentType)
        ensures
            content_type == match self {
                Target::Plaintext => ContentType::Plain,
                Target::HelloForm => ContentType::Plain,
                Target::Json => ContentType::Json,
                Target::Jpg => ContentType::Jpg,
                Target::Mp4 => ContentType::Mp4,
                _ => ContentType::Html,
            },
    {
        match self {
            Target::Plaintext => ContentType::Plain,
            Target::HelloForm => ContentType::Plain,
            Target::Json => ContentType::Json,
            Target::Jpg => ContentType::Jpg,
            Target::Mp4 => ContentType::Mp4,
            _ => ContentType::Html,
        }
    }

    /// The seconds to wait before the answer that the target itself asks
    /// for. (The greeting form names its own in its body.)
    pub fn delay(self) -> (seconds: u64)
        ensures
            seconds == if self == Target::Delayed {
                10u64
            } else {
                0u64
            },
    {
        match self {
            Target::Delayed => 10,
            _ => 0,
        }
    }

    /// Where the body of the answer comes from.
    pub fn source(self) -> (source: Source)
        ensures
            match self {
                Target::Home | Target::Delayed => source matches Source::File(path) && path@
                    == "src/baseline.html"@,
                Target::Img => source matches Source::File(path) && path@ == "src/img.html"@,
                Target::Imgs => source matches Source::File(path) && path@ == "src/imgs.html"@,
                Target::Vid => source matches Source::File(path) && path@ == "src/vid.html"@,
                Target::Missing => source matches Source::File(path) && path@ == "src/404.html"@,
                Target::Plaintext => source matches Source::Text(text) && text@
                    == "Hello, world!"@,
                Target::HelloForm => source matches Source::Text(text) && text@
                    == "Hello received"@,
                Target::Json => source matches Source::Json(message) && message.message@
                    == "Hello, world!"@,
                Target::Jpg | Target::Mp4 => source is Asset,
            },
    {
        match self {
            Target::Home => Source::File("src/baseline.html"),
            Target::Delayed => Source::File("src/baseline.html"),
            Target::Img => Source::File("src/img.html"),
            Target::Imgs => Source::File("src/imgs.html"),
            Target::Vid => Source::File("src/vid.html"),
            Target::Missing => Source::File("src/404.html"),
            Target::Plaintext => Source::Text("Hello, world!"),
            Target::HelloForm => Source::Text("Hello received"),
            Target::Json => Source::Json(Message { message: "Hello, world!" }),
            Target::Jpg => Source::Asset,
            Target::Mp4 => Source::Asset,
        }
    }
}

/// The path of a request line that opens with `method`.
pub fn path<'a>(line: &'a [u8], method: &str) -> (path: Option<&'a [u8]>)
    ensures
        crate::text::held(path) == path_in(line@, method.spec_bytes()),
{
    let mut opening: Vec<u8> = Vec::new();
    append(&mut opening, method.as_bytes());
    append(&mut opening, " /".as_bytes());
    match strip_prefix(line, opening.as_slice()) {
        Some(rest) => strip_suffix(rest, " HTTP/1.1\r\n".as_bytes()),
        None => None,
    }
}

/// What a request line asks for; `None` where it opens with neither `GET`
/// nor `POST`.
pub fn target(line: &[u8]) -> (target: Option<Target>)
    ensures
        target == target_of(line@),
{
    if starts_with(line, "GET".as_bytes()) {
        match path(line, "GET") {
            None => Some(Target::Missing),
            Some(p) => if p.len() == 0 {
                Some(Target::Home)
            } else if same(p, "delayed".as_bytes()) {
                Some(Target::Delayed)
            } else if same(p, "plaintext".as_bytes()) {
                Some(Target::Plaintext)
            } else if same(p, "json".as_bytes()) {
                Some(Target::Json)
            } else if same(p, "img".as_bytes()) {
                Some(Target::Img)
            } else if same(p, "imgs".as_bytes()) {
                Some(Target::Imgs)
            } else if same(p, "vid".as_bytes()) {
                Some(Target::Vid)
            } else if ends_with(p, ".jpg".as_bytes()) {
                Some(Target::Jpg)
            } else if ends_with(p, ".mp4".as_bytes()) {
                Some(Target::Mp4)
            } else {
                Some(Target::Missing)
            },
        }
    } else if starts_with(line, "POST".as_bytes()) {
        match path(line, "POST") {
            Some(p) => if same(p, "helloform".as_bytes()) {
                Some(Target::HelloForm)
            } else {
                Some(Target::Missing)
            },
            None => Some(Target::Missing),
        }
    } else {
        None
    }
}

/// The path of the file that a request for a picture or a video names: the
/// request's path, under the assets directory.
pub fn asset_path(name: &[u8]) -> (path: Vec<u8>)
    ensures
        path@ == "assets/".spec_bytes() + name@,
{
    let mut path: Vec<u8> = Vec::new();
    append(&mut path, "assets/".as_bytes());
    append(&mut path, name);
    path
}

/// What a line of a header section says.
pub fn header(line: &[u8]) -> (header: Header)
    ensures
        header == header_of(line@),
{
    if same(line, "\r\n".as_bytes()) {
        return Header::End;
    }
    match strip_prefix(line, "Content-Length: ".as_bytes()) {
        Some(value) => match parse_number(trim(value), usize::MAX as u64) {
            Some(n) => Header::Length(n as usize),
            None => Header::BadLength,
        },
        None => Header::Other,
    }
}

/// Takes one more line of a header section into account. A body has no
/// bytes until a line says otherwise, so the reading starts with
/// `length` 0.
pub fn scan(length: usize, line: &[u8]) -> (scan: Scan)
    ensures
        scan == scan_of(length, line@),
{
    match header(line) {
        Header::End => Scan::Done(length),
        Header::Length(n) => Scan::More(n),
        Header::BadLength => Scan::Bad,
        Header::Other => Scan::More(length),
    }
}

/// The seconds that a form asks to wait before it is answered.
pub fn form_delay(form: &[u8]) -> (delay: Result<u64, BadDelay>)
    ensures
        delay == delay_of(form@),
{
    match strip_suffix(form, "&message=Hello, world!".as_bytes()) {
        Some(head) => match strip_prefix(head, "delay=".as_bytes()) {
            Some(value) => match parse_number(trim(value), u64::MAX) {
                Some(n) => Ok(n),
                None => Err(BadDelay),
            },
            None => Ok(0),
        },
        None => Ok(0),
    }
}

/// The head of a response: the status line, the content type, the length of
/// the body in bytes, and the empty line that ends the head.
pub open spec fn head_of(status: Status, content_type: ContentType, length: nat) -> Seq<u8> {
    status.line_of() + "\r\nContent-Type: ".spec_bytes() + content_type.name_of()
        + "\r\nContent-Length: ".spec_bytes() + decimal_digits(length) + "\r\n\r\n".spec_bytes()
}

/// The head of a response whose body has `length` bytes.
pub fn response_head(status: Status, content_type: ContentType, length: usize) -> (head: Vec<u8>)
    ensures
        head@ == head_of(status, content_type, length as nat),
{
    let mut head: Vec<u8> = Vec::new();
    append(&mut head, status.line().as_bytes());
    append(&mut head, "\r\nContent-Type: ".as_bytes());
    append(&mut head, content_type.name().as_bytes());
    append(&mut head, "\r\nContent-Length: ".as_bytes());
    let digits = decimal(length);
    append(&mut head, digits.as_slice());
    append(&mut head, "\r\n\r\n".as_bytes());
    assert(head@ =~= head_of(status, content_type, length as nat));
    head
}

/// A whole response: the head for `body`, and `body` after it.
pub fn response(status: Status, content_type: ContentType, body: &[u8]) -> (bytes: Vec<u8>)
    ensures
        bytes@ == head_of(status, content_type, body@.len()) + body@,
{
    let mut bytes = response_head(status, content_type, body.len());
    append(&mut bytes, body);
    bytes
}

/// Puts `bytes` at the end of `out`.
fn append(out: &mut Vec<u8>, bytes: &[u8])
    ensures
        final(out)@ == old(out)@ + bytes@,
{
    let mut i: usize = 0;
    while i < bytes.len()
        invariant
            i <= bytes.len(),
            out@ == old(out)@ + bytes@.take(i as int),
        decreases bytes.len() - i,
    {
        out.push(bytes[i]);
        i += 1;
        assert(out@ =~= old(out)@ + bytes@.take(i as int));
    }
    assert(bytes@.take(i as int) =~= bytes@);
}

/// What a head names as the length of its body, a reader of headers reads
/// back as that length: the line that `response_head` writes for a body of
/// `length` bytes is a header that gives `length`.
pub proof fn lemma_length_read_back(length: usize)
    ensures
        header_of(
            "Content-Length: ".spec_bytes() + decimal_digits(length as nat) + "\r\n".spec_bytes(),
        ) == Header::Length(length),
{
    let name = "Content-Length: ".spec_bytes();
    let digits = decimal_digits(length as nat);
    let end = "\r\n".spec_bytes();
    let line = name + digits + end;
    reveal_strlit("Content-Length: ");
    reveal_strlit("\r\n");
    vstd::string::is_ascii_spec_bytes("Content-Length: ");
    vstd::string::is_ascii_spec_bytes("\r\n");
    assert(end =~= seq![13u8, 10u8]);
    assert(name.len() == 16);
    crate::text::lemma_decimal_digits(length as nat);
    crate::text::lemma_number_of_decimal(length as nat, usize::MAX as nat);
    assert(line.len() > 2);
    assert(name =~= line.subrange(0, name.len() as int));
    let value = digits + end;
    assert(line.skip(name.len() as int) =~= value);
    assert(crate::text::is_digit(digits[0]));
    assert(crate::text::is_digit(digits.last()));
    assert(crate::text::space_before(value) == 0);
    assert(crate::text::trimmed_start(value) == value);
    let shorter = digits.push(13u8);
    assert(value.take(value.len() - 1) =~= shorter);
    assert(shorter.take(shorter.len() - 1) =~= digits);
    assert(crate::text::space_after(value) == 1);
    assert(crate::text::space_after(shorter) == 1);
    assert(crate::text::space_after(digits) == 0);
    reveal_with_fuel(crate::text::trimmed_end, 3);
    assert(crate::text::trimmed_end(value) == digits);
}

} // verus!
