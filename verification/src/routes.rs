//! The routes of the site: which page answers which method and path, and the
//! rule by which the greeting form is judged.

use crate::text::same;
use vstd::prelude::*;
use vstd::string::StringSliceAdditionalSpecFns;

verus! {

/// The request methods that the site answers.
#[derive(Clone, Copy, Debug, PartialEq, Eq, Structural)]
pub enum Method {
    Get,
    Post,
}

/// The pages of the site.
#[derive(Clone, Copy, Debug, PartialEq, Eq, Structural)]
pub enum Page {
    Index,
    Delayed,
    Plaintext,
    Json,
    Img,
    Imgs,
    Vid,
    HelloForm,
}

/// One route: the page that answers a method and a path.
#[derive(Clone, Copy, Debug, PartialEq, Eq)]
pub struct Route {
    pub method: Method,
    pub path: &'static str,
    pub page: Page,
}

/// What is mounted, and where: the routes under `base`, and the directory
/// `files` whose files are served under `base` as well.
pub struct Mounts {
    pub base: &'static str,
    pub routes: Vec<Route>,
    pub files: &'static str,
}

impl Mounts {
    /// Whether route `i` sends `method` on `path` to `page`.
    pub open spec fn sends(&self, i: int, method: Method, path: &str, page: Page) -> bool {
        &&& 0 <= i < self.routes@.len()
        &&& self.routes@[i].method == method
        &&& self.routes@[i].path@ == path@
        &&& self.routes@[i].page == page
    }
}

/// The mounts of the site: eight routes at the root, in the order in which
/// they are tried, and the directory of static files.
pub fn rocket() -> (site: Mounts)
    ensures
        site.base@ == "/"@,
        site.files@ == "/assets"@,
        site.routes@.len() == 8,
        site.sends(0, Method::Get, "/", Page::Index),
        site.sends(1, Method::Get, "/delayed", Page::Delayed),
        site.sends(2, Method::Get, "/plaintext", Page::Plaintext),
        site.sends(3, Method::Get, "/json", Page::Json),
        site.sends(4, Method::Get, "/img", Page::Img),
        site.sends(5, Method::Get, "/imgs", Page::Imgs),
        site.sends(6, Method::Get, "/vid", Page::Vid),
        site.sends(7, Method::Post, "/helloform", Page::HelloForm),
{
    let mut routes: Vec<Route> = Vec::new();
    routes.push(Route { method: Method::Get, path: "/", page: Page::Index });
    routes.push(Route { method: Method::Get, path: "/delayed", page: Page::Delayed });
    routes.push(Route { method: Method::Get, path: "/plaintext", page: Page::Plaintext });
    routes.push(Route { method: Method::Get, path: "/json", page: Page::Json });
    routes.push(Route { method: Method::Get, path: "/img", page: Page::Img });
    routes.push(Route { method: Method::Get, path: "/imgs", page: Page::Imgs });
    routes.push(Route { method: Method::Get, path: "/vid", page: Page::Vid });
    routes.push(Route { method: Method::Post, path: "/helloform", page: Page::HelloForm });
    Mounts { base: "/", routes, files: "/assets" }
}

/// The rule of the greeting form: a form is accepted where its message is
/// the greeting, letter for letter, and is a bad request otherwise.
pub fn hello_form(message: &str) -> (accepted: bool)
    ensures
        accepted == (message@ == "Hello, world!"@),
{
    let accepted = same(message.as_bytes(), "Hello, world!".as_bytes());
    proof {
        vstd::utf8::encode_utf8_decode_utf8(message@);
        vstd::utf8::encode_utf8_decode_utf8("Hello, world!"@);
    }
    accepted
}

} // verus!
