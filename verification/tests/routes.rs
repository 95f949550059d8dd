use baseline::rocket;
use baseline::routes::{hello_form, Method, Page, Route};

#[test]
fn the_site_mounts_eight_routes_and_the_assets() {
    let site = rocket();
    assert_eq!(site.base, "/");
    assert_eq!(site.files, "/assets");
    let expected = vec![
        Route { method: Method::Get, path: "/", page: Page::Index },
        Route { method: Method::Get, path: "/delayed", page: Page::Delayed },
        Route { method: Method::Get, path: "/plaintext", page: Page::Plaintext },
        Route { method: Method::Get, path: "/json", page: Page::Json },
        Route { method: Method::Get, path: "/img", page: Page::Img },
        Route { method: Method::Get, path: "/imgs", page: Page::Imgs },
        Route { method: Method::Get, path: "/vid", page: Page::Vid },
        Route { method: Method::Post, path: "/helloform", page: Page::HelloForm },
    ];
    assert_eq!(site.routes, expected);
}

#[test]
fn only_the_greeting_is_accepted() {
    assert!(hello_form("Hello, world!"));
    assert!(!hello_form("Hello, World!"));
    assert!(!hello_form("Hello, world"));
    assert!(!hello_form("Hello, world!!"));
    assert!(!hello_form(" Hello, world!"));
    assert!(!hello_form(""));
    assert!(!hello_form("H\u{00e9}llo, world!"));
}
