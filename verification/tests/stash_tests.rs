use greed_of_exile::models::{PoeApiError, PoeItem, PoeStashResponse};
use greed_of_exile::stash::{
    check_stash_response, image_file_name, image_file_name_for_hash, image_full_url,
    stash_request, StashError,
};

#[test]
fn stash_request_encodes_the_query() {
    let req = stash_request("Name#1234", "secret", "Settlers", 3, true).unwrap();
    assert_eq!(
        req.url,
        "https://www.pathofexile.com/character-window/get-stash-items?accountName=Name%231234&realm=pc&league=Settlers&tabs=1&tabIndex=3"
    );
    assert_eq!(req.cookie, "POESESSID=secret");
}

#[test]
fn stash_request_without_tab_list() {
    let req = stash_request("a b", "", "Hardcore Settlers", 4294967295, false).unwrap();
    assert_eq!(
        req.url,
        "https://www.pathofexile.com/character-window/get-stash-items?accountName=a+b&realm=pc&league=Hardcore+Settlers&tabs=0&tabIndex=4294967295"
    );
    assert_eq!(req.cookie, "POESESSID=");
}

fn response(error: Option<PoeApiError>) -> PoeStashResponse {
    PoeStashResponse {
        error,
        tabs: None,
        items: vec![PoeItem {
            type_line: "Chaos Orb".to_string(),
            name: String::new(),
            stack_size: Some(12),
            base_type: String::new(),
            icon: String::new(),
        }],
    }
}

#[test]
fn api_errors_become_errors() {
    let r = check_stash_response(response(Some(PoeApiError { code: 6, message: "Forbidden".to_string() })));
    match r {
        Err(e) => {
            assert!(matches!(e, StashError::Api { code: 6, .. }));
            assert_eq!(e.message(), "API Error (6): Forbidden");
        }
        Ok(_) => panic!("expected an error"),
    }
    let neg = StashError::Api { code: -1, message: "x".to_string() };
    assert_eq!(neg.message(), "API Error (-1): x");
    assert_eq!(StashError::InvalidUrl.message(), "Failed to build URL");
}

#[test]
fn responses_without_error_pass() {
    let r = check_stash_response(response(None)).unwrap();
    assert_eq!(r.items.len(), 1);
    assert_eq!(r.items[0].stack_size, Some(12));
}

#[test]
fn image_urls_get_their_host() {
    assert_eq!(image_full_url(""), None);
    assert_eq!(image_full_url("//web.poecdn.com/a.png").as_deref(), Some("https://web.poecdn.com/a.png"));
    assert_eq!(
        image_full_url("/gen/image/abc.png").as_deref(),
        Some("https://web.poecdn.com/gen/image/abc.png")
    );
    assert_eq!(image_full_url("/image/x.png").as_deref(), Some("https://www.pathofexile.com/image/x.png"));
    assert_eq!(image_full_url("https://a/b.png").as_deref(), Some("https://a/b.png"));
}

#[test]
fn image_file_names() {
    assert_eq!(image_file_name_for_hash(255), "ff.png");
    assert_eq!(image_file_name_for_hash(0), "0.png");
    let url = String::from("https://web.poecdn.com/a.png");
    let a = image_file_name(&url);
    assert_eq!(a, image_file_name(&url));
    assert!(a.ends_with(".png"));
    assert!(a[..a.len() - 4].chars().all(|c| c.is_ascii_hexdigit() && !c.is_ascii_uppercase()));
    assert_ne!(a, image_file_name(&String::from("https://web.poecdn.com/b.png")));
    let mut hasher = std::collections::hash_map::DefaultHasher::new();
    std::hash::Hash::hash(&url, &mut hasher);
    assert_eq!(a, format!("{:x}.png", std::hash::Hasher::finish(&hasher)));
    // "//x" and "https://x" name the same cache file.
    let relative = image_full_url("//web.poecdn.com/a.png").unwrap();
    assert_eq!(image_file_name(&relative), a);
}
