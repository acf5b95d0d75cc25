use e6dl::api::{
    download_url, search_request, ApiError, Post, PostFile, PostFlags, PostPreview, PostRating,
    PostRelationships, PostSample, PostScore, PostTags,
};
use e6dl::errors::ParseError;

fn strings(items: &[&str]) -> Vec<String> {
    items.iter().map(|s| s.to_string()).collect()
}

fn tags() -> PostTags {
    PostTags {
        general: strings(&["fur", "smile"]),
        species: strings(&["wolf"]),
        character: strings(&["balto"]),
        copyright: strings(&["universal"]),
        artist: strings(&["alice", "bob"]),
        invalid: strings(&["oops"]),
        lore: strings(&["legend"]),
        meta: strings(&["hi_res"]),
    }
}

fn post(id: u32, url: Option<&str>) -> Post {
    Post {
        id,
        description: String::new(),
        created_at: "2020-01-01".to_string(),
        updated_at: "2020-01-02".to_string(),
        tags: tags(),
        file: PostFile {
            width: 10,
            height: 20,
            ext: "png".to_string(),
            size: 1234,
            md5: "00ff".to_string(),
            url: url.map(|u| u.to_string()),
        },
        preview: PostPreview { width: 1, height: 2, url: None },
        sample: PostSample { has: false, width: 1, height: 2, url: None },
        score: PostScore { up: 3, down: -1, total: 2 },
        locked_tags: Vec::new(),
        change_seq: 7,
        flags: PostFlags {
            pending: false,
            flagged: false,
            note_locked: false,
            status_locked: false,
            rating_locked: false,
            deleted: false,
        },
        rating: PostRating::Safe,
        fav_count: 0,
        sources: Vec::new(),
        pools: Vec::new(),
        relationships: PostRelationships {
            parent_id: None,
            has_children: false,
            has_active_children: false,
            children: Vec::new(),
        },
        approver_id: None,
        uploader_id: 1,
        comment_count: 0,
        is_favorited: false,
        has_notes: false,
    }
}

#[test]
fn contains_finds_a_tag_in_every_category() {
    let t = tags();
    for tag in ["fur", "smile", "wolf", "balto", "universal", "alice", "bob", "oops", "legend", "hi_res"] {
        assert!(t.contains(&tag.to_string()), "{}", tag);
    }
}

#[test]
fn contains_misses_what_is_not_a_tag() {
    let t = tags();
    for tag in ["", "fu", "furr", "Fur", "wolf ", "carol"] {
        assert!(!t.contains(&tag.to_string()), "{:?}", tag);
    }
}

#[test]
fn contains_on_a_post_without_tags() {
    let t = PostTags {
        general: Vec::new(),
        species: Vec::new(),
        character: Vec::new(),
        copyright: Vec::new(),
        artist: Vec::new(),
        invalid: Vec::new(),
        lore: Vec::new(),
        meta: Vec::new(),
    };
    assert!(!t.contains(&"fur".to_string()));
    assert!(!t.contains(&String::new()));
}

#[test]
fn rating_names() {
    assert_eq!(PostRating::Safe.to_string(), "safe");
    assert_eq!(PostRating::Questionable.to_string(), "questionable");
    assert_eq!(PostRating::Explicit.to_string(), "explicit");
}

#[test]
fn api_error_keeps_its_message() {
    let e = ApiError::new("no luck");
    assert_eq!(e.description(), "no luck");
    assert_eq!(e.to_string(), "no luck");
    assert_eq!(ApiError::new("").to_string(), "");
}

#[test]
fn parse_error_keeps_its_message() {
    let e = ParseError::new("invalid post grouping `x`");
    assert_eq!(e.description(), "invalid post grouping `x`");
    assert_eq!(e.to_string(), "invalid post grouping `x`");
}

#[test]
fn download_url_of_a_post_with_a_file() {
    let p = post(1, Some("https://static.example/a.png"));
    let url = download_url(&p);
    assert!(matches!(url, Ok(u) if u == "https://static.example/a.png"));
}

#[test]
fn download_url_of_a_post_without_a_file() {
    let p = post(1, None);
    match download_url(&p) {
        Ok(_) => panic!("a withheld file has no address"),
        Err(e) => assert_eq!(
            e.to_string(),
            "post has no downloadable file (a tag might be blacklisted)"
        ),
    }
}

#[test]
fn search_request_for_the_unfiltered_site() {
    let r = search_request("wolf rating:s", 10, "1", false);
    assert_eq!(r.url, "https://e621.net/posts.json");
    assert_eq!(r.user_agent, "e6dl: rust edition (@tjhorner on Telegram)");
    assert_eq!(
        r.query,
        vec![
            ("tags".to_string(), "wolf rating:s".to_string()),
            ("page".to_string(), "1".to_string()),
            ("limit".to_string(), "10".to_string()),
        ]
    );
}

#[test]
fn search_request_for_the_filtered_site() {
    let r = search_request("", 320, "b4567", true);
    assert_eq!(r.url, "https://e926.net/posts.json");
    assert_eq!(
        r.query,
        vec![
            ("tags".to_string(), String::new()),
            ("page".to_string(), "b4567".to_string()),
            ("limit".to_string(), "320".to_string()),
        ]
    );
}

#[test]
fn search_request_writes_the_largest_limit() {
    let r = search_request("x", u32::MAX, "a1", false);
    assert_eq!(r.query[2], ("limit".to_string(), "4294967295".to_string()));
    let z = search_request("x", 0, "a1", false);
    assert_eq!(z.query[2].1, "0");
}
