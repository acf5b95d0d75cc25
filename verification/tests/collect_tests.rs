use e6dl::api::{
    ApiError, Post, PostFile, PostFlags, PostPreview, PostRating, PostRelationships, PostSample,
    PostScore, PostTags,
};
use e6dl::collect::{PageCollector, PageOutcome, PageReport};

fn post(id: u32) -> Post {
    Post {
        id,
        description: String::new(),
        created_at: String::new(),
        updated_at: String::new(),
        tags: PostTags {
            general: Vec::new(),
            species: Vec::new(),
            character: Vec::new(),
            copyright: Vec::new(),
            artist: Vec::new(),
            invalid: Vec::new(),
            lore: Vec::new(),
            meta: Vec::new(),
        },
        file: PostFile {
            width: 1,
            height: 1,
            ext: "png".to_string(),
            size: 1,
            md5: String::new(),
            url: None,
        },
        preview: PostPreview { width: 1, height: 1, url: None },
        sample: PostSample { has: false, width: 1, height: 1, url: None },
        score: PostScore { up: 0, down: 0, total: 0 },
        locked_tags: Vec::new(),
        change_seq: 0,
        flags: PostFlags {
            pending: false,
            flagged: false,
            note_locked: false,
            status_locked: false,
            rating_locked: false,
            deleted: false,
        },
        rating: PostRating::Safe,
        fav_count: 0,
        sources: Vec::new(),
        pools: Vec::new(),
        relationships: PostRelationships {
            parent_id: None,
            has_children: false,
            has_active_children: false,
            children: Vec::new(),
        },
        approver_id: None,
        uploader_id: 0,
        comment_count: 0,
        is_favorited: false,
        has_notes: false,
    }
}

fn loaded(ids: &[u32]) -> PageOutcome {
    PageOutcome::Loaded(ids.iter().map(|id| post(*id)).collect())
}

fn failed() -> PageOutcome {
    PageOutcome::Failed("connection reset".to_string())
}

fn collector(page: &str, pages: u32) -> PageCollector {
    match PageCollector::new(page, pages) {
        Ok(c) => c,
        Err(e) => panic!("{}", e.to_string()),
    }
}

/// Runs a collection against answers prepared in advance, one for each
/// query. Gives the pages asked for and the result.
fn collect(page: &str, pages: u32, answers: Vec<PageOutcome>) -> (Vec<String>, Result<Vec<u32>, ApiError>) {
    let mut c = collector(page, pages);
    let mut asked = Vec::new();
    let mut answers = answers.into_iter();
    while let Some(p) = c.next_page() {
        asked.push(p);
        c.record(answers.next().expect("more queries than answers"));
    }
    (asked, c.finish().map(|posts| posts.iter().map(|p| p.id).collect()))
}

fn ids(r: Result<Vec<u32>, ApiError>) -> Vec<u32> {
    match r {
        Ok(ids) => ids,
        Err(e) => panic!("{}", e.to_string()),
    }
}

#[test]
fn a_cursor_with_several_pages_is_refused() {
    for (page, pages) in [("a13", 2u32), ("b7", 5), ("", 2), ("one", u32::MAX), ("-1", 3), ("4294967296", 2)] {
        match PageCollector::new(page, pages) {
            Ok(_) => panic!("{:?} was accepted for {} pages", page, pages),
            Err(e) => assert_eq!(
                e.to_string(),
                "When providing the `pages` argument, the `page` argument must be numeric; before/after syntax is not supported."
            ),
        }
    }
}

#[test]
fn a_number_with_several_pages_is_accepted() {
    for (page, pages) in [("1", 2u32), ("0", 5), ("+3", 2), ("007", 9), ("4294967295", u32::MAX)] {
        assert!(PageCollector::new(page, pages).is_ok(), "{:?}", page);
    }
}

#[test]
fn a_single_page_may_be_a_cursor() {
    let (asked, r) = collect("a13", 1, vec![loaded(&[14, 15, 16])]);
    assert_eq!(asked, vec!["a13"]);
    assert_eq!(ids(r), vec![14, 15, 16]);
}

#[test]
fn a_single_page_is_asked_for_as_written() {
    let (asked, r) = collect("007", 1, vec![loaded(&[1])]);
    assert_eq!(asked, vec!["007"]);
    assert_eq!(ids(r), vec![1]);
}

#[test]
fn a_single_empty_page_gives_no_posts() {
    let (asked, r) = collect("3", 1, vec![loaded(&[])]);
    assert_eq!(asked, vec!["3"]);
    assert_eq!(ids(r), Vec::<u32>::new());
}

#[test]
fn a_single_page_that_fails_fails_the_collection() {
    let (asked, r) = collect("b9", 1, vec![failed()]);
    assert_eq!(asked, vec!["b9"]);
    match r {
        Ok(_) => panic!("the only query failed"),
        Err(e) => assert_eq!(e.to_string(), "connection reset"),
    }
}

#[test]
fn pages_are_asked_for_in_order_and_joined() {
    let (asked, r) = collect("2", 3, vec![loaded(&[1, 2]), loaded(&[3]), loaded(&[4, 5, 6])]);
    assert_eq!(asked, vec!["2", "3", "4"]);
    assert_eq!(ids(r), vec![1, 2, 3, 4, 5, 6]);
}

#[test]
fn posts_are_not_sorted() {
    let (_, r) = collect("1", 2, vec![loaded(&[9, 3, 7]), loaded(&[8, 1])]);
    assert_eq!(ids(r), vec![9, 3, 7, 8, 1]);
}

#[test]
fn the_first_empty_page_ends_the_collection() {
    let (asked, r) = collect("1", 10, vec![loaded(&[1, 2]), loaded(&[3]), loaded(&[]), loaded(&[99])]);
    assert_eq!(asked, vec!["1", "2", "3"]);
    assert_eq!(ids(r), vec![1, 2, 3]);
}

#[test]
fn an_empty_first_page_ends_the_collection_at_once() {
    let (asked, r) = collect("5", 4, vec![loaded(&[]), loaded(&[1])]);
    assert_eq!(asked, vec!["5"]);
    assert_eq!(ids(r), Vec::<u32>::new());
}

#[test]
fn a_failed_page_is_passed_over() {
    let (asked, r) = collect("1", 3, vec![loaded(&[1]), failed(), loaded(&[2, 3])]);
    assert_eq!(asked, vec!["1", "2", "3"]);
    assert_eq!(ids(r), vec![1, 2, 3]);
}

#[test]
fn failed_pages_do_not_fail_the_collection() {
    let (asked, r) = collect("1", 3, vec![failed(), failed(), failed()]);
    assert_eq!(asked, vec!["1", "2", "3"]);
    assert_eq!(ids(r), Vec::<u32>::new());
}

#[test]
fn a_failure_before_the_empty_page_changes_nothing_else() {
    let (asked, r) = collect("4", 9, vec![failed(), loaded(&[7]), failed(), loaded(&[8]), loaded(&[]), loaded(&[9])]);
    assert_eq!(asked, vec!["4", "5", "6", "7", "8"]);
    assert_eq!(ids(r), vec![7, 8]);
}

#[test]
fn no_pages_means_no_queries() {
    let (asked, r) = collect("1", 0, Vec::new());
    assert!(asked.is_empty());
    assert_eq!(ids(r), Vec::<u32>::new());
    let (asked, r) = collect("a13", 0, Vec::new());
    assert!(asked.is_empty());
    assert_eq!(ids(r), Vec::<u32>::new());
}

#[test]
fn page_numbers_go_on_past_the_largest_start() {
    let (asked, r) = collect("4294967295", 3, vec![loaded(&[1]), loaded(&[2]), loaded(&[3])]);
    assert_eq!(asked, vec!["4294967295", "4294967296", "4294967297"]);
    assert_eq!(ids(r), vec![1, 2, 3]);
}

#[test]
fn several_pages_are_counted_from_the_number_written() {
    let (asked, _) = collect("+07", 2, vec![loaded(&[1]), loaded(&[2])]);
    assert_eq!(asked, vec!["7", "8"]);
}

#[test]
fn answers_after_the_end_are_ignored() {
    let mut c = collector("1", 2);
    c.record(loaded(&[1]));
    c.record(loaded(&[]));
    assert_eq!(c.next_page(), None);
    c.record(loaded(&[5, 6]));
    c.record(failed());
    assert_eq!(c.next_page(), None);
    assert_eq!(ids(c.finish().map(|posts| posts.iter().map(|p| p.id).collect())), vec![1]);
}

#[test]
fn next_page_does_not_move_the_collection() {
    let c = collector("8", 2);
    assert_eq!(c.next_page(), Some("8".to_string()));
    assert_eq!(c.next_page(), Some("8".to_string()));
}

#[test]
fn finish_before_the_end_gives_what_was_collected() {
    let mut c = collector("1", 5);
    c.record(loaded(&[4, 2]));
    assert_eq!(c.next_page(), Some("2".to_string()));
    assert_eq!(ids(c.finish().map(|posts| posts.iter().map(|p| p.id).collect())), vec![4, 2]);
}

#[test]
fn pages_with_posts_are_not_reported() {
    let mut c = collector("1", 3);
    assert_eq!(c.record(loaded(&[1])), PageReport::Nothing);
    assert_eq!(c.record(loaded(&[2, 3])), PageReport::Nothing);
}

#[test]
fn the_end_of_the_results_is_reported_with_its_page() {
    let mut c = collector("6", 3);
    assert_eq!(c.record(loaded(&[1])), PageReport::Nothing);
    assert_eq!(c.record(loaded(&[])), PageReport::EndOfResults("7".to_string()));
    assert_eq!(c.record(loaded(&[])), PageReport::Nothing);
}

#[test]
fn a_failed_page_is_reported_with_its_page_and_reason() {
    let mut c = collector("6", 3);
    assert_eq!(
        c.record(failed()),
        PageReport::PageSkipped("6".to_string(), "connection reset".to_string())
    );
    assert_eq!(
        c.record(PageOutcome::Failed("bad gateway".to_string())),
        PageReport::PageSkipped("7".to_string(), "bad gateway".to_string())
    );
    assert_eq!(c.next_page(), Some("8".to_string()));
}

#[test]
fn a_single_page_is_not_reported() {
    let mut c = collector("a13", 1);
    assert_eq!(c.record(failed()), PageReport::Nothing);
    let mut c = collector("a13", 1);
    assert_eq!(c.record(loaded(&[])), PageReport::Nothing);
}
