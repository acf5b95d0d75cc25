//! The posts that the search service returns, and the requests made of it.

use crate::text::{decimal, decimal_string};
use vstd::prelude::*;
use vstd::string::*;

verus! {

#[derive(Debug)]
pub struct PostFile {
    pub width: u32,
    pub height: u32,
    pub ext: String,
    pub size: u32,
    pub md5: String,
    pub url: Option<String>,
}

#[derive(Debug)]
pub struct PostPreview {
    pub width: u32,
    pub height: u32,
    pub url: Option<String>,
}

#[derive(Debug)]
pub struct PostSample {
    pub has: bool,
    pub width: u32,
    pub height: u32,
    pub url: Option<String>,
}

#[derive(Debug)]
pub struct PostScore {
    pub up: u32,
    pub down: i32,
    pub total: i32,
}

#[derive(Debug)]
pub struct PostTags {
    pub general: Vec<String>,
    pub species: Vec<String>,
    pub character: Vec<String>,
    pub copyright: Vec<String>,
    pub artist: Vec<String>,
    pub invalid: Vec<String>,
    pub lore: Vec<String>,
    pub meta: Vec<String>,
}

#[derive(Debug)]
pub struct PostFlags {
    pub pending: bool,
    pub flagged: bool,
    pub note_locked: bool,
    pub status_locked: bool,
    pub rating_locked: bool,
    pub deleted: bool,
}

#[derive(Debug)]
pub struct PostRelationships {
    pub parent_id: Option<u32>,
    pub has_children: bool,
    pub has_active_children: bool,
    pub children: Vec<u32>,
}

/// One search result. The playing time of animated posts is not kept: nothing
/// here reads it.
#[derive(Debug)]
pub struct Post {
    pub id: u32,
    pub description: String,
    pub created_at: String,
    pub updated_at: String,
    pub tags: PostTags,
    pub file: PostFile,
    pub preview: PostPreview,
    pub sample: PostSample,
    pub score: PostScore,
    pub locked_tags: Vec<String>,
    pub change_seq: u32,
    pub flags: PostFlags,
    pub rating: PostRating,
    pub fav_count: u32,
    pub sources: Vec<String>,
    pub pools: Vec<u32>,
    pub relationships: PostRelationships,
    pub approver_id: Option<u32>,
    pub uploader_id: u32,
    pub comment_count: u32,
    pub is_favorited: bool,
    pub has_notes: bool,
}

#[derive(Debug, Clone, Copy, PartialEq, Eq)]
pub enum PostRating {
    Safe,
    Questionable,
    Explicit,
}

/// The characters of each string of a list, in the list's order.
pub open spec fn strings_view(list: Seq<String>) -> Seq<Seq<char>> {
    list.map_values(|s: String| s@)
}

/// The characters of a string that may be absent.
pub open spec fn optional_view(s: Option<String>) -> Option<Seq<char>> {
    match s {
        Some(s) => Some(s@),
        None => None,
    }
}

/// The tags of a post, category by category, each in the order received.
pub struct TagSets {
    pub general: Seq<Seq<char>>,
    pub species: Seq<Seq<char>>,
    pub character: Seq<Seq<char>>,
    pub copyright: Seq<Seq<char>>,
    pub artist: Seq<Seq<char>>,
    pub invalid: Seq<Seq<char>>,
    pub lore: Seq<Seq<char>>,
    pub meta: Seq<Seq<char>>,
}

impl TagSets {
    /// Whether `tag` stands in any category.
    pub open spec fn contains(self, tag: Seq<char>) -> bool {
        ||| self.general.contains(tag)
        ||| self.species.contains(tag)
        ||| self.character.contains(tag)
        ||| self.copyright.contains(tag)
        ||| self.artist.contains(tag)
        ||| self.invalid.contains(tag)
        ||| self.lore.contains(tag)
        ||| self.meta.contains(tag)
    }
}

/// What grouping and downloading read of a post.
pub struct ResultItem {
    pub id: u32,
    pub ext: Seq<char>,
    pub url: Option<Seq<char>>,
    pub tags: TagSets,
    pub pools: Seq<u32>,
    pub rating: PostRating,
}

impl View for PostTags {
    type V = TagSets;

    open spec fn view(&self) -> TagSets {
        TagSets {
            general: strings_view(self.general@),
            species: strings_view(self.species@),
            character: strings_view(self.character@),
            copyright: strings_view(self.copyright@),
            artist: strings_view(self.artist@),
            invalid: strings_view(self.invalid@),
            lore: strings_view(self.lore@),
            meta: strings_view(self.meta@),
        }
    }
}

impl View for Post {
    type V = ResultItem;

    open spec fn view(&self) -> ResultItem {
        ResultItem {
            id: self.id,
            ext: self.file.ext@,
            url: optional_view(self.file.url),
            tags: self.tags@,
            pools: self.pools@,
            rating: self.rating,
        }
    }
}

/// Whether `tag` is one of the strings of `list`.
fn list_contains(list: &Vec<String>, tag: &String) -> (found: bool)
    ensures
        found == strings_view(list@).contains(tag@),
{
    let mut i: usize = 0;
    while i < list.len()
        invariant
            i <= list.len(),
            forall|j: int| 0 <= j < i ==> strings_view(list@)[j] != tag@,
        decreases list.len() - i,
    {
        if list[i] == *tag {
            assert(strings_view(list@)[i as int] == tag@);
            return true;
        }
        i = i + 1;
    }
    false
}

impl PostTags {
    /// Whether the post carries `tag`, in whatever category.
    pub fn contains(&self, tag: &String) -> (found: bool)
        ensures
            found == self@.contains(tag@),
    {
        list_contains(&self.general, tag) || list_contains(&self.species, tag) || list_contains(
            &self.character,
            tag,
        ) || list_contains(&self.copyright, tag) || list_contains(&self.artist, tag)
            || list_contains(&self.invalid, tag) || list_contains(&self.lore, tag)
            || list_contains(&self.meta, tag)
    }
}

impl PostRating {
    /// The rating's name, written out.
    pub open spec fn name(self) -> Seq<char> {
        match self {
            PostRating::Safe => "safe"@,
            PostRating::Questionable => "questionable"@,
            PostRating::Explicit => "explicit"@,
        }
    }

    pub fn to_string(&self) -> (s: String)
        ensures
            s@ == self.name(),
    {
        match self {
            PostRating::Safe => "safe",
            PostRating::Questionable => "questionable",
            PostRating::Explicit => "explicit",
        }.to_owned()
    }
}

/// A failure of the service, or of a post to offer what was asked of it.
#[derive(Debug)]
pub struct ApiError {
    details: String,
}

impl View for ApiError {
    type V = Seq<char>;

    /// The message.
    closed spec fn view(&self) -> Seq<char> {
        self.details@
    }
}

impl ApiError {
    pub fn new(msg: &str) -> (e: ApiError)
        ensures
            e@ == msg@,
    {
        ApiError { details: msg.to_owned() }
    }

    /// The message, borrowed.
    pub fn description(&self) -> (d: &str)
        ensures
            d@ == self@,
    {
        self.details.as_str()
    }

    /// The message, as the user reads it.
    pub fn to_string(&self) -> (s: String)
        ensures
            s@ == self@,
    {
        self.details.clone()
    }
}

/// What is reported of a post that has no file to fetch.
pub open spec fn no_file_message() -> Seq<char> {
    "post has no downloadable file (a tag might be blacklisted)"@
}

/// The address a post's file is fetched from. A post whose file is withheld
/// has none, and fails with `no_file_message`.
pub fn download_url(post: &Post) -> (r: Result<&String, ApiError>)
    ensures
        match r {
            Ok(url) => post@.url == Some(url@),
            Err(e) => post@.url is None && e@ == no_file_message(),
        },
{
    match &post.file.url {
        Some(url) => Ok(url),
        None => Err(
            ApiError::new("post has no downloadable file (a tag might be blacklisted)"),
        ),
    }
}

/// One search query, ready to be sent.
#[derive(Debug)]
pub struct SearchRequest {
    pub url: String,
    pub user_agent: String,
    pub query: Vec<(String, String)>,
}

/// A search query as plain text.
pub struct SearchRequestView {
    pub url: Seq<char>,
    pub user_agent: Seq<char>,
    pub query: Seq<(Seq<char>, Seq<char>)>,
}

impl View for SearchRequest {
    type V = SearchRequestView;

    open spec fn view(&self) -> SearchRequestView {
        SearchRequestView {
            url: self.url@,
            user_agent: self.user_agent@,
            query: self.query@.map_values(|p: (String, String)| (p.0@, p.1@)),
        }
    }
}

/// The host that answers: the filtered site for a safe-for-work search, the
/// unfiltered one otherwise.
pub open spec fn search_domain(sfw: bool) -> Seq<char> {
    if sfw {
        "e926.net"@
    } else {
        "e621.net"@
    }
}

/// The query for one page of results: which address is asked, under which
/// name, and with which parameters, in the order they are sent.
pub open spec fn search_request_spec(
    tags: Seq<char>,
    limit: u32,
    page: Seq<char>,
    sfw: bool,
) -> SearchRequestView {
    SearchRequestView {
        url: "https://"@ + search_domain(sfw) + "/posts.json"@,
        user_agent: "e6dl: rust edition (@tjhorner on Telegram)"@,
        query: seq![("tags"@, tags), ("page"@, page), ("limit"@, decimal(limit as nat))],
    }
}

/// Builds the query for one page of results. `page` is handed on as it is:
/// a page number, or a cursor before or after a post.
pub fn search_request(tags: &str, limit: u32, page: &str, sfw: bool) -> (r: SearchRequest)
    ensures
        r@ == search_request_spec(tags@, limit, page@, sfw),
{
    let domain = if sfw {
        "e926.net"
    } else {
        "e621.net"
    };
    let mut url = "https://".to_owned();
    url.append(domain);
    url.append("/posts.json");
    let mut query: Vec<(String, String)> = Vec::new();
    query.push(("tags".to_owned(), tags.to_owned()));
    query.push(("page".to_owned(), page.to_owned()));
    query.push(("limit".to_owned(), decimal_string(limit as u64)));
    let r = SearchRequest {
        url,
        user_agent: "e6dl: rust edition (@tjhorner on Telegram)".to_owned(),
        query,
    };
    assert(r@.query =~= search_request_spec(tags@, limit, page@, sfw).query);
    r
}

} // verus!
