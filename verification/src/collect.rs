//! Collecting the posts of a search, page by page.
//!
//! A `PageCollector` never talks to the service. It names the page to ask
//! for next, is told what the service answered, and ends the collection at
//! the first page that comes back empty or when the pages asked for are used
//! up. A page that fails is passed over.

use crate::api::{optional_view, ApiError, Post};
use crate::errors::ParseError;
use crate::text::{decimal, decimal_string, is_numeric, parse_u32, parse_u32_spec};
use vstd::prelude::*;
use vstd::string::*;

verus! {

/// What the service answered to the query for one page.
#[derive(Debug)]
pub enum PageOutcome {
    /// The posts of the page; none where the results have ended.
    Loaded(Vec<Post>),
    /// The query failed, for the reason given.
    Failed(String),
}

/// An answer of the service as plain data.
pub enum PageResult {
    Loaded(Seq<Post>),
    Failed(Seq<char>),
}

impl View for PageOutcome {
    type V = PageResult;

    open spec fn view(&self) -> PageResult {
        match self {
            PageOutcome::Loaded(posts) => PageResult::Loaded(posts@),
            PageOutcome::Failed(reason) => PageResult::Failed(reason@),
        }
    }
}

impl PageResult {
    /// The posts that an answer brought: those of a page that loaded, none
    /// for a query that failed.
    pub open spec fn posts(self) -> Seq<Post> {
        match self {
            PageResult::Loaded(posts) => posts,
            PageResult::Failed(_) => Seq::empty(),
        }
    }

    /// Whether the answer is a page without posts: the end of the results.
    pub open spec fn is_end(self) -> bool {
        self matches PageResult::Loaded(posts) && posts.len() == 0
    }
}

/// What is to be told of an answer, beyond the posts it brought.
#[derive(Debug, PartialEq, Eq)]
pub enum PageReport {
    /// Nothing.
    Nothing,
    /// The results have ended: this page came back empty.
    EndOfResults(String),
    /// This page could not be had, for the reason given, and is passed over.
    PageSkipped(String, String),
}

/// A report as plain data.
pub enum PageNote {
    Nothing,
    EndOfResults(Seq<char>),
    PageSkipped(Seq<char>, Seq<char>),
}

impl View for PageReport {
    type V = PageNote;

    open spec fn view(&self) -> PageNote {
        match self {
            PageReport::Nothing => PageNote::Nothing,
            PageReport::EndOfResults(page) => PageNote::EndOfResults(page@),
            PageReport::PageSkipped(page, reason) => PageNote::PageSkipped(page@, reason@),
        }
    }
}

/// What is left to ask for.
pub enum PagePlan {
    /// One page, named by the caller: a number, or a cursor before or after
    /// a post.
    Cursor(Seq<char>),
    /// The pages from `next` up to, but without, `end`.
    Pages { next: nat, end: nat },
    /// Nothing.
    Done,
}

/// A collection in progress.
pub struct CollectorState {
    pub plan: PagePlan,
    /// The posts collected so far, in the order they came.
    pub posts: Seq<Post>,
    /// Why the collection as a whole has failed, if it has.
    pub failure: Option<Seq<char>>,
}

impl CollectorState {
    /// The state before the first query. A single page is asked for as the
    /// caller wrote it; of several pages the first is the number that `page`
    /// writes.
    pub open spec fn initial(page: Seq<char>, pages: u32) -> CollectorState {
        CollectorState {
            plan: if pages == 1 {
                PagePlan::Cursor(page)
            } else {
                match parse_u32_spec(page) {
                    Some(start) => PagePlan::Pages { next: start as nat, end: (start + pages) as nat },
                    None => PagePlan::Done,
                }
            },
            posts: Seq::empty(),
            failure: None,
        }
    }

    /// The page to ask for next; none once the collection has ended.
    pub open spec fn pending(self) -> Option<Seq<char>> {
        match self.plan {
            PagePlan::Cursor(page) => Some(page),
            PagePlan::Pages { next, end } => if next < end {
                Some(decimal(next))
            } else {
                None
            },
            PagePlan::Done => None,
        }
    }

    /// The state after the service has answered the pending query.
    ///
    /// A single page ends the collection either way, and its failure is the
    /// failure of the whole. Of several pages, one with posts adds them and
    /// the next page follows; an empty one ends the collection; one that
    /// failed adds nothing and the next page follows. An answer that no query
    /// asked for changes nothing.
    pub open spec fn record(self, answer: PageResult) -> CollectorState {
        match self.plan {
            PagePlan::Cursor(_) => match answer {
                PageResult::Loaded(posts) => CollectorState {
                    plan: PagePlan::Done,
                    posts: self.posts + posts,
                    failure: None,
                },
                PageResult::Failed(reason) => CollectorState {
                    plan: PagePlan::Done,
                    posts: self.posts,
                    failure: Some(reason),
                },
            },
            PagePlan::Pages { next, end } => if next >= end {
                self
            } else if answer.is_end() {
                CollectorState { plan: PagePlan::Done, ..self }
            } else {
                CollectorState {
                    plan: PagePlan::Pages { next: next + 1, end },
                    posts: self.posts + answer.posts(),
                    ..self
                }
            },
            PagePlan::Done => self,
        }
    }

    /// What is to be told of the answer to the pending query. Where several
    /// pages are collected, the page that ends the results is named, and so
    /// is each page that failed, with the reason. The failure of a single
    /// page is not told here: it is the failure of the collection.
    pub open spec fn report(self, answer: PageResult) -> PageNote {
        match self.plan {
            PagePlan::Pages { next, end } => if next >= end {
                PageNote::Nothing
            } else {
                match answer {
                    PageResult::Loaded(posts) => if posts.len() == 0 {
                        PageNote::EndOfResults(decimal(next))
                    } else {
                        PageNote::Nothing
                    },
                    PageResult::Failed(reason) => PageNote::PageSkipped(decimal(next), reason),
                }
            },
            _ => PageNote::Nothing,
        }
    }

    /// The state after a run of answers, each to the query that was pending
    /// when it came.
    pub open spec fn run(self, answers: Seq<PageResult>) -> CollectorState
        decreases answers.len(),
    {
        if answers.len() == 0 {
            self
        } else {
            self.run(answers.drop_last()).record(answers.last())
        }
    }
}

/// The posts that a run of answers brought, in the order they came.
pub open spec fn loaded_posts(answers: Seq<PageResult>) -> Seq<Post>
    decreases answers.len(),
{
    if answers.len() == 0 {
        Seq::empty()
    } else {
        loaded_posts(answers.drop_last()) + answers.last().posts()
    }
}

/// What is said of a cursor where several pages are asked for.
pub open spec fn non_numeric_page_message() -> Seq<char> {
    "When providing the `pages` argument, the `page` argument must be numeric; before/after syntax is not supported."@
}

enum Plan {
    Cursor(String),
    Pages { next: u64, end: u64 },
    Done,
}

impl View for Plan {
    type V = PagePlan;

    closed spec fn view(&self) -> PagePlan {
        match self {
            Plan::Cursor(page) => PagePlan::Cursor(page@),
            Plan::Pages { next, end } => PagePlan::Pages { next: *next as nat, end: *end as nat },
            Plan::Done => PagePlan::Done,
        }
    }
}

/// Collects the posts of a search over a run of pages.
pub struct PageCollector {
    plan: Plan,
    posts: Vec<Post>,
    failure: Option<ApiError>,
}

impl View for PageCollector {
    type V = CollectorState;

    closed spec fn view(&self) -> CollectorState {
        CollectorState {
            plan: self.plan@,
            posts: self.posts@,
            failure: match self.failure {
                Some(e) => Some(e@),
                None => None,
            },
        }
    }
}

impl PageCollector {
    /// Plans the collection of `pages` pages, starting with `page`.
    ///
    /// Several pages can only be counted from a number: a cursor there is
    /// refused, before anything is asked of the service.
    pub fn new(page: &str, pages: u32) -> (r: Result<PageCollector, ParseError>)
        ensures
            match r {
                Ok(c) => (pages > 1 ==> is_numeric(page@)) && c@ == CollectorState::initial(
                    page@,
                    pages,
                ),
                Err(e) => pages > 1 && !is_numeric(page@) && e@ == non_numeric_page_message(),
            },
    {
        let plan = if pages == 1 {
            Plan::Cursor(page.to_owned())
        } else {
            match parse_u32(page) {
                Some(start) => Plan::Pages { next: start as u64, end: start as u64 + pages as u64 },
                None => {
                    if pages > 1 {
                        return Err(
                            ParseError::new(
                                "When providing the `pages` argument, the `page` argument must be numeric; before/after syntax is not supported.",
                            ),
                        );
                    }
                    Plan::Done
                },
            }
        };
        Ok(PageCollector { plan, posts: Vec::new(), failure: None })
    }

    /// The page to ask the service for, as it is written in the query; none
    /// once the collection has ended.
    pub fn next_page(&self) -> (page: Option<String>)
        ensures
            optional_view(page) == self@.pending(),
    {
        match &self.plan {
            Plan::Cursor(page) => Some(page.clone()),
            Plan::Pages { next, end } => if *next < *end {
                Some(decimal_string(*next))
            } else {
                None
            },
            Plan::Done => None,
        }
    }

    /// Takes the service's answer to the query for the pending page, and
    /// says what is to be told of it.
    pub fn record(&mut self, outcome: PageOutcome) -> (report: PageReport)
        ensures
            final(self)@ == old(self)@.record(outcome@),
            report@ == old(self)@.report(outcome@),
    {
        match &self.plan {
            Plan::Cursor(_) => {
                match outcome {
                    PageOutcome::Loaded(mut posts) => {
                        self.posts.append(&mut posts);
                        self.failure = None;
                    },
                    PageOutcome::Failed(reason) => {
                        self.failure = Some(ApiError::new(reason.as_str()));
                    },
                }
                self.plan = Plan::Done;
                PageReport::Nothing
            },
            Plan::Pages { next, end } => {
                let next = *next;
                let end = *end;
                if next < end {
                    match outcome {
                        PageOutcome::Loaded(mut posts) => {
                            if posts.len() == 0 {
                                self.plan = Plan::Done;
                                PageReport::EndOfResults(decimal_string(next))
                            } else {
                                self.posts.append(&mut posts);
                                self.plan = Plan::Pages { next: next + 1, end };
                                PageReport::Nothing
                            }
                        },
                        PageOutcome::Failed(reason) => {
                            self.plan = Plan::Pages { next: next + 1, end };
                            assert(self.posts@ + Seq::<Post>::empty() =~= self.posts@);
                            PageReport::PageSkipped(decimal_string(next), reason)
                        },
                    }
                } else {
                    PageReport::Nothing
                }
            },
            Plan::Done => PageReport::Nothing,
        }
    }

    /// Ends the collection: the posts collected, or the failure of the
    /// collection as a whole.
    pub fn finish(self) -> (r: Result<Vec<Post>, ApiError>)
        ensures
            match r {
                Ok(posts) => self@.failure is None && posts@ == self@.posts,
                Err(e) => self@.failure == Some(e@),
            },
    {
        let PageCollector { plan: _, posts, failure } = self;
        match failure {
            Some(e) => Err(e),
            None => Ok(posts),
        }
    }
}

/// The page that query number `i` of a collection asks for, counting from
/// zero: the page as the caller wrote it where one page is collected, else
/// the number `i` pages after the first.
pub open spec fn page_asked(page: Seq<char>, pages: u32, i: int) -> Seq<char> {
    if pages == 1 {
        page
    } else {
        decimal((parse_u32_spec(page)->0 + i) as nat)
    }
}

/// One more answer is recorded on top of the state the answers before it
/// have led to.
pub proof fn lemma_run_step(s: CollectorState, answers: Seq<PageResult>, n: int)
    requires
        0 <= n < answers.len(),
    ensures
        s.run(answers.take(n + 1)) == s.run(answers.take(n)).record(answers[n]),
{
    assert(answers.take(n + 1).drop_last() =~= answers.take(n));
}

/// A run of answers can be taken in two parts.
pub proof fn lemma_run_split(s: CollectorState, answers: Seq<PageResult>, m: int)
    requires
        0 <= m <= answers.len(),
    ensures
        s.run(answers) == s.run(answers.take(m)).run(answers.skip(m)),
    decreases answers.len(),
{
    if m == answers.len() {
        assert(answers.take(m) =~= answers);
    } else {
        let front = answers.drop_last();
        lemma_run_split(s, front, m);
        assert(front.take(m) =~= answers.take(m));
        assert(front.skip(m) =~= answers.skip(m).drop_last());
    }
}

/// Once nothing is pending, no answer changes the state.
pub proof fn lemma_run_ended(s: CollectorState, answers: Seq<PageResult>)
    requires
        s.pending() is None,
    ensures
        s.run(answers) == s,
    decreases answers.len(),
{
    if answers.len() > 0 {
        lemma_run_ended(s, answers.drop_last());
    }
}

/// While pages are left and none comes back empty, each answer moves the
/// collection on by one page, whether it loaded or failed, and the posts of
/// those that loaded are added in the order they came.
pub proof fn lemma_run_pages(s: CollectorState, answers: Seq<PageResult>)
    requires
        s.plan is Pages,
        s.plan->next + answers.len() <= s.plan->end,
        forall|i: int| 0 <= i < answers.len() ==> !(#[trigger] answers[i]).is_end(),
    ensures
        s.run(answers) == (CollectorState {
            plan: PagePlan::Pages { next: s.plan->next + answers.len(), end: s.plan->end },
            posts: s.posts + loaded_posts(answers),
            failure: s.failure,
        }),
    decreases answers.len(),
{
    if answers.len() == 0 {
        assert(s.posts + loaded_posts(answers) =~= s.posts);
    } else {
        let front = answers.drop_last();
        lemma_run_pages(s, front);
        assert(!answers[answers.len() - 1].is_end());
        assert((s.posts + loaded_posts(front)) + answers.last().posts() =~= s.posts
            + loaded_posts(answers));
    }
}

/// Only the failure of a single page fails a collection: where several pages
/// are collected, or none, no run of answers does.
pub proof fn lemma_pages_never_fail(s: CollectorState, answers: Seq<PageResult>)
    requires
        !(s.plan is Cursor),
        s.failure is None,
    ensures
        !(s.run(answers).plan is Cursor),
        s.run(answers).failure is None,
    decreases answers.len(),
{
    if answers.len() > 0 {
        lemma_pages_never_fail(s, answers.drop_last());
    }
}

/// No answer takes a collected post away: what was collected after the first
/// `n` answers opens what is collected after all of them.
pub proof fn lemma_posts_kept(s: CollectorState, answers: Seq<PageResult>, n: int)
    requires
        0 <= n <= answers.len(),
    ensures
        s.run(answers.take(n)).posts.is_prefix_of(s.run(answers).posts),
    decreases answers.len(),
{
    if n == answers.len() {
        assert(answers.take(n) =~= answers);
    } else {
        let front = answers.drop_last();
        lemma_posts_kept(s, front, n);
        assert(front.take(n) =~= answers.take(n));
        let before = s.run(front);
        assert(before.posts.is_prefix_of(before.record(answers.last()).posts));
    }
}

/// A single page is asked for once, as the caller wrote it, and whatever
/// comes back is the result: the posts of the page, unchanged, or the failure
/// of the query.
pub proof fn lemma_collect_single_page(page: Seq<char>, answer: PageResult)
    ensures
        CollectorState::initial(page, 1).pending() == Some(page),
        CollectorState::initial(page, 1).record(answer).pending() is None,
        CollectorState::initial(page, 1).report(answer) == PageNote::Nothing,
        match answer {
            PageResult::Loaded(posts) => {
                &&& CollectorState::initial(page, 1).record(answer).posts == posts
                &&& CollectorState::initial(page, 1).record(answer).failure is None
            },
            PageResult::Failed(reason) => {
                &&& CollectorState::initial(page, 1).record(answer).posts.len() == 0
                &&& CollectorState::initial(page, 1).record(answer).failure == Some(reason)
            },
        },
{
    let init = CollectorState::initial(page, 1);
    assert(init.posts + answer.posts() =~= answer.posts());
}

/// A collection stops at the first empty page. Where answer `k` is the first
/// page without posts, the pages asked for are exactly those from the first
/// up to that one, in order; nothing is asked for after it, whatever answers
/// follow; and the posts collected are those of the pages before it that
/// loaded, in the order they came.
pub proof fn lemma_collect_stops_at_first_empty_page(
    page: Seq<char>,
    pages: u32,
    answers: Seq<PageResult>,
    k: int,
)
    requires
        pages > 1 ==> is_numeric(page),
        0 <= k < answers.len(),
        k < pages,
        answers[k].is_end(),
        forall|i: int| 0 <= i < k ==> !(#[trigger] answers[i]).is_end(),
    ensures
        forall|i: int|
            0 <= i <= k ==> (#[trigger] CollectorState::initial(page, pages).run(
                answers.take(i),
            )).pending() == Some(page_asked(page, pages, i)),
        forall|n: int|
            k < n <= answers.len() ==> (#[trigger] CollectorState::initial(page, pages).run(
                answers.take(n),
            )).pending() is None,
        CollectorState::initial(page, pages).run(answers).posts == loaded_posts(answers.take(k)),
        CollectorState::initial(page, pages).run(answers).failure is None,
        pages > 1 ==> CollectorState::initial(page, pages).run(answers.take(k)).report(answers[k])
            == PageNote::EndOfResults(page_asked(page, pages, k)),
{
    let init = CollectorState::initial(page, pages);
    let stopped = init.run(answers.take(k + 1));
    assert forall|i: int| 0 <= i <= k implies (#[trigger] init.run(answers.take(i))).pending()
        == Some(page_asked(page, pages, i)) by {
        if pages > 1 {
            lemma_run_pages(init, answers.take(i));
        }
    }
    assert(stopped.pending() is None && stopped.posts == loaded_posts(answers.take(k))
        && stopped.failure is None) by {
        lemma_run_step(init, answers, k);
        if pages > 1 {
            lemma_run_pages(init, answers.take(k));
            assert(init.posts + loaded_posts(answers.take(k)) =~= loaded_posts(answers.take(k)));
        } else {
            assert(answers.take(0) =~= Seq::<PageResult>::empty());
            assert(init.posts + answers[0].posts() =~= loaded_posts(answers.take(0)));
        }
    }
    assert forall|n: int| k < n <= answers.len() implies init.run(answers.take(n)) == stopped by {
        let part = answers.take(n);
        lemma_run_split(init, part, k + 1);
        assert(part.take(k + 1) =~= answers.take(k + 1));
        lemma_run_ended(stopped, part.skip(k + 1));
    }
    assert(answers.take(answers.len() as int) =~= answers);
}

/// A page that fails does not end the collection. Where answer `i` is a
/// failure, it is told with the page and the reason, the page after it is
/// asked for next, and nothing collected is lost; and where a later answer `j` brings posts, with no empty page
/// before it, those posts are collected, behind all that loaded before them,
/// and stay collected whatever follows. The collection itself does not fail.
pub proof fn lemma_collect_continues_after_failure(
    page: Seq<char>,
    pages: u32,
    answers: Seq<PageResult>,
    i: int,
    j: int,
)
    requires
        pages > 1,
        is_numeric(page),
        0 <= i < j < answers.len(),
        j < pages,
        answers[i] is Failed,
        answers[j] is Loaded,
        forall|n: int| 0 <= n <= j ==> !(#[trigger] answers[n]).is_end(),
    ensures
        CollectorState::initial(page, pages).run(answers.take(i)).report(answers[i])
            == PageNote::PageSkipped(page_asked(page, pages, i), answers[i]->Failed_0),
        CollectorState::initial(page, pages).run(answers.take(i + 1)).pending() == Some(
            page_asked(page, pages, i + 1),
        ),
        CollectorState::initial(page, pages).run(answers.take(i + 1)).posts
            == CollectorState::initial(page, pages).run(answers.take(i)).posts,
        CollectorState::initial(page, pages).run(answers.take(j + 1)).posts == loaded_posts(
            answers.take(j),
        ) + answers[j].posts(),
        (loaded_posts(answers.take(j)) + answers[j].posts()).is_prefix_of(
            CollectorState::initial(page, pages).run(answers).posts,
        ),
        CollectorState::initial(page, pages).run(answers).failure is None,
{
    let init = CollectorState::initial(page, pages);
    lemma_pages_never_fail(init, answers);
    lemma_run_pages(init, answers.take(i));
    lemma_run_pages(init, answers.take(i + 1));
    lemma_run_step(init, answers, i);
    lemma_run_pages(init, answers.take(j));
    lemma_run_step(init, answers, j);
    assert(init.posts + loaded_posts(answers.take(j)) =~= loaded_posts(answers.take(j)));
    lemma_posts_kept(init, answers, j + 1);
}

/// Where no page comes back empty, every page asked for is queried, and the
/// collection ends with the posts of all that loaded.
pub proof fn lemma_collect_whole_range(page: Seq<char>, pages: u32, answers: Seq<PageResult>)
    requires
        pages > 1,
        is_numeric(page),
        answers.len() == pages,
        forall|i: int| 0 <= i < answers.len() ==> !(#[trigger] answers[i]).is_end(),
    ensures
        forall|i: int|
            0 <= i < pages ==> (#[trigger] CollectorState::initial(page, pages).run(
                answers.take(i),
            )).pending() == Some(page_asked(page, pages, i)),
        CollectorState::initial(page, pages).run(answers).pending() is None,
        CollectorState::initial(page, pages).run(answers).posts == loaded_posts(answers),
        CollectorState::initial(page, pages).run(answers).failure is None,
{
    let init = CollectorState::initial(page, pages);
    assert forall|i: int| 0 <= i < pages implies (#[trigger] init.run(answers.take(i))).pending()
        == Some(page_asked(page, pages, i)) by {
        lemma_run_pages(init, answers.take(i));
    }
    lemma_run_pages(init, answers);
    assert(init.posts + loaded_posts(answers) =~= loaded_posts(answers));
}

} // verus!
