//! Storing one post: where it goes, where it comes from, and what to do
//! next as the directory is made and the file is fetched.

use crate::api::{download_url, no_file_message, Post, ResultItem};
use crate::grouping::{classify, classify_spec, rules_view, GroupingRule, PostGrouping};
use crate::text::{decimal, decimal_string};
use vstd::prelude::*;
use vstd::string::*;

verus! {

/// What has to be known to store one post.
#[derive(Debug)]
pub struct DownloadPlan {
    /// The directory below the output directory, if the post has one.
    pub dir: Option<String>,
    /// The name of the file.
    pub file_name: String,
    /// The address of the file, or why there is none.
    pub url: Result<String, String>,
}

/// A plan as plain data.
pub struct PlanView {
    pub dir: Option<Seq<char>>,
    pub file_name: Seq<char>,
    pub url: Result<Seq<char>, Seq<char>>,
}

impl PlanView {
    /// The place of the file, as the names that lead to it from the output
    /// directory.
    pub open spec fn path(self) -> Seq<Seq<char>> {
        match self.dir {
            Some(dir) => seq![dir, self.file_name],
            None => seq![self.file_name],
        }
    }
}

impl View for DownloadPlan {
    type V = PlanView;

    open spec fn view(&self) -> PlanView {
        PlanView {
            dir: crate::api::optional_view(self.dir),
            file_name: self.file_name@,
            url: match self.url {
                Ok(url) => Ok(url@),
                Err(reason) => Err(reason@),
            },
        }
    }
}

/// The name under which a post is stored: its number, a dot, and the
/// extension of its file.
pub open spec fn file_name_spec(item: ResultItem) -> Seq<char> {
    decimal(item.id as nat) + "."@ + item.ext
}

/// The plan for an item under a list of rules: the directory of the first
/// rule that matches, the item's file name, and the address of its file. An
/// item whose file is withheld has no address.
pub open spec fn plan_spec(rules: Seq<GroupingRule>, item: ResultItem) -> PlanView {
    PlanView {
        dir: classify_spec(rules, item),
        file_name: file_name_spec(item),
        url: match item.url {
            Some(url) => Ok(url),
            None => Err(no_file_message()),
        },
    }
}

/// The name under which `post` is stored.
pub fn file_name(post: &Post) -> (name: String)
    ensures
        name@ == file_name_spec(post@),
{
    let mut name = decimal_string(post.id as u64);
    name.append(".");
    name.append(post.file.ext.as_str());
    name
}

/// Plans the storing of `post` under the grouping rules given.
pub fn plan_download(post: &Post, grouping: &Vec<PostGrouping>) -> (plan: DownloadPlan)
    ensures
        plan@ == plan_spec(rules_view(grouping@), post@),
{
    let url = match download_url(post) {
        Ok(url) => Ok(url.clone()),
        Err(e) => Err(e.to_string()),
    };
    DownloadPlan { dir: classify(grouping, post), file_name: file_name(post), url }
}

/// How far the storing of a post has come.
#[derive(Debug, Clone, Copy, PartialEq, Eq)]
pub enum JobStage {
    /// Nothing has been done.
    Created,
    /// The post's directory is being made.
    AwaitingDirectory,
    /// The file is being fetched and written.
    AwaitingFetch,
    /// The outcome has been reported.
    Finished,
}

/// What has happened to a job.
#[derive(Debug)]
pub enum JobEvent {
    /// A worker has taken the job up.
    Start,
    /// The post's directory exists.
    DirectoryReady,
    /// The post's directory could not be made.
    DirectoryFailed(String),
    /// The file has been fetched and written.
    FetchDone,
    /// The file could not be fetched, or not be written.
    FetchFailed(String),
}

/// How the storing of a post ended.
#[derive(Debug)]
pub enum ItemOutcome {
    Saved,
    /// The post has no file to fetch.
    NoFile(String),
    DirectoryFailed(String),
    FetchFailed(String),
}

/// What the worker does next.
#[derive(Debug)]
pub enum JobAction {
    /// Make the plan's directory below the output directory, unless it
    /// exists.
    CreateDirectory,
    /// Fetch the plan's address into the plan's file.
    Fetch,
    /// Report the outcome; the job is over.
    Report(ItemOutcome),
    /// Nothing: the event has no meaning at this stage.
    Ignore,
}

/// An event as plain data.
pub enum JobEventView {
    Start,
    DirectoryReady,
    DirectoryFailed(Seq<char>),
    FetchDone,
    FetchFailed(Seq<char>),
}

/// An outcome as plain data.
pub enum ItemResult {
    Saved,
    NoFile(Seq<char>),
    DirectoryFailed(Seq<char>),
    FetchFailed(Seq<char>),
}

/// An action as plain data.
pub enum JobActionView {
    CreateDirectory,
    Fetch,
    Report(ItemResult),
    Ignore,
}

impl View for JobEvent {
    type V = JobEventView;

    open spec fn view(&self) -> JobEventView {
        match self {
            JobEvent::Start => JobEventView::Start,
            JobEvent::DirectoryReady => JobEventView::DirectoryReady,
            JobEvent::DirectoryFailed(reason) => JobEventView::DirectoryFailed(reason@),
            JobEvent::FetchDone => JobEventView::FetchDone,
            JobEvent::FetchFailed(reason) => JobEventView::FetchFailed(reason@),
        }
    }
}

impl View for ItemOutcome {
    type V = ItemResult;

    open spec fn view(&self) -> ItemResult {
        match self {
            ItemOutcome::Saved => ItemResult::Saved,
            ItemOutcome::NoFile(reason) => ItemResult::NoFile(reason@),
            ItemOutcome::DirectoryFailed(reason) => ItemResult::DirectoryFailed(reason@),
            ItemOutcome::FetchFailed(reason) => ItemResult::FetchFailed(reason@),
        }
    }
}

impl View for JobAction {
    type V = JobActionView;

    open spec fn view(&self) -> JobActionView {
        match self {
            JobAction::CreateDirectory => JobActionView::CreateDirectory,
            JobAction::Fetch => JobActionView::Fetch,
            JobAction::Report(outcome) => JobActionView::Report(outcome@),
            JobAction::Ignore => JobActionView::Ignore,
        }
    }
}

/// What follows once the directory is there, or none is needed: the fetch,
/// or, for a post without a file, the report of that.
pub open spec fn after_directory(plan: PlanView) -> (JobStage, JobActionView) {
    match plan.url {
        Ok(_) => (JobStage::AwaitingFetch, JobActionView::Fetch),
        Err(reason) => (JobStage::Finished, JobActionView::Report(ItemResult::NoFile(reason))),
    }
}

/// The next stage of a job and what its worker does next.
///
/// A job starts by making its directory, if the plan names one. A directory
/// that cannot be made ends the job. After the directory comes the fetch, and
/// the result of the fetch ends the job. Nothing is tried twice.
pub open spec fn job_step_spec(plan: PlanView, stage: JobStage, event: JobEventView) -> (
    JobStage,
    JobActionView,
) {
    match (stage, event) {
        (JobStage::Created, JobEventView::Start) => match plan.dir {
            Some(_) => (JobStage::AwaitingDirectory, JobActionView::CreateDirectory),
            None => after_directory(plan),
        },
        (JobStage::AwaitingDirectory, JobEventView::DirectoryReady) => after_directory(plan),
        (JobStage::AwaitingDirectory, JobEventView::DirectoryFailed(reason)) => (
            JobStage::Finished,
            JobActionView::Report(ItemResult::DirectoryFailed(reason)),
        ),
        (JobStage::AwaitingFetch, JobEventView::FetchDone) => (
            JobStage::Finished,
            JobActionView::Report(ItemResult::Saved),
        ),
        (JobStage::AwaitingFetch, JobEventView::FetchFailed(reason)) => (
            JobStage::Finished,
            JobActionView::Report(ItemResult::FetchFailed(reason)),
        ),
        _ => (stage, JobActionView::Ignore),
    }
}

fn step_after_directory(plan: &DownloadPlan) -> (r: (JobStage, JobAction))
    ensures
        (r.0, r.1@) == after_directory(plan@),
{
    match &plan.url {
        Ok(_) => (JobStage::AwaitingFetch, JobAction::Fetch),
        Err(reason) => (JobStage::Finished, JobAction::Report(ItemOutcome::NoFile(reason.clone()))),
    }
}

/// Takes a job one step on: from its stage and what has happened to the
/// stage that follows and what its worker does next.
pub fn job_step(plan: &DownloadPlan, stage: JobStage, event: JobEvent) -> (r: (JobStage, JobAction))
    ensures
        (r.0, r.1@) == job_step_spec(plan@, stage, event@),
{
    match stage {
        JobStage::Created => match event {
            JobEvent::Start => {
                if plan.dir.is_some() {
                    (JobStage::AwaitingDirectory, JobAction::CreateDirectory)
                } else {
                    step_after_directory(plan)
                }
            },
            _ => (stage, JobAction::Ignore),
        },
        JobStage::AwaitingDirectory => match event {
            JobEvent::DirectoryReady => step_after_directory(plan),
            JobEvent::DirectoryFailed(reason) => (
                JobStage::Finished,
                JobAction::Report(ItemOutcome::DirectoryFailed(reason)),
            ),
            _ => (stage, JobAction::Ignore),
        },
        JobStage::AwaitingFetch => match event {
            JobEvent::FetchDone => (JobStage::Finished, JobAction::Report(ItemOutcome::Saved)),
            JobEvent::FetchFailed(reason) => (
                JobStage::Finished,
                JobAction::Report(ItemOutcome::FetchFailed(reason)),
            ),
            _ => (stage, JobAction::Ignore),
        },
        JobStage::Finished => (stage, JobAction::Ignore),
    }
}

/// A post that no rule matches is stored in the output directory itself,
/// under its number and extension, and no directory is made for it.
pub proof fn lemma_unmatched_post_path(rules: Seq<GroupingRule>, item: ResultItem)
    requires
        forall|i: int| 0 <= i < rules.len() ==> !(#[trigger] rules[i]).matches(item),
    ensures
        classify_spec(rules, item) is None,
        plan_spec(rules, item).path() == seq![decimal(item.id as nat) + "."@ + item.ext],
        job_step_spec(plan_spec(rules, item), JobStage::Created, JobEventView::Start).1
            != JobActionView::CreateDirectory,
{
    crate::grouping::lemma_classify_first_match(rules, item);
}

/// The stage a job has reached after a run of events, counted from its
/// creation.
pub open spec fn job_stage_after(plan: PlanView, events: Seq<JobEventView>) -> JobStage
    decreases events.len(),
{
    if events.len() == 0 {
        JobStage::Created
    } else {
        job_step_spec(plan, job_stage_after(plan, events.drop_last()), events.last()).0
    }
}

/// What the worker is told to do on the last event of a run.
pub open spec fn job_last_action(plan: PlanView, events: Seq<JobEventView>) -> JobActionView
    recommends
        events.len() > 0,
{
    job_step_spec(plan, job_stage_after(plan, events.drop_last()), events.last()).1
}

/// A post without a file fails, and is never fetched. Whatever happens to
/// its job, no fetch is asked for and the post is not reported as saved; once
/// its directory is there, or at once where it has none, the job ends with
/// the report that the post has no file.
pub proof fn lemma_post_without_file(
    rules: Seq<GroupingRule>,
    item: ResultItem,
    events: Seq<JobEventView>,
)
    requires
        item.url is None,
    ensures
        job_stage_after(plan_spec(rules, item), events) != JobStage::AwaitingFetch,
        events.len() > 0 ==> job_last_action(plan_spec(rules, item), events)
            != JobActionView::Fetch,
        events.len() > 0 ==> job_last_action(plan_spec(rules, item), events)
            != JobActionView::Report(ItemResult::Saved),
        classify_spec(rules, item) is None ==> job_step_spec(
            plan_spec(rules, item),
            JobStage::Created,
            JobEventView::Start,
        ) == (JobStage::Finished, JobActionView::Report(ItemResult::NoFile(no_file_message()))),
        job_step_spec(
            plan_spec(rules, item),
            JobStage::AwaitingDirectory,
            JobEventView::DirectoryReady,
        ) == (JobStage::Finished, JobActionView::Report(ItemResult::NoFile(no_file_message()))),
    decreases events.len(),
{
    if events.len() > 0 {
        lemma_post_without_file(rules, item, events.drop_last());
    }
}

/// A post with a file, whose directory can be made and whose fetch goes
/// through, is saved: its job asks for the directory where the post has one,
/// then for the fetch, and then reports the post as saved.
pub proof fn lemma_post_saved(rules: Seq<GroupingRule>, item: ResultItem)
    requires
        item.url is Some,
    ensures
        job_step_spec(plan_spec(rules, item), JobStage::Created, JobEventView::Start) == (
            if classify_spec(rules, item) is Some {
                (JobStage::AwaitingDirectory, JobActionView::CreateDirectory)
            } else {
                (JobStage::AwaitingFetch, JobActionView::Fetch)
            }
        ),
        job_step_spec(
            plan_spec(rules, item),
            JobStage::AwaitingDirectory,
            JobEventView::DirectoryReady,
        ) == (JobStage::AwaitingFetch, JobActionView::Fetch),
        job_step_spec(plan_spec(rules, item), JobStage::AwaitingFetch, JobEventView::FetchDone)
            == (JobStage::Finished, JobActionView::Report(ItemResult::Saved)),
        plan_spec(rules, item).url == Ok::<Seq<char>, Seq<char>>(item.url->0),
{
}

} // verus!
