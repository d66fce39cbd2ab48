//! How a local commit relates to a branch of a remote repository.
//!
//! The service hands out branch names and commit histories page by page.
//! A [`Listing`] says which page to ask for and when to stop; an
//! [`Evaluation`] reads the branch names, then the history of the branch,
//! and ends with a [`Relation`].

use crate::github::user::Repository;
use vstd::prelude::*;
use vstd::string::*;

verus! {

/// Why a relation could not be found.
#[derive(Debug)]
pub enum Error {
    /// A request failed; the text says how.
    OctocrabError(String),
    /// The repository has no owner on record.
    NoOwnerError,
}

/// The text of the error raised for a repository without an owner.
pub open spec fn no_owner_text() -> Seq<char> {
    "No owner was provided"@
}

impl Error {
    /// The text of the error: that of the failed request, or a fixed
    /// sentence for a repository without an owner.
    pub fn message(&self) -> (text: String)
        ensures
            text@ == match *self {
                Error::OctocrabError(cause) => cause@,
                Error::NoOwnerError => no_owner_text(),
            },
    {
        match self {
            Error::OctocrabError(cause) => cause.clone(),
            Error::NoOwnerError => "No owner was provided".to_string(),
        }
    }
}

impl Clone for Error {
    fn clone(&self) -> (copy: Self)
        ensures
            copy == *self,
    {
        match self {
            Error::OctocrabError(cause) => Error::OctocrabError(cause.clone()),
            Error::NoOwnerError => Error::NoOwnerError,
        }
    }
}

/// How a local commit relates to the history of a remote branch.
#[derive(Debug, Clone, Copy, PartialEq, Eq, Structural)]
pub enum Relation {
    /// The commit is not part of the history that was read.
    Ahead,
    /// The commit is part of the history, but not its newest entry.
    Behind,
    /// The commit is the newest entry of the history.
    Same,
    /// There is nothing to compare with.
    Null,
}

/// The relation of the commit `current` to a history, newest entry first.
pub open spec fn relation_of(history: Seq<Seq<char>>, current: Seq<char>) -> Relation {
    if history.len() == 0 {
        Relation::Null
    } else if history[0] == current {
        Relation::Same
    } else if history.contains(current) {
        Relation::Behind
    } else {
        Relation::Ahead
    }
}

/// The relation of the commit `current` to the branch `branch` of a
/// repository with these branches, where `history` is that of the branch.
pub open spec fn branch_relation_of(
    branches: Seq<Seq<char>>,
    history: Seq<Seq<char>>,
    branch: Seq<char>,
    current: Seq<char>,
) -> Relation {
    if branches.contains(branch) {
        relation_of(history, current)
    } else {
        Relation::Null
    }
}

/// Whether `text` is among `texts`.
fn contains_text(texts: &Vec<String>, text: &str) -> (found: bool)
    ensures
        found == texts.deep_view().contains(text@),
{
    let wanted: String = text.to_string();
    let mut i: usize = 0;
    while i < texts.len()
        invariant
            wanted@ == text@,
            i <= texts@.len(),
            forall|k: int| 0 <= k < i ==> #[trigger] texts.deep_view()[k] != text@,
        decreases texts@.len() - i,
    {
        if texts[i] == wanted {
            assert(texts.deep_view()[i as int] == text@);
            return true;
        }
        i += 1;
    }
    false
}

/// Whether a repository with these branches has the branch `branch`.
pub fn is_remote_branch(branches: &Vec<String>, branch: &str) -> (found: bool)
    ensures
        found == branches.deep_view().contains(branch@),
{
    contains_text(branches, branch)
}

/// The relation of the commit `current` to the history of a branch, newest
/// entry first: `Null` for an empty history, `Same` where the newest entry
/// is the commit, `Behind` where a later entry is, `Ahead` otherwise.
pub fn commit_relation(remote_commits: &Vec<String>, current: &str) -> (relation: Relation)
    ensures
        relation == relation_of(remote_commits.deep_view(), current@),
{
    if remote_commits.len() == 0 {
        return Relation::Null;
    }
    assert(remote_commits.deep_view()[0] == remote_commits@[0]@);
    let wanted: String = current.to_string();
    if remote_commits[0] == wanted {
        Relation::Same
    } else if contains_text(remote_commits, current) {
        Relation::Behind
    } else {
        Relation::Ahead
    }
}

/// One page of a listing, with the number of pages the service reported
/// with it, if it reported one.
#[derive(Debug)]
pub struct Page {
    pub items: Vec<String>,
    pub number_of_pages: Option<u32>,
}

/// What a [`Page`] holds.
pub struct PageView {
    pub items: Seq<Seq<char>>,
    pub number_of_pages: Option<u32>,
}

impl View for Page {
    type V = PageView;

    open spec fn view(&self) -> PageView {
        PageView { items: self.items.deep_view(), number_of_pages: self.number_of_pages }
    }
}

impl DeepView for Page {
    type V = PageView;

    open spec fn deep_view(&self) -> PageView {
        self@
    }
}

/// The number of pages that a page reports: one where it reports none.
pub open spec fn page_count(page: PageView) -> u32 {
    match page.number_of_pages {
        Some(count) => count,
        None => 1,
    }
}

/// A listing that is read page by page, from the first page on.
#[derive(Debug)]
pub struct Listing {
    page: u32,
    items: Vec<String>,
    open: bool,
}

/// What a [`Listing`] holds: the page to ask for next, the items read so
/// far, and whether a page is still to be read.
pub struct ListingView {
    pub page: u32,
    pub items: Seq<Seq<char>>,
    pub open: bool,
}

/// A listing of which nothing has been read.
pub open spec fn fresh_listing() -> ListingView {
    ListingView { page: 1, items: Seq::empty(), open: true }
}

/// The listing after the page it asked for has come in. The items of the
/// page follow those read before. The listing stays open, and asks for the
/// page after this one, as long as the page reports more pages than have
/// been read. A closed listing takes nothing in.
pub open spec fn accepted(listing: ListingView, page: PageView) -> ListingView {
    if !listing.open {
        listing
    } else if listing.page < page_count(page) {
        ListingView {
            page: (listing.page + 1) as u32,
            items: listing.items + page.items,
            open: true,
        }
    } else {
        ListingView { page: listing.page, items: listing.items + page.items, open: false }
    }
}

impl View for Listing {
    type V = ListingView;

    closed spec fn view(&self) -> ListingView {
        ListingView { page: self.page, items: self.items.deep_view(), open: self.open }
    }
}

/// The texts of `front` followed by those of `back`.
fn append_texts(front: &mut Vec<String>, back: Vec<String>)
    ensures
        final(front).deep_view() == old(front).deep_view() + back.deep_view(),
{
    let ghost before = front.deep_view();
    let ghost added = back.deep_view();
    let mut back = back;
    front.append(&mut back);
    assert(front.deep_view() =~= before + added);
}

impl Listing {
    /// A listing of which nothing has been read: it asks for page one.
    pub fn new() -> (listing: Listing)
        ensures
            listing@ == fresh_listing(),
    {
        let listing = Listing { page: 1, items: Vec::new(), open: true };
        assert(listing.items.deep_view() =~= Seq::empty());
        listing
    }

    /// The page to ask for next, while one is still to be read.
    pub fn next_page(&self) -> (page: Option<u32>)
        ensures
            page == if self@.open {
                Some(self@.page)
            } else {
                None::<u32>
            },
    {
        if self.open {
            Some(self.page)
        } else {
            None
        }
    }

    /// Whether every page has been read.
    pub fn is_complete(&self) -> (complete: bool)
        ensures
            complete == !self@.open,
    {
        !self.open
    }

    /// Takes in the page that was asked for.
    pub fn accept(&mut self, page: Page)
        ensures
            final(self)@ == accepted(old(self)@, page@),
    {
        if !self.open {
            return ;
        }
        let count: u32 = match page.number_of_pages {
            Some(count) => count,
            None => 1,
        };
        append_texts(&mut self.items, page.items);
        if self.page < count {
            self.page = self.page + 1;
        } else {
            self.open = false;
        }
    }

    /// The items that were read, in the order they came in.
    pub fn items(&self) -> (items: &Vec<String>)
        ensures
            items.deep_view() == self@.items,
    {
        &self.items
    }

    /// The items that were read, in the order they came in.
    pub fn into_items(self) -> (items: Vec<String>)
        ensures
            items.deep_view() == self@.items,
    {
        self.items
    }
}

/// What the service answered to each request: a page, or the cause of a
/// failure.
pub open spec fn answers_view(answers: Seq<Result<Page, String>>) -> Seq<Result<PageView, String>> {
    answers.map_values(|answer: Result<Page, String>| answer_view(answer))
}

/// What a listing comes to when its requests are answered by `answers`, in
/// their order: it takes pages in while it is open and answers are left,
/// and fails with the cause of the first failed request it makes.
pub open spec fn listed(listing: ListingView, answers: Seq<Result<PageView, String>>) -> Result<
    ListingView,
    String,
>
    decreases answers.len(),
{
    if answers.len() == 0 || !listing.open {
        Ok(listing)
    } else {
        match answers[0] {
            Ok(page) => listed(accepted(listing, page), answers.drop_first()),
            Err(cause) => Err(cause),
        }
    }
}

/// Whether `answers` answer every request that a listing makes from its
/// first page on: they close the listing, or one of them is a failure that
/// the listing meets.
pub open spec fn answers_suffice(answers: Seq<Result<PageView, String>>) -> bool {
    match listed(fresh_listing(), answers) {
        Ok(listing) => !listing.open,
        Err(_) => true,
    }
}

/// The whole history of a branch of `repository`, newest entry first, as
/// the service's answers to the page requests give it.
///
/// A repository without an owner is not asked about: that fails with
/// `NoOwnerError`. For every other repository the answers have to reach as
/// far as the listing asks: the service answers every request. A request
/// that fails makes the listing fail with its cause. Otherwise the history
/// holds the items of every page up to the one that closes the listing, in
/// order; answers beyond that are not looked at.
pub fn list_commits(
    repository: &Repository,
    answers: Vec<Result<Page, String>>,
) -> (history: Result<Vec<String>, Error>)
    requires
        repository@.owner is Some ==> answers_suffice(answers_view(answers@)),
    ensures
        match repository@.owner {
            None => history matches Err(e) && e == Error::NoOwnerError,
            Some(_) => match listed(fresh_listing(), answers_view(answers@)) {
                Ok(listing) => history matches Ok(commits) && commits.deep_view()
                    == listing.items && !listing.open,
                Err(cause) => history matches Err(e) && e == Error::OctocrabError(cause),
            },
        },
{
    if repository.owner.is_none() {
        return Err(Error::NoOwnerError);
    }
    let ghost all = answers_view(answers@);
    let mut listing = Listing::new();
    assert(all.skip(0) =~= all);
    for answer in it: answers
        invariant
            it.seq() == answers@,
            all == answers_view(answers@),
            repository@.owner is Some,
            listed(fresh_listing(), all) == listed(listing@, all.skip(it.index() as int)),
    {
        let ghost at = it.index() as int;
        proof {
            assert(all.skip(at)[0] == answer_view(answer));
            assert(all.skip(at).drop_first() =~= all.skip(at + 1));
        }
        if !listing.is_complete() {
            match answer {
                Ok(page) => {
                    listing.accept(page);
                },
                Err(cause) => {
                    return Err(Error::OctocrabError(cause));
                },
            }
        } else {
            proof {
                lemma_closed_listing_stays(listing@, all.skip(at));
                lemma_closed_listing_stays(listing@, all.skip(at + 1));
            }
        }
    }
    assert(all.skip(all.len() as int) =~= Seq::empty());
    Ok(listing.into_items())
}

/// A closed listing makes no request, whatever the answers would be.
proof fn lemma_closed_listing_stays(listing: ListingView, answers: Seq<Result<PageView, String>>)
    requires
        !listing.open,
    ensures
        listed(listing, answers) == Ok::<ListingView, String>(listing),
{
}

/// What an evaluation is doing.
#[derive(Debug)]
pub enum Stage {
    /// The branch names are being read.
    Branches,
    /// The history of the branch is being read.
    Commits,
    /// The evaluation has ended.
    Finished(Result<Relation, Error>),
}

/// How many items are asked for with each page.
pub const PAGE_SIZE: u8 = 100;

/// What an evaluation asks of the service next.
#[derive(Debug)]
pub enum Request {
    /// A page of the branch names of a repository.
    Branches { owner: String, name: String, per_page: u8, page: u32 },
    /// A page of the history of a branch of a repository.
    Commits { owner: String, name: String, branch: String, per_page: u8, page: u32 },
}

/// What a [`Request`] holds.
pub enum RequestView {
    Branches { owner: Seq<char>, name: Seq<char>, per_page: u8, page: u32 },
    Commits { owner: Seq<char>, name: Seq<char>, branch: Seq<char>, per_page: u8, page: u32 },
}

impl View for Request {
    type V = RequestView;

    open spec fn view(&self) -> RequestView {
        match *self {
            Request::Branches { owner, name, per_page, page } => RequestView::Branches {
                owner: owner@,
                name: name@,
                per_page,
                page,
            },
            Request::Commits { owner, name, branch, per_page, page } => RequestView::Commits {
                owner: owner@,
                name: name@,
                branch: branch@,
                per_page,
                page,
            },
        }
    }
}

impl DeepView for Request {
    type V = RequestView;

    open spec fn deep_view(&self) -> RequestView {
        self@
    }
}

/// The evaluation of the relation between a local commit and a branch of a
/// remote repository.
#[derive(Debug)]
pub struct Evaluation {
    owner: String,
    name: String,
    branch: String,
    current: String,
    stage: Stage,
    listing: Listing,
}

/// What an [`Evaluation`] holds.
pub struct EvaluationView {
    pub owner: Seq<char>,
    pub name: Seq<char>,
    pub branch: Seq<char>,
    pub current: Seq<char>,
    pub stage: Stage,
    pub listing: ListingView,
}

impl View for Evaluation {
    type V = EvaluationView;

    closed spec fn view(&self) -> EvaluationView {
        EvaluationView {
            owner: self.owner@,
            name: self.name@,
            branch: self.branch@,
            current: self.current@,
            stage: self.stage,
            listing: self.listing@,
        }
    }
}

/// What the service answered: a page, or the cause of a failure.
pub open spec fn answer_view(answer: Result<Page, String>) -> Result<PageView, String> {
    match answer {
        Ok(page) => Ok(page@),
        Err(cause) => Err(cause),
    }
}

/// The evaluation as it starts: it reads the branch names from page one
/// on, unless the repository has no owner, which ends it with an error.
pub open spec fn started(
    owner: Option<Seq<char>>,
    name: Seq<char>,
    branch: Seq<char>,
    current: Seq<char>,
) -> EvaluationView {
    EvaluationView {
        owner: match owner {
            Some(owner) => owner,
            None => Seq::empty(),
        },
        name,
        branch,
        current,
        stage: match owner {
            Some(_) => Stage::Branches,
            None => Stage::Finished(Err(Error::NoOwnerError)),
        },
        listing: fresh_listing(),
    }
}

/// What the evaluation asks for, while it has not ended: the page that
/// its listing is at, of a hundred items.
pub open spec fn request_of(evaluation: EvaluationView) -> Option<RequestView> {
    match evaluation.stage {
        Stage::Branches => Some(
            RequestView::Branches {
                owner: evaluation.owner,
                name: evaluation.name,
                per_page: PAGE_SIZE,
                page: evaluation.listing.page,
            },
        ),
        Stage::Commits => Some(
            RequestView::Commits {
                owner: evaluation.owner,
                name: evaluation.name,
                branch: evaluation.branch,
                per_page: PAGE_SIZE,
                page: evaluation.listing.page,
            },
        ),
        Stage::Finished(_) => None,
    }
}

/// The evaluation after the answer to its request has come in.
///
/// An evaluation that has ended stays as it is. A failed request ends it
/// with the cause. A page is taken into the listing that is being read.
/// Once the branch names are complete, the evaluation ends with `Null`
/// where the branch is not among them, and goes on to read the history
/// from page one where it is. Once the history is complete, the evaluation
/// ends with the relation of the commit to it.
pub open spec fn supplied(
    evaluation: EvaluationView,
    answer: Result<PageView, String>,
) -> EvaluationView {
    match evaluation.stage {
        Stage::Finished(_) => evaluation,
        Stage::Branches => match answer {
            Err(cause) => EvaluationView {
                stage: Stage::Finished(Err(Error::OctocrabError(cause))),
                ..evaluation
            },
            Ok(page) => {
                let listing = accepted(evaluation.listing, page);
                if listing.open {
                    EvaluationView { listing, ..evaluation }
                } else if listing.items.contains(evaluation.branch) {
                    EvaluationView {
                        stage: Stage::Commits,
                        listing: fresh_listing(),
                        ..evaluation
                    }
                } else {
                    EvaluationView {
                        stage: Stage::Finished(Ok(Relation::Null)),
                        listing,
                        ..evaluation
                    }
                }
            },
        },
        Stage::Commits => match answer {
            Err(cause) => EvaluationView {
                stage: Stage::Finished(Err(Error::OctocrabError(cause))),
                ..evaluation
            },
            Ok(page) => {
                let listing = accepted(evaluation.listing, page);
                if listing.open {
                    EvaluationView { listing, ..evaluation }
                } else {
                    EvaluationView {
                        stage: Stage::Finished(
                            Ok(relation_of(listing.items, evaluation.current)),
                        ),
                        listing,
                        ..evaluation
                    }
                }
            },
        },
    }
}

/// Starts the evaluation of how the commit `current` relates to the branch
/// `branch` of `repository`.
pub fn remote_branch_relation(repository: &Repository, branch: &str, current: &str) -> (evaluation:
    Evaluation)
    ensures
        evaluation@ == started(repository@.owner, repository@.name, branch@, current@),
{
    let (owner, stage) = match &repository.owner {
        Some(owner) => (owner.clone(), Stage::Branches),
        None => (String::new(), Stage::Finished(Err(Error::NoOwnerError))),
    };
    Evaluation {
        owner,
        name: repository.name.clone(),
        branch: branch.to_string(),
        current: current.to_string(),
        stage,
        listing: Listing::new(),
    }
}

impl Evaluation {
    /// What to ask of the service next; `None` once the evaluation has
    /// ended.
    pub fn request(&self) -> (request: Option<Request>)
        ensures
            request.deep_view() == request_of(self@),
    {
        match &self.stage {
            Stage::Branches => Some(
                Request::Branches {
                    owner: self.owner.clone(),
                    name: self.name.clone(),
                    per_page: PAGE_SIZE,
                    page: self.listing.page,
                },
            ),
            Stage::Commits => Some(
                Request::Commits {
                    owner: self.owner.clone(),
                    name: self.name.clone(),
                    branch: self.branch.clone(),
                    per_page: PAGE_SIZE,
                    page: self.listing.page,
                },
            ),
            Stage::Finished(_) => None,
        }
    }

    /// Takes in the answer to the request.
    pub fn supply(&mut self, answer: Result<Page, String>)
        ensures
            final(self)@ == supplied(old(self)@, answer_view(answer)),
    {
        match &self.stage {
            Stage::Finished(_) => {},
            Stage::Branches => match answer {
                Err(cause) => {
                    self.stage = Stage::Finished(Err(Error::OctocrabError(cause)));
                },
                Ok(page) => {
                    self.listing.accept(page);
                    if self.listing.is_complete() {
                        if is_remote_branch(self.listing.items(), self.branch.as_str()) {
                            self.stage = Stage::Commits;
                            self.listing = Listing::new();
                        } else {
                            self.stage = Stage::Finished(Ok(Relation::Null));
                        }
                    }
                },
            },
            Stage::Commits => match answer {
                Err(cause) => {
                    self.stage = Stage::Finished(Err(Error::OctocrabError(cause)));
                },
                Ok(page) => {
                    self.listing.accept(page);
                    if self.listing.is_complete() {
                        let relation = commit_relation(
                            self.listing.items(),
                            self.current.as_str(),
                        );
                        self.stage = Stage::Finished(Ok(relation));
                    }
                },
            },
        }
    }

    /// How the evaluation ended; `None` while it has not.
    pub fn outcome(&self) -> (outcome: Option<Result<Relation, Error>>)
        ensures
            outcome == match self@.stage {
                Stage::Finished(result) => Some(result),
                _ => None::<Result<Relation, Error>>,
            },
    {
        match &self.stage {
            Stage::Finished(Ok(relation)) => Some(Ok(*relation)),
            Stage::Finished(Err(e)) => Some(Err(e.clone())),
            _ => None,
        }
    }
}

/// The listing after these pages have come in, one after the other.
pub open spec fn read(listing: ListingView, pages: Seq<PageView>) -> ListingView
    decreases pages.len(),
{
    if pages.len() == 0 {
        listing
    } else {
        accepted(read(listing, pages.drop_last()), pages.last())
    }
}

/// The items of these pages, end to end.
pub open spec fn all_items(pages: Seq<PageView>) -> Seq<Seq<char>>
    decreases pages.len(),
{
    if pages.len() == 0 {
        Seq::empty()
    } else {
        all_items(pages.drop_last()) + pages.last().items
    }
}

/// Whether these are the pages of one listing, from the first to the last:
/// each page but the last reports more pages than its own number, and the
/// last one does not.
pub open spec fn is_whole_listing(pages: Seq<PageView>) -> bool {
    &&& 1 <= pages.len() <= u32::MAX
    &&& forall|i: int| 0 <= i < pages.len() - 1 ==> i + 1 < page_count(#[trigger] pages[i])
    &&& page_count(pages.last()) <= pages.len()
}

/// The evaluation after these pages have come in, one after the other.
pub open spec fn answered(evaluation: EvaluationView, pages: Seq<PageView>) -> EvaluationView
    decreases pages.len(),
{
    if pages.len() == 0 {
        evaluation
    } else {
        supplied(answered(evaluation, pages.drop_last()), Ok(pages.last()))
    }
}

/// While the pages of a listing come in, the listing asks for the page
/// after those it has read, and holds their items in order.
proof fn lemma_listing_in_progress(pages: Seq<PageView>, count: int)
    requires
        is_whole_listing(pages),
        0 <= count < pages.len(),
    ensures
        read(fresh_listing(), pages.take(count)) == (ListingView {
            page: (count + 1) as u32,
            items: all_items(pages.take(count)),
            open: true,
        }),
    decreases count,
{
    if count == 0 {
        assert(pages.take(0) =~= Seq::empty());
    } else {
        lemma_listing_in_progress(pages, count - 1);
        assert(pages.take(count).drop_last() =~= pages.take(count - 1));
        assert(pages.take(count).last() == pages[count - 1]);
    }
}

/// A listing is drained in ascending page order, and stops when the
/// reported number of pages is reached: once the pages of a whole listing
/// have come in, the listing is closed and holds the items of all of them,
/// in order.
pub proof fn lemma_listing_reads_all(pages: Seq<PageView>)
    requires
        is_whole_listing(pages),
    ensures
        read(fresh_listing(), pages) == (ListingView {
            page: pages.len() as u32,
            items: all_items(pages),
            open: false,
        }),
        forall|count: int|
            0 <= count < pages.len() ==> (#[trigger] read(
                fresh_listing(),
                pages.take(count),
            )).open && read(fresh_listing(), pages.take(count)).page == count + 1,
{
    let last = pages.len() - 1;
    lemma_listing_in_progress(pages, last);
    assert(pages.drop_last() =~= pages.take(last));
    assert forall|count: int| 0 <= count < pages.len() implies (#[trigger] read(
        fresh_listing(),
        pages.take(count),
    )).open && read(fresh_listing(), pages.take(count)).page == count + 1 by {
        lemma_listing_in_progress(pages, count);
    }
}

/// The answers in which every request succeeds with the page at its
/// position.
pub open spec fn all_answered(pages: Seq<PageView>) -> Seq<Result<PageView, String>> {
    pages.map_values(|page: PageView| Ok::<PageView, String>(page))
}

/// From the page at `count` on, the answers of a whole listing bring the
/// listing to where all its pages have come in.
proof fn lemma_listed_from(pages: Seq<PageView>, count: int)
    requires
        is_whole_listing(pages),
        0 <= count <= pages.len(),
    ensures
        listed(read(fresh_listing(), pages.take(count)), all_answered(pages).skip(count)) == Ok::<
            ListingView,
            String,
        >(read(fresh_listing(), pages)),
    decreases pages.len() - count,
{
    let answers = all_answered(pages).skip(count);
    if count == pages.len() {
        assert(pages.take(count) =~= pages);
    } else {
        lemma_listing_in_progress(pages, count);
        lemma_listed_from(pages, count + 1);
        assert(answers[0] == Ok::<PageView, String>(pages[count]));
        assert(answers.drop_first() =~= all_answered(pages).skip(count + 1));
        assert(pages.take(count + 1).drop_last() =~= pages.take(count));
        assert(pages.take(count + 1).last() == pages[count]);
    }
}

/// Where every request of a whole listing is answered with its page, the
/// history that is listed holds the items of all pages, in order.
pub proof fn lemma_whole_listing_listed(pages: Seq<PageView>)
    requires
        is_whole_listing(pages),
    ensures
        listed(fresh_listing(), all_answered(pages)) == Ok::<ListingView, String>(
            ListingView { page: pages.len() as u32, items: all_items(pages), open: false },
        ),
        answers_suffice(all_answered(pages)),
{
    lemma_listed_from(pages, 0);
    lemma_listing_reads_all(pages);
    assert(pages.take(0) =~= Seq::empty());
    assert(all_answered(pages).skip(0) =~= all_answered(pages));
}

/// Pages that come in one run after another are pages that come in.
proof fn lemma_answered_in_turn(
    evaluation: EvaluationView,
    first: Seq<PageView>,
    later: Seq<PageView>,
)
    ensures
        answered(evaluation, first + later) == answered(answered(evaluation, first), later),
    decreases later.len(),
{
    if later.len() == 0 {
        assert(first + later =~= first);
    } else {
        lemma_answered_in_turn(evaluation, first, later.drop_last());
        assert((first + later).drop_last() =~= first + later.drop_last());
        assert((first + later).last() == later.last());
    }
}

/// While the pages of the listing it reads come in, an evaluation stays in
/// its stage and takes the pages into its listing.
proof fn lemma_evaluation_in_progress(evaluation: EvaluationView, pages: Seq<PageView>, count: int)
    requires
        is_whole_listing(pages),
        0 <= count < pages.len(),
        evaluation.stage is Branches || evaluation.stage is Commits,
        evaluation.listing == fresh_listing(),
    ensures
        answered(evaluation, pages.take(count)) == (EvaluationView {
            listing: read(fresh_listing(), pages.take(count)),
            ..evaluation
        }),
    decreases count,
{
    if count == 0 {
        assert(pages.take(0) =~= Seq::empty());
    } else {
        lemma_evaluation_in_progress(evaluation, pages, count - 1);
        lemma_listing_in_progress(pages, count - 1);
        lemma_listing_in_progress(pages, count);
        assert(pages.take(count).drop_last() =~= pages.take(count - 1));
        assert(pages.take(count).last() == pages[count - 1]);
    }
}

/// An evaluation that reads the whole listing of the branch names, and
/// then, where the branch is among them, the whole history of the branch,
/// ends with the relation of the commit to the branch. Where the branch is
/// not among the names it has ended with `Null` before any history is read.
pub proof fn lemma_evaluation_outcome(
    owner: Seq<char>,
    name: Seq<char>,
    branch: Seq<char>,
    current: Seq<char>,
    branches: Seq<PageView>,
    commits: Seq<PageView>,
)
    requires
        is_whole_listing(branches),
        is_whole_listing(commits),
    ensures
        !all_items(branches).contains(branch) ==> answered(
            started(Some(owner), name, branch, current),
            branches,
        ).stage == Stage::Finished(Ok(Relation::Null)),
        answered(started(Some(owner), name, branch, current), branches + commits).stage
            == Stage::Finished(
            Ok(branch_relation_of(all_items(branches), all_items(commits), branch, current)),
        ),
{
    let start = started(Some(owner), name, branch, current);
    let last = branches.len() - 1;
    lemma_evaluation_in_progress(start, branches, last);
    lemma_listing_reads_all(branches);
    assert(branches.drop_last() =~= branches.take(last));
    let between = answered(start, branches);
    lemma_answered_in_turn(start, branches, commits);
    if all_items(branches).contains(branch) {
        assert(between == EvaluationView {
            stage: Stage::Commits,
            listing: fresh_listing(),
            ..start
        });
        let end = commits.len() - 1;
        lemma_evaluation_in_progress(between, commits, end);
        lemma_listing_reads_all(commits);
        assert(commits.drop_last() =~= commits.take(end));
    } else {
        assert(between.stage == Stage::Finished(Ok(Relation::Null)));
        lemma_finished_stays(between, commits);
    }
}

/// An evaluation that has ended takes nothing in.
pub proof fn lemma_finished_stays(evaluation: EvaluationView, pages: Seq<PageView>)
    requires
        evaluation.stage is Finished,
    ensures
        answered(evaluation, pages) == evaluation,
    decreases pages.len(),
{
    if pages.len() > 0 {
        lemma_finished_stays(evaluation, pages.drop_last());
    }
}

} // verus!
