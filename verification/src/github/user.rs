//! The repositories of the authenticated user.

use crate::project::laws::distinct_ids;
use vstd::prelude::*;
use vstd::string::*;

verus! {

/// A point in time: seconds since the Unix epoch, and the nanoseconds past
/// that second.
#[derive(Debug, Clone, Copy, PartialEq, Eq, Structural)]
pub struct Timestamp {
    pub seconds: i64,
    pub nanoseconds: u32,
}

/// The filters of a repository listing. Each may be left unset.
#[derive(Debug)]
pub struct ListParameters {
    pub visibility: Option<String>,
    pub affiliation: Option<String>,
    pub repo_type: Option<String>,
    pub sort: Option<String>,
    pub direction: Option<String>,
    pub per_page: Option<u32>,
    pub page: Option<u32>,
    pub since: Option<Timestamp>,
    pub before: Option<Timestamp>,
}

impl Default for ListParameters {
    fn default() -> (params: Self)
        ensures
            params.visibility is None,
            params.affiliation is None,
            params.repo_type is None,
            params.sort is None,
            params.direction is None,
            params.per_page is None,
            params.page is None,
            params.since is None,
            params.before is None,
    {
        ListParameters {
            visibility: None,
            affiliation: None,
            repo_type: None,
            sort: None,
            direction: None,
            per_page: None,
            page: None,
            since: None,
            before: None,
        }
    }
}

impl Clone for ListParameters {
    fn clone(&self) -> (copy: Self)
        ensures
            copy == *self,
    {
        ListParameters {
            visibility: self.visibility.clone(),
            affiliation: self.affiliation.clone(),
            repo_type: self.repo_type.clone(),
            sort: self.sort.clone(),
            direction: self.direction.clone(),
            per_page: self.per_page,
            page: self.page,
            since: self.since,
            before: self.before,
        }
    }
}

/// The filters as the service takes them: page numbers and sizes are single
/// bytes there.
#[derive(Debug)]
pub struct ListQuery {
    pub visibility: Option<String>,
    pub affiliation: Option<String>,
    pub repo_type: Option<String>,
    pub sort: Option<String>,
    pub direction: Option<String>,
    pub per_page: Option<u8>,
    pub page: Option<u8>,
    pub since: Option<Timestamp>,
    pub before: Option<Timestamp>,
}

/// A count as the service takes it: its lowest eight bits.
pub open spec fn low_byte(count: Option<u32>) -> Option<u8> {
    match count {
        Some(n) => Some((n % 256) as u8),
        None => None,
    }
}

/// The lowest eight bits of `count`, where it is set.
fn byte_of(count: Option<u32>) -> (byte: Option<u8>)
    ensures
        byte == low_byte(count),
{
    match count {
        Some(n) => Some((n % 256) as u8),
        None => None,
    }
}

/// The query that is sent for `params`: every filter is handed on as it is,
/// but for the page number and the page size, of which the service takes the
/// lowest eight bits.
pub fn list_query(params: &ListParameters) -> (query: ListQuery)
    ensures
        query.visibility == params.visibility,
        query.affiliation == params.affiliation,
        query.repo_type == params.repo_type,
        query.sort == params.sort,
        query.direction == params.direction,
        query.per_page == low_byte(params.per_page),
        query.page == low_byte(params.page),
        query.since == params.since,
        query.before == params.before,
{
    ListQuery {
        visibility: params.visibility.clone(),
        affiliation: params.affiliation.clone(),
        repo_type: params.repo_type.clone(),
        sort: params.sort.clone(),
        direction: params.direction.clone(),
        per_page: byte_of(params.per_page),
        page: byte_of(params.page),
        since: params.since,
        before: params.before,
    }
}

/// Why a listing could not be had.
#[derive(Debug)]
pub enum Error {
    /// The request failed; the text says how.
    OctocrabError(String),
}

impl Error {
    /// The text of the error: that of the failed request.
    pub fn message(&self) -> (text: String)
        ensures
            text@ == self->OctocrabError_0@,
    {
        match self {
            Error::OctocrabError(cause) => cause.clone(),
        }
    }
}

impl Clone for Error {
    fn clone(&self) -> (copy: Self)
        ensures
            copy == *self,
    {
        match self {
            Error::OctocrabError(cause) => Error::OctocrabError(cause.clone()),
        }
    }
}

/// One repository as the service lists it.
#[derive(Debug)]
pub struct RepositoryListing {
    pub id: u64,
    pub name: String,
    pub full_name: Option<String>,
    pub owner: Option<String>,
    pub description: Option<String>,
    pub ssh_url: Option<String>,
    pub visibility: Option<String>,
    pub created_at: Option<Timestamp>,
    pub updated_at: Option<Timestamp>,
}

/// What a [`RepositoryListing`] holds.
pub struct RepositoryListingView {
    pub id: u64,
    pub name: Seq<char>,
    pub full_name: Option<Seq<char>>,
    pub owner: Option<Seq<char>>,
    pub description: Option<Seq<char>>,
    pub ssh_url: Option<Seq<char>>,
    pub visibility: Option<Seq<char>>,
    pub created_at: Option<Timestamp>,
    pub updated_at: Option<Timestamp>,
}

impl View for RepositoryListing {
    type V = RepositoryListingView;

    open spec fn view(&self) -> RepositoryListingView {
        RepositoryListingView {
            id: self.id,
            name: self.name@,
            full_name: self.full_name.deep_view(),
            owner: self.owner.deep_view(),
            description: self.description.deep_view(),
            ssh_url: self.ssh_url.deep_view(),
            visibility: self.visibility.deep_view(),
            created_at: self.created_at,
            updated_at: self.updated_at,
        }
    }
}

impl DeepView for RepositoryListing {
    type V = RepositoryListingView;

    open spec fn deep_view(&self) -> RepositoryListingView {
        self@
    }
}

/// A repository on the hosting service. Its `id` tells it from every other.
#[derive(Debug)]
pub struct Repository {
    pub id: u64,
    pub name: String,
    pub url: Option<String>,
    pub owner: Option<String>,
    pub description: Option<String>,
    pub ssh_url: Option<String>,
    pub visibility: Option<String>,
    pub created_at: Option<Timestamp>,
    pub updated_at: Option<Timestamp>,
}

/// What a [`Repository`] holds.
pub struct RepositoryView {
    pub id: u64,
    pub name: Seq<char>,
    pub url: Option<Seq<char>>,
    pub owner: Option<Seq<char>>,
    pub description: Option<Seq<char>>,
    pub ssh_url: Option<Seq<char>>,
    pub visibility: Option<Seq<char>>,
    pub created_at: Option<Timestamp>,
    pub updated_at: Option<Timestamp>,
}

impl View for Repository {
    type V = RepositoryView;

    open spec fn view(&self) -> RepositoryView {
        RepositoryView {
            id: self.id,
            name: self.name@,
            url: self.url.deep_view(),
            owner: self.owner.deep_view(),
            description: self.description.deep_view(),
            ssh_url: self.ssh_url.deep_view(),
            visibility: self.visibility.deep_view(),
            created_at: self.created_at,
            updated_at: self.updated_at,
        }
    }
}

impl DeepView for Repository {
    type V = RepositoryView;

    open spec fn deep_view(&self) -> RepositoryView {
        self@
    }
}

impl Clone for Repository {
    fn clone(&self) -> (copy: Self)
        ensures
            copy@ == self@,
    {
        Repository {
            id: self.id,
            name: self.name.clone(),
            url: self.url.clone(),
            owner: self.owner.clone(),
            description: self.description.clone(),
            ssh_url: self.ssh_url.clone(),
            visibility: self.visibility.clone(),
            created_at: self.created_at,
            updated_at: self.updated_at,
        }
    }
}

/// The host that web URLs of repositories are written under, with the slash
/// that follows it: `github.com/`.
pub open spec fn web_host() -> Seq<char> {
    seq!['g', 'i', 't', 'h', 'u', 'b', '.', 'c', 'o', 'm', '/']
}

/// The repository that a listing stands for: it keeps the listed id, its
/// web URL is the host followed by the full name, and the rest is taken
/// over.
pub open spec fn repository_of(listing: RepositoryListingView) -> RepositoryView {
    RepositoryView {
        id: listing.id,
        name: listing.name,
        url: match listing.full_name {
            Some(full_name) => Some(web_host() + full_name),
            None => None,
        },
        owner: listing.owner,
        description: listing.description,
        ssh_url: listing.ssh_url,
        visibility: listing.visibility,
        created_at: listing.created_at,
        updated_at: listing.updated_at,
    }
}

impl Repository {
    /// The repository that `listing` stands for.
    pub fn from_listing(listing: &RepositoryListing) -> (repository: Repository)
        ensures
            repository@ == repository_of(listing@),
    {
        proof {
            reveal_strlit("github.com/");
            assert("github.com/"@ =~= web_host());
        }
        let url = match &listing.full_name {
            Some(full_name) => Some("github.com/".to_string().concat(full_name.as_str())),
            None => None,
        };
        Repository {
            id: listing.id,
            name: listing.name.clone(),
            url,
            owner: listing.owner.clone(),
            description: listing.description.clone(),
            ssh_url: listing.ssh_url.clone(),
            visibility: listing.visibility.clone(),
            created_at: listing.created_at,
            updated_at: listing.updated_at,
        }
    }
}

/// The repositories of a listing, in the order of the listing.
pub open spec fn repositories_of(listings: Seq<RepositoryListingView>) -> Seq<RepositoryView> {
    listings.map_values(|listing: RepositoryListingView| repository_of(listing))
}

/// Whether no two entries of a page share an id.
pub open spec fn distinct_listed_ids(listings: Seq<RepositoryListingView>) -> bool {
    forall|i: int, j: int|
        0 <= i < j < listings.len() ==> (#[trigger] listings[i]).id != (#[trigger] listings[j]).id
}

/// The repositories of a page keep the ids of its entries, position by
/// position: where no two entries share an id, no two repositories do.
pub proof fn lemma_listed_ids_kept(listings: Seq<RepositoryListingView>)
    ensures
        repositories_of(listings).len() == listings.len(),
        forall|k: int|
            0 <= k < listings.len() ==> (#[trigger] repositories_of(listings)[k]).id
                == listings[k].id,
        distinct_listed_ids(listings) ==> distinct_ids(repositories_of(listings)),
{
    if distinct_listed_ids(listings) {
        let repositories = repositories_of(listings);
        assert forall|i: int, j: int| 0 <= i < j < repositories.len() implies (
        #[trigger] repositories[i]).id != (#[trigger] repositories[j]).id by {
            assert(listings[i].id != listings[j].id);
        }
    }
}

/// Turns the answer to a listing request into repositories: a failed request
/// fails with its cause, an answered one gives one repository for each entry
/// of the page, in the page's order.
pub fn list_repos(page: Result<Vec<RepositoryListing>, String>) -> (listed: Result<
    Vec<Repository>,
    Error,
>)
    ensures
        match page {
            Ok(listings) => listed matches Ok(repositories) && repositories.deep_view()
                == repositories_of(listings.deep_view()),
            Err(cause) => listed matches Err(e) && e == Error::OctocrabError(cause),
        },
{
    match page {
        Ok(listings) => {
            let mut repositories: Vec<Repository> = Vec::new();
            let mut i: usize = 0;
            while i < listings.len()
                invariant
                    i <= listings@.len(),
                    repositories@.len() == i,
                    forall|k: int|
                        0 <= k < i ==> (#[trigger] repositories@[k])@ == repository_of(
                            listings@[k]@,
                        ),
                decreases listings@.len() - i,
            {
                repositories.push(Repository::from_listing(&listings[i]));
                i += 1;
            }
            assert(repositories.deep_view() =~= repositories_of(listings.deep_view()));
            Ok(repositories)
        },
        Err(cause) => Err(Error::OctocrabError(cause)),
    }
}

} // verus!
