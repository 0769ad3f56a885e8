//! The catalog store: the fetch status of the catalog list and the
//! transitions that drive it. `Idle` becomes `Loading` once, when the list is
//! first shown, and `Loading` becomes `Succeeded` or `Failed` when that one
//! fetch resolves; both are final for a store. The store decides and the
//! caller acts: starting a fetch hands back the request to send, and the
//! response comes back as a message.
use vstd::prelude::*;
use crate::catalog::{error_message, get_image_list, outcome_view, FetchError, FetchErrorView, Image, catalog_path};
use crate::route::AppRoute;

verus! {

/// The lifecycle of the store's single catalog fetch.
#[derive(Debug, PartialEq, Eq)]
pub enum FetchStatus {
    Idle,
    Loading,
    Succeeded(Vec<String>),
    Failed(String),
}

pub enum StatusView {
    Idle,
    Loading,
    Succeeded(Seq<Seq<char>>),
    Failed(Seq<char>),
}

impl View for FetchStatus {
    type V = StatusView;

    open spec fn view(&self) -> StatusView {
        match self {
            FetchStatus::Idle => StatusView::Idle,
            FetchStatus::Loading => StatusView::Loading,
            FetchStatus::Succeeded(repos) => StatusView::Succeeded(repos.deep_view()),
            FetchStatus::Failed(m) => StatusView::Failed(m@),
        }
    }
}

/// A message to the catalog list: the outcome of its catalog fetch.
pub enum Msg {
    GetRegistryCatalog(Result<Vec<String>, FetchError>),
}

/// The status after a request to start fetching, and whether a fetch starts.
pub open spec fn begin_step(s: StatusView) -> (StatusView, bool) {
    if s is Idle {
        (StatusView::Loading, true)
    } else {
        (s, false)
    }
}

/// The status after a fetch outcome arrives: applied while loading, ignored
/// in any other state.
pub open spec fn resolve_step(
    s: StatusView,
    outcome: Result<Seq<Seq<char>>, FetchErrorView>,
) -> StatusView {
    if s is Loading {
        match outcome {
            Ok(repos) => StatusView::Succeeded(repos),
            Err(e) => StatusView::Failed(error_message(e)),
        }
    } else {
        s
    }
}

/// The names the catalog list shows: the repositories once they arrived,
/// and none in any other state.
pub open spec fn shown_names(s: StatusView) -> Seq<Seq<char>> {
    match s {
        StatusView::Succeeded(repos) => repos,
        _ => Seq::empty(),
    }
}

/// The state of the catalog list view.
pub struct Images {
    status: FetchStatus,
}

impl Images {
    pub closed spec fn status_view(&self) -> StatusView {
        self.status@
    }

    /// A new store, which has not fetched yet.
    pub fn create() -> (r: Images)
        ensures
            r.status_view() == StatusView::Idle,
    {
        Images { status: FetchStatus::Idle }
    }

    /// The current fetch status.
    pub fn current_status(&self) -> (r: &FetchStatus)
        ensures
            r@ == self.status_view(),
    {
        &self.status
    }

    /// Starts the catalog fetch if none was started yet: from `Idle` the store
    /// becomes `Loading` and the URL to request from `base_url` is returned;
    /// in any other state nothing changes and `None` is returned, so a store
    /// never has two fetches outstanding.
    pub fn begin_fetch_if_idle(&mut self, base_url: &str) -> (r: Option<String>)
        ensures
            (final(self).status_view(), r is Some) == begin_step(old(self).status_view()),
            r matches Some(url) ==> url@ == base_url@ + catalog_path(),
    {
        match self.status {
            FetchStatus::Idle => {
                self.status = FetchStatus::Loading;
                Some(get_image_list(base_url))
            },
            _ => None,
        }
    }

    /// Applies the outcome of the catalog fetch: while `Loading`, the store
    /// becomes `Succeeded` with the repositories or `Failed` with the error's
    /// message, and `true` is returned; in any other state the outcome is
    /// ignored and `false` is returned.
    pub fn on_fetch_resolved(&mut self, outcome: Result<Vec<String>, FetchError>) -> (r: bool)
        ensures
            final(self).status_view() == resolve_step(old(self).status_view(), outcome_view(&outcome)),
            r == (old(self).status_view() is Loading),
    {
        match self.status {
            FetchStatus::Loading => {
                match outcome {
                    Ok(repos) => {
                        self.status = FetchStatus::Succeeded(repos);
                    },
                    Err(e) => {
                        self.status = FetchStatus::Failed(e.message());
                    },
                }
                true
            },
            _ => false,
        }
    }

    /// Handles a message; the result says whether the view must be drawn again.
    pub fn update(&mut self, msg: Msg) -> (r: bool)
        ensures
            msg matches Msg::GetRegistryCatalog(outcome) ==> final(self).status_view()
                == resolve_step(old(self).status_view(), outcome_view(&outcome)),
            r == (old(self).status_view() is Loading),
    {
        match msg {
            Msg::GetRegistryCatalog(outcome) => self.on_fetch_resolved(outcome),
        }
    }

    /// The entries the catalog list shows, in the order of the repositories:
    /// one per repository once the fetch succeeded, none otherwise.
    pub fn image_list(&self) -> (r: Vec<Image>)
        ensures
            r@.len() == shown_names(self.status_view()).len(),
            forall|i: int| 0 <= i < r@.len() ==> #[trigger] r@[i].name@ == shown_names(self.status_view())[i],
            forall|i: int| 0 <= i < r@.len() ==> #[trigger] r@[i].body@ == Seq::<char>::empty(),
    {
        let mut out: Vec<Image> = Vec::new();
        match &self.status {
            FetchStatus::Succeeded(repos) => {
                let mut i: usize = 0;
                while i < repos.len()
                    invariant
                        i <= repos@.len(),
                        shown_names(self.status_view()) == repos.deep_view(),
                        out@.len() == i,
                        forall|j: int| 0 <= j < i ==> #[trigger] out@[j].name@ == repos@[j]@,
                        forall|j: int| 0 <= j < i ==> #[trigger] out@[j].body@ == Seq::<char>::empty(),
                    decreases repos@.len() - i,
                {
                    out.push(Image::new(repos[i].clone()));
                    i = i + 1;
                }
            },
            _ => {},
        }
        out
    }
}

impl Image {
    /// The route that activating this entry navigates to: its detail view.
    pub fn route(&self) -> (r: AppRoute)
        ensures
            r@ == crate::route::RouteView::ImageDetail(self.name@),
    {
        AppRoute::ImageDetail(self.name.clone())
    }
}

/// However often a fetch is requested before it resolves, at most one starts:
/// two requests in a row never both start one, and from `Idle` exactly the
/// first does.
pub proof fn lemma_single_fetch(s: StatusView)
    ensures
        !(begin_step(s).1 && begin_step(begin_step(s).0).1),
        s is Idle ==> begin_step(s).1 && !begin_step(begin_step(s).0).1,
{
}

/// `Succeeded` and `Failed` are final: neither a request to fetch nor a late
/// outcome changes them.
pub proof fn lemma_terminal_states(s: StatusView, outcome: Result<Seq<Seq<char>>, FetchErrorView>)
    requires
        s is Succeeded || s is Failed,
    ensures
        begin_step(s) == (s, false),
        resolve_step(s, outcome) == s,
{
}

/// A failed fetch shows a non-empty message and no entries.
pub proof fn lemma_failure_shows_nothing(e: FetchErrorView)
    ensures
        resolve_step(StatusView::Loading, Err(e)) matches StatusView::Failed(m) && m.len() > 0,
        shown_names(resolve_step(StatusView::Loading, Err(e))).len() == 0,
{
    crate::catalog::lemma_error_message_nonempty(e);
}

/// From a new store, starting the fetch and then receiving the repositories
/// ends in `Succeeded` with exactly those repositories, in order.
pub proof fn lemma_fetch_succeeds(repos: Seq<Seq<char>>)
    ensures
        resolve_step(begin_step(StatusView::Idle).0, Ok(repos)) == StatusView::Succeeded(repos),
        shown_names(resolve_step(begin_step(StatusView::Idle).0, Ok(repos))) == repos,
{
}

} // verus!
