//! The route grammar: which view a location path selects, and the canonical
//! path of each view.
//!
//! Two patterns are recognised: `/images/{name}`, where `name` is everything
//! after `/images/` (at least one character, percent-decoded), and `/images`.
//! Every other path, `/images/` included, selects the catalog list: the
//! dashboard has no not-found view, so an unknown location shows the catalog.
//!
//! The name is decoded and written as the `percent` module says: escaped
//! UTF-8 becomes characters, and `%`, `?`, `#` and non-ASCII characters are
//! written as escapes.
use vstd::prelude::*;
use crate::percent::{decode_from, decoded_from, encode_char, lemma_decode_encoded, percent_encoded, push_percent_encoded};

verus! {

/// A view of the dashboard, as selected by a location path.
#[derive(Clone, Debug, PartialEq, Eq)]
pub enum AppRoute {
    /// The detail view of one image, by repository name.
    ImageDetail(String),
    /// The catalog list.
    Images,
}

/// What a route is, with the image name as a sequence of characters.
pub enum RouteView {
    ImageDetail(Seq<char>),
    Images,
}

impl View for AppRoute {
    type V = RouteView;

    open spec fn view(&self) -> RouteView {
        match self {
            AppRoute::ImageDetail(name) => RouteView::ImageDetail(name@),
            AppRoute::Images => RouteView::Images,
        }
    }
}

pub open spec fn list_path() -> Seq<char> {
    seq!['/', 'i', 'm', 'a', 'g', 'e', 's']
}

pub open spec fn detail_prefix() -> Seq<char> {
    list_path().push('/')
}

/// The view that location `p` selects.
pub open spec fn route_of(p: Seq<char>) -> RouteView {
    if p.len() > detail_prefix().len() && p.take(detail_prefix().len() as int) == detail_prefix() {
        RouteView::ImageDetail(decoded_from(p, detail_prefix().len() as int))
    } else {
        RouteView::Images
    }
}

/// The canonical location of a view.
pub open spec fn path_of(r: RouteView) -> Seq<char> {
    match r {
        RouteView::ImageDetail(name) => detail_prefix() + percent_encoded(name),
        RouteView::Images => list_path(),
    }
}

/// Whether `p` starts with `/images/` and has at least one more character.
fn has_detail_prefix(p: &str) -> (r: bool)
    ensures
        r == (p@.len() > detail_prefix().len() && p@.take(detail_prefix().len() as int)
            == detail_prefix()),
{
    let n = p.unicode_len();
    if n <= 8 {
        return false;
    }
    let r = p.get_char(0) == '/' && p.get_char(1) == 'i' && p.get_char(2) == 'm'
        && p.get_char(3) == 'a' && p.get_char(4) == 'g' && p.get_char(5) == 'e'
        && p.get_char(6) == 's' && p.get_char(7) == '/';
    if r {
        assert(p@.take(8) =~= detail_prefix());
    } else {
        assert(p@.take(8)[0] == p@[0] && p@.take(8)[1] == p@[1] && p@.take(8)[2] == p@[2]
            && p@.take(8)[3] == p@[3] && p@.take(8)[4] == p@[4] && p@.take(8)[5] == p@[5]
            && p@.take(8)[6] == p@[6] && p@.take(8)[7] == p@[7]);
    }
    r
}

/// The view that the location path `path` selects: the detail view of the
/// percent-decoded name after `/images/`, or else the catalog list.
pub fn resolve(path: &str) -> (r: AppRoute)
    ensures
        r@ == route_of(path@),
{
    if has_detail_prefix(path) {
        AppRoute::ImageDetail(decode_from(path, 8))
    } else {
        AppRoute::Images
    }
}

/// The canonical location of `route`, where navigating to it leads.
pub fn route_path(route: &AppRoute) -> (r: String)
    ensures
        r@ == path_of(route@),
{
    match route {
        AppRoute::Images => {
            proof {
                reveal_strlit("/images");
            }
            let r = String::from_str("/images");
            assert(r@ =~= list_path());
            r
        },
        AppRoute::ImageDetail(name) => {
            proof {
                reveal_strlit("/images/");
            }
            let mut out = String::from_str("/images/");
            assert(out@ =~= detail_prefix());
            push_percent_encoded(&mut out, name.as_str());
            out
        },
    }
}

/// Navigating to a route and resolving the location that results gives the
/// same route back, for every route whose image name is not empty.
pub proof fn lemma_resolve_route_path(r: RouteView)
    requires
        r matches RouteView::ImageDetail(name) ==> name.len() > 0,
    ensures
        route_of(path_of(r)) == r,
{
    match r {
        RouteView::ImageDetail(name) => {
            let p = path_of(r);
            lemma_decode_encoded(detail_prefix(), name);
            assert(percent_encoded(name).len() > 0) by {
                assert(encode_char(name[0]).len() > 0);
            }
            assert(p.take(8) =~= detail_prefix());
        },
        RouteView::Images => {
            assert(list_path().len() == 7);
        },
    }
}

/// Resolving is a function of the path alone: equal paths select equal views.
pub proof fn lemma_resolve_deterministic(a: Seq<char>, b: Seq<char>)
    requires
        a == b,
    ensures
        route_of(a) == route_of(b),
{
}

} // verus!
