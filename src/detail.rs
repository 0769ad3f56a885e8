//! The detail view of one image, which takes its name from the route.
use vstd::prelude::*;
use crate::route::{AppRoute, RouteView};

verus! {

/// What the detail view is given.
pub struct Props {
    pub image_name: String,
}

/// The state of the detail view.
pub struct ImageDetail {
    props: Props,
}

impl ImageDetail {
    pub closed spec fn name_view(&self) -> Seq<char> {
        self.props.image_name@
    }

    /// The detail view for `props`.
    pub fn create(props: Props) -> (r: ImageDetail)
        ensures
            r.name_view() == props.image_name@,
    {
        ImageDetail { props }
    }

    /// The detail view that `route` selects, if it selects one: `Some` with
    /// the route's image name for a detail route, `None` for the catalog list.
    pub fn from_route(route: &AppRoute) -> (r: Option<ImageDetail>)
        ensures
            route@ matches RouteView::ImageDetail(name) ==> r matches Some(d) && d.name_view() == name,
            route@ is Images ==> r is None,
    {
        match route {
            AppRoute::ImageDetail(name) => Some(ImageDetail::create(Props { image_name: name.clone() })),
            AppRoute::Images => None,
        }
    }

    /// The name of the image shown.
    pub fn image_name(&self) -> (r: &String)
        ensures
            r@ == self.name_view(),
    {
        &self.props.image_name
    }
}

} // verus!
