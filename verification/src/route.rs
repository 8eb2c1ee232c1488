//! The pages of the front end and the paths under which they are reached.

use vstd::prelude::*;
use vstd::string::{StrSliceExecFns, StringExecFns};

verus! {

/// A page of the front end.
#[derive(Clone, Debug, PartialEq, Eq)]
pub enum Route {
    /// The start page, at `/`.
    Home,
    /// The page of one link, at `/info/` followed by the link's code.
    Link { link: String },
    /// The imprint, at `/imprint`.
    Imprint,
}

/// What a [`Route`] is, with the code as a sequence of characters.
pub enum RouteView {
    Home,
    Link { link: Seq<char> },
    Imprint,
}

impl View for Route {
    type V = RouteView;

    open spec fn view(&self) -> RouteView {
        match self {
            Route::Home => RouteView::Home,
            Route::Link { link } => RouteView::Link { link: link@ },
            Route::Imprint => RouteView::Imprint,
        }
    }
}

/// The path of the start page.
pub open spec fn home_path() -> Seq<char> {
    seq!['/']
}

/// What the path of a link's page begins with.
pub open spec fn info_prefix() -> Seq<char> {
    seq!['/', 'i', 'n', 'f', 'o', '/']
}

/// The path of the imprint.
pub open spec fn imprint_path() -> Seq<char> {
    seq!['/', 'i', 'm', 'p', 'r', 'i', 'n', 't']
}

/// A text that can stand as one segment of a path: it is not empty and
/// holds no slash.
pub open spec fn is_segment(text: Seq<char>) -> bool {
    text.len() > 0 && forall|i: int| 0 <= i < text.len() ==> #[trigger] text[i] != '/'
}

/// The path under which a page is reached.
pub open spec fn path_of(route: RouteView) -> Seq<char> {
    match route {
        RouteView::Home => home_path(),
        RouteView::Link { link } => info_prefix() + link,
        RouteView::Imprint => imprint_path(),
    }
}

/// The page that a path leads to, if it leads to one.
pub open spec fn route_of(path: Seq<char>) -> Option<RouteView> {
    if path == home_path() {
        Some(RouteView::Home)
    } else if path == imprint_path() {
        Some(RouteView::Imprint)
    } else if path.len() > 6 && path.take(6) == info_prefix() && is_segment(path.skip(6)) {
        Some(RouteView::Link { link: path.skip(6) })
    } else {
        None
    }
}

/// A page is reached again under its own path, where a link's code can
/// stand as a segment.
pub proof fn law_route_round_trip(route: RouteView)
    requires
        route is Link ==> is_segment(route->link),
    ensures
        route_of(path_of(route)) == Some(route),
{
    match route {
        RouteView::Link { link } => {
            let path = info_prefix() + link;
            assert(path.take(6) =~= info_prefix());
            assert(path.skip(6) =~= link);
            assert(path[1] == 'i');
            assert(path != imprint_path()) by {
                if path == imprint_path() {
                    assert(path[2] == 'n');
                    assert(imprint_path()[2] == 'm');
                }
            }
        },
        RouteView::Home => {},
        RouteView::Imprint => {
            assert(imprint_path().take(6)[2] == 'm');
            assert(info_prefix()[2] == 'n');
        },
    }
}

/// A path that leads to a page is that page's path.
pub proof fn law_path_round_trip(path: Seq<char>)
    requires
        route_of(path) is Some,
    ensures
        path_of(route_of(path).unwrap()) == path,
{
    if path != home_path() && path != imprint_path() {
        assert(path.take(6) + path.skip(6) =~= path);
    }
}

impl Route {
    /// The path under which this page is reached.
    pub fn to_path(&self) -> (path: String)
        ensures
            path@ == path_of(self@),
    {
        proof {
            reveal_strlit("/");
            reveal_strlit("/info/");
            reveal_strlit("/imprint");
        }
        match self {
            Route::Home => {
                assert("/"@ =~= home_path());
                "/".to_owned()
            },
            Route::Link { link } => {
                assert("/info/"@ =~= info_prefix());
                let mut path = "/info/".to_owned();
                path.append(link.as_str());
                path
            },
            Route::Imprint => {
                assert("/imprint"@ =~= imprint_path());
                "/imprint".to_owned()
            },
        }
    }

    /// The page that a path leads to; none where the path is not that of a
    /// page.
    pub fn recognize(path: &str) -> (route: Option<Route>)
        ensures
            match route {
                Some(found) => route_of(path@) == Some(found@),
                None => route_of(path@) is None,
            },
    {
        proof {
            reveal_strlit("/");
            reveal_strlit("/info/");
            reveal_strlit("/imprint");
            assert("/"@ =~= home_path());
            assert("/info/"@ =~= info_prefix());
            assert("/imprint"@ =~= imprint_path());
        }
        let whole = path.to_owned();
        if whole == "/".to_owned() {
            return Some(Route::Home);
        }
        if whole == "/imprint".to_owned() {
            return Some(Route::Imprint);
        }
        let len = path.unicode_len();
        if len <= 6 {
            return None;
        }
        assert(path@.subrange(0, 6) =~= path@.take(6));
        if path.substring_char(0, 6).to_owned() != "/info/".to_owned() {
            return None;
        }
        let mut i: usize = 6;
        while i < len
            invariant
                len == path@.len(),
                6 <= i <= len,
                forall|k: int| 0 <= k < i - 6 ==> #[trigger] path@.skip(6)[k] != '/',
            decreases len - i,
        {
            if path.get_char(i) == '/' {
                assert(path@.skip(6)[i - 6] == '/');
                return None;
            }
            i += 1;
        }
        assert(path@.subrange(6, len as int) =~= path@.skip(6));
        Some(Route::Link { link: path.substring_char(6, len).to_owned() })
    }
}

} // verus!
