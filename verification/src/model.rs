//! The data model: links, their targets, and the errors of the service.

use vstd::prelude::*;

verus! {

/// Whether a redirect may be cached by the client for good.
#[derive(Clone, Copy, Debug, PartialEq, Eq, Structural)]
pub enum RedirectMode {
    Temporary,
    Permanent,
}

/// Why an operation on links failed.
#[derive(Clone, Copy, Debug, PartialEq, Eq, Structural)]
pub enum LinkError {
    /// The code is unknown, or the link has no target to redirect to.
    LinkNotFound,
    /// A link with this code exists already.
    DuplicateCode,
    /// A link was to be created without any destination.
    EmptyTargetList,
    /// The store could not carry out the operation.
    StoreUnavailable,
}

/// A short code with its redirect mode and its visit counter.
#[derive(Clone, Debug, PartialEq, Eq)]
pub struct Link {
    pub id: u64,
    pub code: String,
    pub redirect_mode: RedirectMode,
    pub visit_count: u64,
}

/// What a [`Link`] is: its code as a sequence of characters, its numbers
/// as naturals.
pub struct LinkView {
    pub id: nat,
    pub code: Seq<char>,
    pub redirect_mode: RedirectMode,
    pub visit_count: nat,
}

impl View for Link {
    type V = LinkView;

    open spec fn view(&self) -> LinkView {
        LinkView {
            id: self.id as nat,
            code: self.code@,
            redirect_mode: self.redirect_mode,
            visit_count: self.visit_count as nat,
        }
    }
}

/// One destination of a link, with its own visit counter.
#[derive(Clone, Debug, PartialEq, Eq)]
pub struct Target {
    pub id: u64,
    pub link_id: u64,
    pub destination_url: String,
    pub visit_count: u64,
}

/// What a [`Target`] is: its URL as a sequence of characters, its numbers
/// as naturals.
pub struct TargetView {
    pub id: nat,
    pub link_id: nat,
    pub destination_url: Seq<char>,
    pub visit_count: nat,
}

impl View for Target {
    type V = TargetView;

    open spec fn view(&self) -> TargetView {
        TargetView {
            id: self.id as nat,
            link_id: self.link_id as nat,
            destination_url: self.destination_url@,
            visit_count: self.visit_count as nat,
        }
    }
}

/// The views of a sequence of links, in the same order.
pub open spec fn link_views(links: Seq<Link>) -> Seq<LinkView> {
    links.map_values(|l: Link| l@)
}

/// The views of a sequence of targets, in the same order.
pub open spec fn target_views(targets: Seq<Target>) -> Seq<TargetView> {
    targets.map_values(|t: Target| t@)
}

/// The destination URLs of a sequence of targets, in the same order.
pub open spec fn destination_urls(targets: Seq<TargetView>) -> Seq<Seq<char>> {
    targets.map_values(|t: TargetView| t.destination_url)
}

/// The views of a sequence of strings, in the same order.
pub open spec fn string_views(strings: Seq<String>) -> Seq<Seq<char>> {
    strings.map_values(|s: String| s@)
}

impl Link {
    /// A copy of this link.
    pub fn duplicate(&self) -> (copy: Link)
        ensures
            copy@ == self@,
    {
        Link {
            id: self.id,
            code: self.code.clone(),
            redirect_mode: self.redirect_mode,
            visit_count: self.visit_count,
        }
    }
}

impl Target {
    /// A copy of this target.
    pub fn duplicate(&self) -> (copy: Target)
        ensures
            copy@ == self@,
    {
        Target {
            id: self.id,
            link_id: self.link_id,
            destination_url: self.destination_url.clone(),
            visit_count: self.visit_count,
        }
    }
}

} // verus!
