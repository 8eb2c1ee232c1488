//! The resolution engine: from a short code to one destination, chosen at
//! random among the link's first targets, with the visit counted.

use vstd::prelude::*;
use rand::seq::SliceRandom;
use crate::model::{Link, LinkError, LinkView, RedirectMode, Target, TargetView};
use crate::model::target_views;
use crate::store::{LinkStore, StoreState, lemma_owned_by_nonempty};

verus! {

/// How many targets of a link a resolution loads at most. Targets beyond
/// this bound are never chosen.
pub const TARGET_LOAD_CAP: usize = 10;

/// Where a visit is sent, and which counters it touches.
#[derive(Clone, Debug, PartialEq, Eq)]
pub struct Resolution {
    pub destination_url: String,
    pub redirect_mode: RedirectMode,
    pub link_id: u64,
    pub target_id: u64,
}

/// What a [`Resolution`] is, with its URL as a sequence of characters.
pub struct ResolutionView {
    pub destination_url: Seq<char>,
    pub redirect_mode: RedirectMode,
    pub link_id: nat,
    pub target_id: nat,
}

impl View for Resolution {
    type V = ResolutionView;

    open spec fn view(&self) -> ResolutionView {
        ResolutionView {
            destination_url: self.destination_url@,
            redirect_mode: self.redirect_mode,
            link_id: self.link_id as nat,
            target_id: self.target_id as nat,
        }
    }
}

/// The resolution that sends a visit of `link` to `target`.
pub open spec fn resolution_of(link: LinkView, target: TargetView) -> ResolutionView {
    ResolutionView {
        destination_url: target.destination_url,
        redirect_mode: link.redirect_mode,
        link_id: link.id,
        target_id: target.id,
    }
}

/// The targets among which a resolution of `code` chooses: the first
/// `TARGET_LOAD_CAP` targets of the link with this code, none where the
/// code is unknown.
pub open spec fn candidates(store: StoreState, code: Seq<char>) -> Seq<TargetView> {
    match store.lookup(code) {
        Some(link) => store.loaded(link.id, TARGET_LOAD_CAP as nat),
        None => Seq::empty(),
    }
}

/// The store after a visit of a link that was sent to one of its targets:
/// both counters have grown by one, each unless it cannot grow.
pub open spec fn visited(store: StoreState, link_id: nat, target_id: nat) -> StoreState {
    store.with_link_visit(link_id).with_target_visit(target_id)
}

/// What a store answered when it was asked for the link with a code.
#[derive(Clone, Debug, PartialEq, Eq)]
pub enum Lookup {
    /// The store holds this link under the code.
    Found(Link),
    /// The store holds no link under the code.
    Missing,
    /// The store could not answer.
    Failed,
}

/// What a store answered when it was asked for targets of a link.
#[derive(Clone, Debug, PartialEq, Eq)]
pub enum Load {
    /// The store holds these targets of the link, in its order.
    Loaded(Vec<Target>),
    /// The store could not answer.
    Failed,
}

/// Picks one of the targets with `rand::seq::SliceRandom::choose`, drawing
/// from `rand::thread_rng()`.
///
/// Claimed of it: an empty list gives nothing, any other list gives one of
/// its elements. Which one is left open. The generator stops the program
/// if the system cannot seed it.
#[verifier::external_body]
fn choose_target(targets: &Vec<Target>) -> (chosen: Option<&Target>)
    ensures
        match chosen {
            None => targets@.len() == 0,
            Some(target) => exists|k: int| 0 <= k < targets@.len() && targets@[k] == *target,
        },
{
    targets.choose(&mut rand::thread_rng())
}

/// Turns the outcome of the choice into the outcome of the resolution:
/// without a chosen target the link counts as not found, with one the visit
/// goes to its URL, in the link's redirect mode.
pub fn redirect_to(link: &Link, chosen: Option<&Target>) -> (outcome: Result<
    Resolution,
    LinkError,
>)
    ensures
        match chosen {
            None => outcome == Err::<Resolution, LinkError>(LinkError::LinkNotFound),
            Some(target) => outcome is Ok && outcome.unwrap()@ == resolution_of(link@, target@),
        },
{
    match chosen {
        None => Err(LinkError::LinkNotFound),
        Some(target) => Ok(
            Resolution {
                destination_url: target.destination_url.clone(),
                redirect_mode: link.redirect_mode,
                link_id: link.id,
                target_id: target.id,
            },
        ),
    }
}

/// Resolves a link whose targets have been loaded: chooses one of them at
/// random, each with the same chance.
///
/// Fails with `LinkNotFound` exactly where no target was loaded. Otherwise
/// the resolution is the one for some loaded target; which one is not
/// determined.
pub fn resolve_loaded(link: &Link, targets: &Vec<Target>) -> (outcome: Result<
    Resolution,
    LinkError,
>)
    ensures
        match outcome {
            Ok(resolution) => exists|k: int|
                0 <= k < targets@.len() && resolution@ == resolution_of(
                    link@,
                    #[trigger] targets@[k]@,
                ),
            Err(e) => e == LinkError::LinkNotFound && targets@.len() == 0,
        },
{
    let chosen = choose_target(targets);
    redirect_to(link, chosen)
}

/// Goes on from the store's answer to the lookup of a code: the link where
/// there is one, `LinkNotFound` where there is none, `StoreUnavailable`
/// where the store could not answer.
pub fn after_lookup(lookup: Lookup) -> (outcome: Result<Link, LinkError>)
    ensures
        match lookup {
            Lookup::Found(link) => outcome == Ok::<Link, LinkError>(link),
            Lookup::Missing => outcome == Err::<Link, LinkError>(LinkError::LinkNotFound),
            Lookup::Failed => outcome == Err::<Link, LinkError>(LinkError::StoreUnavailable),
        },
{
    match lookup {
        Lookup::Found(link) => Ok(link),
        Lookup::Missing => Err(LinkError::LinkNotFound),
        Lookup::Failed => Err(LinkError::StoreUnavailable),
    }
}

/// Goes on from the store's answer to the bounded load of a link's
/// targets: resolves among the loaded targets, or fails with
/// `StoreUnavailable` where the store could not answer.
///
/// Over loaded targets the outcome is that of [`resolve_loaded`]:
/// `LinkNotFound` exactly where none was loaded, otherwise the resolution
/// for some loaded target.
pub fn after_load(link: &Link, load: &Load) -> (outcome: Result<Resolution, LinkError>)
    ensures
        match *load {
            Load::Loaded(targets) => match outcome {
                Ok(resolution) => exists|k: int|
                    0 <= k < targets@.len() && resolution@ == resolution_of(
                        link@,
                        #[trigger] targets@[k]@,
                    ),
                Err(e) => e == LinkError::LinkNotFound && targets@.len() == 0,
            },
            Load::Failed => outcome == Err::<Resolution, LinkError>(LinkError::StoreUnavailable),
        },
{
    match load {
        Load::Loaded(targets) => resolve_loaded(link, targets),
        Load::Failed => Err(LinkError::StoreUnavailable),
    }
}

/// Counts a visit on the link and on the target it was sent to.
///
/// The two increments are best effort: one that fails is dropped and does
/// not stop the other.
pub fn record_visit(store: &mut LinkStore, link_id: u64, target_id: u64)
    requires
        old(store).wf(),
    ensures
        final(store).wf(),
        final(store)@ == visited(old(store)@, link_id as nat, target_id as nat),
{
    let _ = store.increment_link_visits(link_id);
    let _ = store.increment_target_visits(target_id);
}

/// Completes a resolution once the choice among the link's targets is made:
/// decides where the visit goes and counts it.
///
/// Without a chosen target the outcome is `LinkNotFound` and nothing is
/// counted.
pub fn complete_resolution(store: &mut LinkStore, link: &Link, chosen: Option<&Target>) -> (outcome:
    Result<Resolution, LinkError>)
    requires
        old(store).wf(),
    ensures
        final(store).wf(),
        match chosen {
            None => outcome == Err::<Resolution, LinkError>(LinkError::LinkNotFound)
                && final(store)@ == old(store)@,
            Some(target) => outcome is Ok && outcome.unwrap()@ == resolution_of(link@, target@)
                && final(store)@ == visited(old(store)@, link@.id, target@.id),
        },
{
    let outcome = redirect_to(link, chosen);
    match &outcome {
        Ok(resolution) => {
            record_visit(store, resolution.link_id, resolution.target_id);
        },
        Err(_) => {},
    }
    outcome
}

/// A link of a well-formed store has a target to choose from.
pub proof fn lemma_candidates_exist(store: StoreState, code: Seq<char>)
    requires
        store.wf(),
        store.has_code(code),
    ensures
        candidates(store, code).len() > 0,
{
    let link = store.lookup(code).unwrap();
    assert(store.links[store.position_of(code)].id == store.position_of(code));
    assert(store.has_target(link.id as int));
    let t = choose|t: int|
        0 <= t < store.targets.len() && (#[trigger] store.targets[t]).link_id == link.id;
    lemma_owned_by_nonempty(store.targets, link.id, t);
}

/// Resolves a short code: finds the link, loads its first
/// `TARGET_LOAD_CAP` targets, chooses one of them at random, each with the
/// same chance, and counts the visit on the link and on the chosen target.
///
/// Fails with `LinkNotFound` exactly where no link carries the code; the
/// store is then unchanged. Otherwise the visit goes to one of the link's
/// candidates, and it is that one whose counter has grown; which one is not
/// determined.
pub fn resolve(store: &mut LinkStore, code: &str) -> (outcome: Result<Resolution, LinkError>)
    requires
        old(store).wf(),
    ensures
        final(store).wf(),
        outcome is Err <==> !old(store)@.has_code(code@),
        match outcome {
            Ok(resolution) => exists|k: int|
                0 <= k < candidates(old(store)@, code@).len() && resolution@ == resolution_of(
                    old(store)@.lookup(code@).unwrap(),
                    #[trigger] candidates(old(store)@, code@)[k],
                ) && final(store)@ == visited(
                    old(store)@,
                    resolution@.link_id,
                    resolution@.target_id,
                ),
            Err(e) => e == LinkError::LinkNotFound && final(store)@ == old(store)@,
        },
{
    let link = match store.find_link_by_code(code) {
        Ok(link) => link,
        Err(_) => {
            return Err(LinkError::LinkNotFound);
        },
    };
    let targets = store.list_targets(link.id, TARGET_LOAD_CAP);
    proof {
        lemma_candidates_exist(store@, code@);
    }
    let chosen = choose_target(&targets);
    proof {
        let k = choose|k: int| 0 <= k < targets@.len() && targets@[k] == *chosen.unwrap();
        assert(target_views(targets@)[k] == chosen.unwrap()@);
    }
    complete_resolution(store, &link, chosen)
}

} // verus!
