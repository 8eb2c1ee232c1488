//! Laws of the service, stated over the store's model and proved.

use vstd::prelude::*;
use crate::api::{error_status_of, is_permanent_class, is_temporary_class, mode_of};
use crate::api::{redirect_status_of, reply_of};
use crate::engine::{ResolutionView, TARGET_LOAD_CAP};
use crate::engine::{candidates, lemma_candidates_exist, visited};
use crate::model::{LinkError, LinkView, RedirectMode, TargetView};
use crate::model::destination_urls;
use crate::store::{StoreState, counted, owned_by};
use crate::store::{lemma_created_wf, lemma_link_visit_wf, lemma_lookup_at};
use crate::store::{lemma_owned_by_all, lemma_owned_by_concat, lemma_owned_by_none};
use crate::store::{lemma_owned_by_members, lemma_target_visit_wf};

verus! {

/// The visits that a sequence of targets has counted, all together.
pub open spec fn total_visits(targets: Seq<TargetView>) -> nat
    decreases targets.len(),
{
    if targets.len() == 0 {
        0
    } else {
        total_visits(targets.drop_last()) + targets.last().visit_count
    }
}

/// The store after a run of visits of one link, each sent to the target
/// whose id stands at its place in `picks`.
pub open spec fn visited_each(store: StoreState, link_id: nat, picks: Seq<nat>) -> StoreState
    decreases picks.len(),
{
    if picks.len() == 0 {
        store
    } else {
        visited(visited_each(store, link_id, picks.drop_last()), link_id, picks.last())
    }
}

/// Every pick is the id of a target of the link.
pub open spec fn picks_belong(store: StoreState, link_id: nat, picks: Seq<nat>) -> bool {
    forall|k: int|
        0 <= k < picks.len() ==> (#[trigger] picks[k]) < store.targets.len()
            && store.targets[picks[k] as int].link_id == link_id
}

/// A link that was just created is found under its code, and a query
/// reports the destinations it was created with, in their order, as long as
/// they are no more than a query loads.
pub proof fn law_query_after_creation(
    store: StoreState,
    code: Seq<char>,
    redirect_mode: RedirectMode,
    urls: Seq<Seq<char>>,
)
    requires
        store.wf(),
        store.creation_error(code, urls) is None,
        urls.len() <= TARGET_LOAD_CAP,
    ensures
        store.created(code, redirect_mode, urls).lookup(code) == Some(
            store.new_link(code, redirect_mode),
        ),
        candidates(store.created(code, redirect_mode, urls), code) == store.new_targets(urls),
        destination_urls(candidates(store.created(code, redirect_mode, urls), code)) == urls,
{
    let after = store.created(code, redirect_mode, urls);
    let fresh = store.new_targets(urls);
    let id = store.links.len();
    lemma_created_wf(store, code, redirect_mode, urls);
    assert(after.links[id as int] == store.new_link(code, redirect_mode));
    lemma_lookup_at(after, id as int);
    lemma_owned_by_concat(store.targets, fresh, id);
    lemma_owned_by_none(store.targets, id);
    lemma_owned_by_all(fresh, id);
    assert(owned_by(store.targets, id) + owned_by(fresh, id) =~= fresh);
    assert(destination_urls(fresh) =~= urls);
}

/// A creation without destinations is refused as such, whatever the code.
pub proof fn law_empty_creation_refused(store: StoreState, code: Seq<char>)
    ensures
        store.creation_error(code, Seq::empty()) == Some(LinkError::EmptyTargetList),
{
}

/// After a link was created, a second creation under the same code is
/// refused as a duplicate, and the first link is still the one found under
/// the code, with a target to resolve to.
pub proof fn law_second_creation_refused(
    store: StoreState,
    code: Seq<char>,
    redirect_mode: RedirectMode,
    urls: Seq<Seq<char>>,
    second_urls: Seq<Seq<char>>,
)
    requires
        store.wf(),
        store.creation_error(code, urls) is None,
        second_urls.len() > 0,
    ensures
        store.created(code, redirect_mode, urls).creation_error(code, second_urls) == Some(
            LinkError::DuplicateCode,
        ),
        store.created(code, redirect_mode, urls).lookup(code) == Some(
            store.new_link(code, redirect_mode),
        ),
        candidates(store.created(code, redirect_mode, urls), code).len() > 0,
{
    let after = store.created(code, redirect_mode, urls);
    let id = store.links.len();
    lemma_created_wf(store, code, redirect_mode, urls);
    assert(after.links[id as int] == store.new_link(code, redirect_mode));
    lemma_lookup_at(after, id as int);
    lemma_candidates_exist(after, code);
}

/// A link created as permanent redirects with a status of the permanent
/// class; one created as temporary, or without a word on it, with a status
/// of the temporary class. A redirect carries its destination.
pub proof fn law_redirect_class(resolution: ResolutionView)
    ensures
        is_permanent_class(redirect_status_of(mode_of(Some(true)))),
        is_temporary_class(redirect_status_of(mode_of(Some(false)))),
        is_temporary_class(redirect_status_of(mode_of(None))),
        resolution.redirect_mode == RedirectMode::Permanent ==> is_permanent_class(
            reply_of(Ok(resolution)).status,
        ),
        resolution.redirect_mode == RedirectMode::Temporary ==> is_temporary_class(
            reply_of(Ok(resolution)).status,
        ),
        reply_of(Ok(resolution)).location == Some(resolution.destination_url),
{
}

/// A failure is never answered with a redirect.
pub proof fn law_failure_is_no_redirect(error: LinkError)
    ensures
        !is_permanent_class(error_status_of(error)),
        !is_temporary_class(error_status_of(error)),
        reply_of(Err(error)).location is None,
{
}

/// Replacing one target by one of the same link changes the link's total
/// by the difference of the two counters.
pub proof fn lemma_total_after_update(
    targets: Seq<TargetView>,
    at: int,
    replacement: TargetView,
    link_id: nat,
)
    requires
        0 <= at < targets.len(),
        replacement.link_id == targets[at].link_id,
    ensures
        owned_by(targets.update(at, replacement), link_id).len() == owned_by(
            targets,
            link_id,
        ).len(),
        targets[at].link_id == link_id ==> total_visits(
            owned_by(targets.update(at, replacement), link_id),
        ) + targets[at].visit_count == total_visits(owned_by(targets, link_id))
            + replacement.visit_count,
        targets[at].link_id != link_id ==> owned_by(targets.update(at, replacement), link_id)
            == owned_by(targets, link_id),
    decreases targets.len(),
{
    let updated = targets.update(at, replacement);
    let rest = targets.drop_last();
    if at == targets.len() - 1 {
        assert(updated.drop_last() =~= rest);
        assert(updated.last() == replacement);
        assert(targets.last() == targets[at]);
        if targets[at].link_id == link_id {
            let kept = owned_by(rest, link_id);
            assert(kept.push(replacement).drop_last() =~= kept);
            assert(kept.push(targets.last()).drop_last() =~= kept);
        }
    } else {
        assert(updated.drop_last() =~= rest.update(at, replacement));
        assert(updated.last() == targets.last());
        assert(rest[at] == targets[at]);
        lemma_total_after_update(rest, at, replacement, link_id);
        if targets.last().link_id == link_id {
            let kept = owned_by(rest, link_id);
            let kept_updated = owned_by(rest.update(at, replacement), link_id);
            assert(kept.push(targets.last()).drop_last() =~= kept);
            assert(kept_updated.push(targets.last()).drop_last() =~= kept_updated);
        }
    }
}

/// A target's counter is no larger than the total of its link.
pub proof fn lemma_count_within_total(targets: Seq<TargetView>, at: int)
    requires
        0 <= at < targets.len(),
    ensures
        targets[at].visit_count <= total_visits(owned_by(targets, targets[at].link_id)),
    decreases targets.len(),
{
    let link_id = targets[at].link_id;
    let rest = targets.drop_last();
    let kept = owned_by(rest, link_id);
    if targets.last().link_id == link_id {
        assert(kept.push(targets.last()).drop_last() =~= kept);
    }
    if at < targets.len() - 1 {
        assert(rest[at] == targets[at]);
        lemma_count_within_total(rest, at);
    } else {
        assert(targets.last() == targets[at]);
    }
}

/// Every candidate of a code is a target of the store that belongs to the
/// link with this code, and is found in the store under its own id.
pub proof fn law_candidates_belong(store: StoreState, code: Seq<char>, k: int)
    requires
        store.wf(),
        0 <= k < candidates(store, code).len(),
    ensures
        store.has_code(code),
        candidates(store, code)[k].link_id == store.lookup(code).unwrap().id,
        candidates(store, code)[k].id < store.targets.len(),
        store.targets[candidates(store, code)[k].id as int] == candidates(store, code)[k],
        store.lookup(code).unwrap().id < store.links.len(),
        store.links[store.lookup(code).unwrap().id as int] == store.lookup(code).unwrap(),
{
    let link = store.lookup(code).unwrap();
    assert(store.links[store.position_of(code)].id == store.position_of(code));
    let all = store.targets_of(link.id);
    let chosen = candidates(store, code)[k];
    assert(chosen == all[k]);
    lemma_owned_by_members(store.targets, link.id, k);
    let at = choose|at: int| 0 <= at < store.targets.len() && store.targets[at] == chosen;
    assert(store.targets[at].id == at);
}

/// One resolution of a code, sent to any of its candidates, raises the
/// link's counter by one and the total of the link's targets by one, where
/// both can still grow.
pub proof fn law_resolution_counted(store: StoreState, code: Seq<char>, k: int)
    requires
        store.wf(),
        0 <= k < candidates(store, code).len(),
        store.lookup(code).unwrap().visit_count < u64::MAX,
        total_visits(store.targets_of(store.lookup(code).unwrap().id)) < u64::MAX,
    ensures
        ({
            let link = store.lookup(code).unwrap();
            let after = visited(store, link.id, candidates(store, code)[k].id);
            &&& after.wf()
            &&& after.lookup(code) == Some(
                LinkView { visit_count: link.visit_count + 1, ..link },
            )
            &&& total_visits(after.targets_of(link.id)) == total_visits(
                store.targets_of(link.id),
            ) + 1
        }),
{
    let link = store.lookup(code).unwrap();
    let after = visited(store, link.id, candidates(store, code)[k].id);
    law_candidates_belong(store, code, k);
    law_one_visit_counted(store, link.id, candidates(store, code)[k].id);
    assert(after.links[link.id as int].code == code);
    lemma_lookup_at(after, link.id as int);
}

/// One visit of a link, sent to one of its targets, raises the link's
/// counter by one and the total of its targets by one, where both counters
/// can still grow. Nothing else about the link or its targets changes.
pub proof fn law_one_visit_counted(store: StoreState, link_id: nat, target_id: nat)
    requires
        store.wf(),
        link_id < store.links.len(),
        target_id < store.targets.len(),
        store.targets[target_id as int].link_id == link_id,
        store.links[link_id as int].visit_count < u64::MAX,
        total_visits(store.targets_of(link_id)) < u64::MAX,
    ensures
        visited(store, link_id, target_id).wf(),
        visited(store, link_id, target_id).links.len() == store.links.len(),
        visited(store, link_id, target_id).targets.len() == store.targets.len(),
        forall|t: int|
            0 <= t < store.targets.len() ==> (#[trigger] visited(
                store,
                link_id,
                target_id,
            ).targets[t]).link_id == store.targets[t].link_id,
        visited(store, link_id, target_id).links[link_id as int].visit_count
            == store.links[link_id as int].visit_count + 1,
        visited(store, link_id, target_id).targets[target_id as int].visit_count
            == store.targets[target_id as int].visit_count + 1,
        total_visits(visited(store, link_id, target_id).targets_of(link_id)) == total_visits(
            store.targets_of(link_id),
        ) + 1,
{
    let target = store.targets[target_id as int];
    lemma_link_visit_wf(store, link_id);
    lemma_target_visit_wf(store.with_link_visit(link_id), target_id);
    lemma_count_within_total(store.targets, target_id as int);
    lemma_total_after_update(
        store.targets,
        target_id as int,
        TargetView { visit_count: counted(target.visit_count), ..target },
        link_id,
    );
}

/// After a run of visits of one link, each sent to one of its targets, the
/// link's counter has grown by the number of visits, and so has the total
/// of its targets' counters, where the counters can hold these numbers.
pub proof fn law_visits_counted(store: StoreState, link_id: nat, picks: Seq<nat>)
    requires
        store.wf(),
        link_id < store.links.len(),
        picks_belong(store, link_id, picks),
        store.links[link_id as int].visit_count + picks.len() <= u64::MAX,
        total_visits(store.targets_of(link_id)) + picks.len() <= u64::MAX,
    ensures
        visited_each(store, link_id, picks).wf(),
        visited_each(store, link_id, picks).links.len() == store.links.len(),
        visited_each(store, link_id, picks).targets.len() == store.targets.len(),
        forall|t: int|
            0 <= t < store.targets.len() ==> (#[trigger] visited_each(
                store,
                link_id,
                picks,
            ).targets[t]).link_id == store.targets[t].link_id,
        visited_each(store, link_id, picks).links[link_id as int].visit_count
            == store.links[link_id as int].visit_count + picks.len(),
        total_visits(visited_each(store, link_id, picks).targets_of(link_id)) == total_visits(
            store.targets_of(link_id),
        ) + picks.len(),
    decreases picks.len(),
{
    if picks.len() > 0 {
        let earlier = picks.drop_last();
        assert forall|k: int| 0 <= k < earlier.len() implies (#[trigger] earlier[k])
            < store.targets.len() && store.targets[earlier[k] as int].link_id == link_id by {
            assert(earlier[k] == picks[k]);
        }
        law_visits_counted(store, link_id, earlier);
        let before = visited_each(store, link_id, earlier);
        assert(picks.last() == picks[picks.len() - 1]);
        assert(before.targets[picks.last() as int].link_id == link_id);
        law_one_visit_counted(before, link_id, picks.last());
    }
}

} // verus!
