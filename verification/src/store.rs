//! The link store and the target store, held in memory.
//!
//! A link's id is its position among the links, a target's id its position
//! among the targets; targets are kept in the order in which they were
//! created, and that is the order in which they are listed.

use vstd::prelude::*;
use crate::model::{Link, LinkError, LinkView, RedirectMode, Target, TargetView};
use crate::model::{link_views, string_views, target_views};

verus! {

/// A counter after one more visit. A counter that has reached the largest
/// value it can hold stays there: the increment is lost.
pub open spec fn counted(count: nat) -> nat {
    if count < u64::MAX {
        count + 1
    } else {
        count
    }
}

/// The targets among `targets` that belong to the link with this id, in the
/// order in which they stand.
pub open spec fn owned_by(targets: Seq<TargetView>, link_id: nat) -> Seq<TargetView>
    decreases targets.len(),
{
    if targets.len() == 0 {
        Seq::empty()
    } else if targets.last().link_id == link_id {
        owned_by(targets.drop_last(), link_id).push(targets.last())
    } else {
        owned_by(targets.drop_last(), link_id)
    }
}

/// What a store holds: its links and its targets, each in order of creation.
pub struct StoreState {
    pub links: Seq<LinkView>,
    pub targets: Seq<TargetView>,
}

impl StoreState {
    /// The store holds a link with this code.
    pub open spec fn has_code(self, code: Seq<char>) -> bool {
        exists|i: int| 0 <= i < self.links.len() && (#[trigger] self.links[i]).code == code
    }

    /// The position of a link with this code, where there is one.
    pub open spec fn position_of(self, code: Seq<char>) -> int {
        choose|i: int| 0 <= i < self.links.len() && (#[trigger] self.links[i]).code == code
    }

    /// The link with this code, if the store holds one.
    pub open spec fn lookup(self, code: Seq<char>) -> Option<LinkView> {
        if self.has_code(code) {
            Some(self.links[self.position_of(code)])
        } else {
            None
        }
    }

    /// Some target belongs to the link with this id.
    pub open spec fn has_target(self, link_id: int) -> bool {
        exists|t: int| 0 <= t < self.targets.len() && (#[trigger] self.targets[t]).link_id == link_id
    }

    /// All targets of a link, in order of creation.
    pub open spec fn targets_of(self, link_id: nat) -> Seq<TargetView> {
        owned_by(self.targets, link_id)
    }

    /// The targets of a link that a bounded load brings: the first `limit`
    /// of them, or all where there are fewer.
    pub open spec fn loaded(self, link_id: nat, limit: nat) -> Seq<TargetView> {
        let all = self.targets_of(link_id);
        if all.len() <= limit {
            all
        } else {
            all.take(limit as int)
        }
    }

    /// The store's invariant: ids are positions, codes are unique, every
    /// target belongs to a link of the store, and every link has a target.
    pub open spec fn wf(self) -> bool {
        &&& forall|i: int| 0 <= i < self.links.len() ==> (#[trigger] self.links[i]).id == i
        &&& forall|i: int, j: int|
            0 <= i < j < self.links.len() ==> (#[trigger] self.links[i]).code != (
            #[trigger] self.links[j]).code
        &&& forall|t: int|
            0 <= t < self.targets.len() ==> (#[trigger] self.targets[t]).id == t
                && self.targets[t].link_id < self.links.len()
        &&& forall|l: int| 0 <= l < self.links.len() ==> #[trigger] self.has_target(l)
    }

    /// The link that a creation adds.
    pub open spec fn new_link(self, code: Seq<char>, redirect_mode: RedirectMode) -> LinkView {
        LinkView { id: self.links.len(), code, redirect_mode, visit_count: 0 }
    }

    /// The targets that a creation adds, one for each URL, in the URLs' order.
    pub open spec fn new_targets(self, urls: Seq<Seq<char>>) -> Seq<TargetView> {
        Seq::new(
            urls.len(),
            |k: int|
                TargetView {
                    id: (self.targets.len() + k) as nat,
                    link_id: self.links.len(),
                    destination_url: urls[k],
                    visit_count: 0,
                },
        )
    }

    /// Why a creation is refused, if it is: an empty list of URLs before
    /// anything else, then a code that is taken.
    pub open spec fn creation_error(self, code: Seq<char>, urls: Seq<Seq<char>>) -> Option<
        LinkError,
    > {
        if urls.len() == 0 {
            Some(LinkError::EmptyTargetList)
        } else if self.has_code(code) {
            Some(LinkError::DuplicateCode)
        } else {
            None
        }
    }

    /// The store after a creation that was not refused.
    pub open spec fn created(
        self,
        code: Seq<char>,
        redirect_mode: RedirectMode,
        urls: Seq<Seq<char>>,
    ) -> StoreState {
        StoreState {
            links: self.links.push(self.new_link(code, redirect_mode)),
            targets: self.targets + self.new_targets(urls),
        }
    }

    /// The store after one more visit of a link. An id that the store does
    /// not know changes nothing.
    pub open spec fn with_link_visit(self, link_id: nat) -> StoreState {
        if link_id < self.links.len() {
            let link = self.links[link_id as int];
            StoreState {
                links: self.links.update(
                    link_id as int,
                    LinkView { visit_count: counted(link.visit_count), ..link },
                ),
                targets: self.targets,
            }
        } else {
            self
        }
    }

    /// The store after one more visit of a target. An id that the store does
    /// not know changes nothing.
    pub open spec fn with_target_visit(self, target_id: nat) -> StoreState {
        if target_id < self.targets.len() {
            let target = self.targets[target_id as int];
            StoreState {
                links: self.links,
                targets: self.targets.update(
                    target_id as int,
                    TargetView { visit_count: counted(target.visit_count), ..target },
                ),
            }
        } else {
            self
        }
    }
}

/// In a well-formed store, a link that carries a code is the one that a
/// lookup of the code finds.
pub proof fn lemma_lookup_at(store: StoreState, i: int)
    requires
        store.wf(),
        0 <= i < store.links.len(),
    ensures
        store.has_code(store.links[i].code),
        store.position_of(store.links[i].code) == i,
        store.lookup(store.links[i].code) == Some(store.links[i]),
{
    let code = store.links[i].code;
    let j = store.position_of(code);
    assert(0 <= j < store.links.len() && store.links[j].code == code);
    if j < i {
        assert(store.links[j].code != store.links[i].code);
    } else if i < j {
        assert(store.links[i].code != store.links[j].code);
    }
}

/// Selecting a link's targets from two sequences in a row is selecting from
/// each and joining the results.
pub proof fn lemma_owned_by_concat(a: Seq<TargetView>, b: Seq<TargetView>, link_id: nat)
    ensures
        owned_by(a + b, link_id) == owned_by(a, link_id) + owned_by(b, link_id),
    decreases b.len(),
{
    if b.len() == 0 {
        assert(a + b =~= a);
        assert(owned_by(a, link_id) + owned_by(b, link_id) =~= owned_by(a, link_id));
    } else {
        assert((a + b).drop_last() =~= a + b.drop_last());
        assert((a + b).last() == b.last());
        lemma_owned_by_concat(a, b.drop_last(), link_id);
        if b.last().link_id == link_id {
            assert(owned_by(a, link_id) + owned_by(b.drop_last(), link_id).push(b.last())
                =~= (owned_by(a, link_id) + owned_by(b.drop_last(), link_id)).push(b.last()));
        }
    }
}

/// Where no target belongs to the link, none is selected.
pub proof fn lemma_owned_by_none(targets: Seq<TargetView>, link_id: nat)
    requires
        forall|t: int| 0 <= t < targets.len() ==> (#[trigger] targets[t]).link_id != link_id,
    ensures
        owned_by(targets, link_id).len() == 0,
    decreases targets.len(),
{
    if targets.len() > 0 {
        assert(targets.last() == targets[targets.len() - 1]);
        assert forall|t: int| 0 <= t < targets.drop_last().len() implies (
        #[trigger] targets.drop_last()[t]).link_id != link_id by {
            assert(targets.drop_last()[t] == targets[t]);
        }
        lemma_owned_by_none(targets.drop_last(), link_id);
    }
}

/// Where every target belongs to the link, all are selected.
pub proof fn lemma_owned_by_all(targets: Seq<TargetView>, link_id: nat)
    requires
        forall|t: int| 0 <= t < targets.len() ==> (#[trigger] targets[t]).link_id == link_id,
    ensures
        owned_by(targets, link_id) == targets,
    decreases targets.len(),
{
    if targets.len() > 0 {
        assert(targets.last() == targets[targets.len() - 1]);
        assert forall|t: int| 0 <= t < targets.drop_last().len() implies (
        #[trigger] targets.drop_last()[t]).link_id == link_id by {
            assert(targets.drop_last()[t] == targets[t]);
        }
        lemma_owned_by_all(targets.drop_last(), link_id);
        assert(targets.drop_last().push(targets.last()) =~= targets);
    } else {
        assert(targets =~= Seq::empty());
    }
}

/// Where one of the targets belongs to the link, the selection of the
/// link's targets is not empty.
pub proof fn lemma_owned_by_nonempty(targets: Seq<TargetView>, link_id: nat, t: int)
    requires
        0 <= t < targets.len(),
        targets[t].link_id == link_id,
    ensures
        owned_by(targets, link_id).len() > 0,
    decreases targets.len(),
{
    if t < targets.len() - 1 {
        assert(targets.drop_last()[t] == targets[t]);
        lemma_owned_by_nonempty(targets.drop_last(), link_id, t);
    } else {
        assert(targets.last() == targets[t]);
    }
}

/// Every selected target belongs to the link and stands among the targets
/// selected from.
pub proof fn lemma_owned_by_members(targets: Seq<TargetView>, link_id: nat, k: int)
    requires
        0 <= k < owned_by(targets, link_id).len(),
    ensures
        owned_by(targets, link_id)[k].link_id == link_id,
        targets.contains(owned_by(targets, link_id)[k]),
    decreases targets.len(),
{
    if targets.len() > 0 {
        let rest = targets.drop_last();
        if targets.last().link_id == link_id && k == owned_by(rest, link_id).len() {
            assert(targets[targets.len() - 1] == targets.last());
        } else {
            lemma_owned_by_members(rest, link_id, k);
            let found = owned_by(rest, link_id)[k];
            let at = choose|at: int| 0 <= at < rest.len() && rest[at] == found;
            assert(targets[at] == found);
        }
    }
}

/// A creation that is not refused keeps the store's invariant.
pub proof fn lemma_created_wf(
    store: StoreState,
    code: Seq<char>,
    redirect_mode: RedirectMode,
    urls: Seq<Seq<char>>,
)
    requires
        store.wf(),
        store.creation_error(code, urls) is None,
    ensures
        store.created(code, redirect_mode, urls).wf(),
{
    let after = store.created(code, redirect_mode, urls);
    let fresh = store.new_targets(urls);
    assert forall|i: int, j: int| 0 <= i < j < after.links.len() implies (
    #[trigger] after.links[i]).code != (#[trigger] after.links[j]).code by {
        if j < store.links.len() {
            assert(store.links[i].code != store.links[j].code);
        } else {
            assert(after.links[i] == store.links[i]);
        }
    }
    assert forall|l: int| 0 <= l < after.links.len() implies #[trigger] after.has_target(l) by {
        if l < store.links.len() {
            assert(store.has_target(l));
            let t = choose|t: int|
                0 <= t < store.targets.len() && (#[trigger] store.targets[t]).link_id == l;
            assert(after.targets[t] == store.targets[t]);
        } else {
            assert(after.targets[store.targets.len() as int] == fresh[0]);
        }
    }
}

/// A visit of a link keeps the store's invariant.
pub proof fn lemma_link_visit_wf(store: StoreState, link_id: nat)
    requires
        store.wf(),
    ensures
        store.with_link_visit(link_id).wf(),
{
    let after = store.with_link_visit(link_id);
    assert forall|l: int| 0 <= l < after.links.len() implies #[trigger] after.has_target(l) by {
        assert(store.has_target(l));
        let t = choose|t: int|
            0 <= t < store.targets.len() && (#[trigger] store.targets[t]).link_id == l;
        assert(after.targets[t].link_id == l);
    }
    assert forall|i: int, j: int| 0 <= i < j < after.links.len() implies (
    #[trigger] after.links[i]).code != (#[trigger] after.links[j]).code by {
        assert(store.links[i].code != store.links[j].code);
    }
}

/// A visit of a target keeps the store's invariant.
pub proof fn lemma_target_visit_wf(store: StoreState, target_id: nat)
    requires
        store.wf(),
    ensures
        store.with_target_visit(target_id).wf(),
{
    let after = store.with_target_visit(target_id);
    assert forall|l: int| 0 <= l < after.links.len() implies #[trigger] after.has_target(l) by {
        assert(store.has_target(l));
        let t = choose|t: int|
            0 <= t < store.targets.len() && (#[trigger] store.targets[t]).link_id == l;
        assert(after.targets[t].link_id == l);
    }
    assert forall|i: int, j: int| 0 <= i < j < after.links.len() implies (
    #[trigger] after.links[i]).code != (#[trigger] after.links[j]).code by {
        assert(store.links[i].code != store.links[j].code);
    }
}

/// An in-memory store of links and their targets.
pub struct LinkStore {
    links: Vec<Link>,
    targets: Vec<Target>,
}

impl View for LinkStore {
    type V = StoreState;

    closed spec fn view(&self) -> StoreState {
        StoreState { links: link_views(self.links@), targets: target_views(self.targets@) }
    }
}

impl LinkStore {
    /// The store's invariant holds.
    pub open spec fn wf(&self) -> bool {
        self@.wf()
    }

    /// A store without links.
    pub fn new() -> (store: LinkStore)
        ensures
            store.wf(),
            store@.links.len() == 0,
            store@.targets.len() == 0,
    {
        LinkStore { links: Vec::new(), targets: Vec::new() }
    }

    /// Finds the link with the given code.
    pub fn find_link_by_code(&self, code: &str) -> (found: Result<Link, LinkError>)
        requires
            self.wf(),
        ensures
            match found {
                Ok(link) => self@.lookup(code@) == Some(link@),
                Err(e) => e == LinkError::LinkNotFound && self@.lookup(code@) is None,
            },
    {
        let wanted = code.to_owned();
        let mut i: usize = 0;
        while i < self.links.len()
            invariant
                self.wf(),
                wanted@ == code@,
                i <= self.links.len(),
                forall|k: int| 0 <= k < i ==> (#[trigger] self@.links[k]).code != code@,
            decreases self.links.len() - i,
        {
            if self.links[i].code == wanted {
                proof {
                    lemma_lookup_at(self@, i as int);
                }
                return Ok(self.links[i].duplicate());
            }
            i += 1;
        }
        Err(LinkError::LinkNotFound)
    }

    /// Lists the targets of a link in order of creation, at most `limit` of
    /// them.
    pub fn list_targets(&self, link_id: u64, limit: usize) -> (listed: Vec<Target>)
        requires
            self.wf(),
        ensures
            target_views(listed@) == self@.loaded(link_id as nat, limit as nat),
    {
        let mut listed: Vec<Target> = Vec::new();
        let mut i: usize = 0;
        while i < self.targets.len() && listed.len() < limit
            invariant
                i <= self.targets.len(),
                listed.len() <= limit,
                target_views(listed@) == owned_by(self@.targets.take(i as int), link_id as nat),
            decreases self.targets.len() - i,
        {
            proof {
                let next = self@.targets.take(i + 1);
                assert(next.drop_last() =~= self@.targets.take(i as int));
                assert(next.last() == self.targets@[i as int]@);
            }
            if self.targets[i].link_id == link_id {
                let ghost before = listed@;
                listed.push(self.targets[i].duplicate());
                assert(target_views(listed@) =~= target_views(before).push(
                    self.targets@[i as int]@,
                ));
            }
            i += 1;
        }
        proof {
            let seen = self@.targets.take(i as int);
            let rest = self@.targets.skip(i as int);
            assert(seen + rest =~= self@.targets);
            lemma_owned_by_concat(seen, rest, link_id as nat);
            let all = self@.targets_of(link_id as nat);
            if i == self.targets.len() {
                assert(seen =~= self@.targets);
            } else if all.len() > limit {
                assert(all.take(limit as int) =~= owned_by(seen, link_id as nat));
            } else {
                assert(all =~= owned_by(seen, link_id as nat));
            }
        }
        listed
    }

    /// Creates a link and its targets together, or nothing at all.
    ///
    /// An empty list of URLs is refused before anything else, then a code
    /// that another link carries. The new link gets the next link id, the
    /// targets the next target ids, in the URLs' order; all counters start
    /// at zero.
    pub fn create_link_with_targets(
        &mut self,
        code: String,
        redirect_mode: RedirectMode,
        destination_urls: &Vec<String>,
    ) -> (created: Result<(Link, Vec<Target>), LinkError>)
        requires
            old(self).wf(),
        ensures
            final(self).wf(),
            match created {
                Ok((link, targets)) => {
                    &&& old(self)@.creation_error(code@, string_views(destination_urls@)) is None
                    &&& final(self)@ == old(self)@.created(
                        code@,
                        redirect_mode,
                        string_views(destination_urls@),
                    )
                    &&& link@ == old(self)@.new_link(code@, redirect_mode)
                    &&& target_views(targets@) == old(self)@.new_targets(
                        string_views(destination_urls@),
                    )
                },
                Err(e) => {
                    &&& old(self)@.creation_error(code@, string_views(destination_urls@))
                        == Some(e)
                    &&& final(self)@ == old(self)@
                },
            },
    {
        let ghost urls = string_views(destination_urls@);
        if destination_urls.len() == 0 {
            return Err(LinkError::EmptyTargetList);
        }
        if self.find_link_by_code(code.as_str()).is_ok() {
            return Err(LinkError::DuplicateCode);
        }
        let link_id: u64 = self.links.len() as u64;
        let link = Link { id: link_id, code, redirect_mode, visit_count: 0 };
        self.links.push(link.duplicate());
        assert(link_views(self.links@) =~= old(self)@.links.push(link@));
        let mut targets: Vec<Target> = Vec::new();
        let mut k: usize = 0;
        while k < destination_urls.len()
            invariant
                k <= destination_urls.len(),
                urls == string_views(destination_urls@),
                link_id == old(self)@.links.len(),
                link_views(self.links@) == old(self)@.links.push(link@),
                target_views(targets@) == old(self)@.new_targets(urls).take(k as int),
                target_views(self.targets@) == old(self)@.targets + old(self)@.new_targets(
                    urls,
                ).take(k as int),
            decreases destination_urls.len() - k,
        {
            let target = Target {
                id: self.targets.len() as u64,
                link_id,
                destination_url: destination_urls[k].clone(),
                visit_count: 0,
            };
            let ghost listed = targets@;
            let ghost stored = self.targets@;
            proof {
                let fresh = old(self)@.new_targets(urls);
                assert(target_views(stored).len() == stored.len());
                assert(fresh.take(k as int).len() == k);
                assert(urls[k as int] == destination_urls@[k as int]@);
                assert(target@ == fresh[k as int]);
                assert(fresh.take(k + 1) =~= fresh.take(k as int).push(fresh[k as int]));
            }
            targets.push(target.duplicate());
            self.targets.push(target);
            assert(target_views(targets@) =~= target_views(listed).push(target@));
            assert(target_views(self.targets@) =~= target_views(stored).push(target@));
            k += 1;
        }
        proof {
            let fresh = old(self)@.new_targets(urls);
            assert(fresh.take(k as int) =~= fresh);
            lemma_created_wf(old(self)@, link@.code, redirect_mode, urls);
        }
        Ok((link, targets))
    }

    /// Counts one more visit of a link.
    ///
    /// Fails with `LinkNotFound` where the store has no link with this id,
    /// and with `StoreUnavailable` where the counter cannot grow.
    pub fn increment_link_visits(&mut self, link_id: u64) -> (done: Result<(), LinkError>)
        requires
            old(self).wf(),
        ensures
            final(self).wf(),
            final(self)@ == old(self)@.with_link_visit(link_id as nat),
            match done {
                Ok(_) => link_id < old(self)@.links.len() && old(self)@.links[link_id as int].visit_count
                    < u64::MAX,
                Err(e) => if link_id >= old(self)@.links.len() {
                    e == LinkError::LinkNotFound
                } else {
                    e == LinkError::StoreUnavailable
                        && old(self)@.links[link_id as int].visit_count == u64::MAX
                },
            },
    {
        proof {
            lemma_link_visit_wf(self@, link_id as nat);
        }
        if link_id >= self.links.len() as u64 {
            return Err(LinkError::LinkNotFound);
        }
        let at: usize = link_id as usize;
        if self.links[at].visit_count == u64::MAX {
            assert(self@.with_link_visit(link_id as nat).links =~= self@.links);
            return Err(LinkError::StoreUnavailable);
        }
        let link = &self.links[at];
        let visited = Link {
            id: link.id,
            code: link.code.clone(),
            redirect_mode: link.redirect_mode,
            visit_count: link.visit_count + 1,
        };
        self.links.set(at, visited);
        assert(self@.links =~= old(self)@.with_link_visit(link_id as nat).links);
        Ok(())
    }

    /// Counts one more visit of a target.
    ///
    /// Fails with `LinkNotFound` where the store has no target with this id,
    /// and with `StoreUnavailable` where the counter cannot grow.
    pub fn increment_target_visits(&mut self, target_id: u64) -> (done: Result<(), LinkError>)
        requires
            old(self).wf(),
        ensures
            final(self).wf(),
            final(self)@ == old(self)@.with_target_visit(target_id as nat),
            match done {
                Ok(_) => target_id < old(self)@.targets.len()
                    && old(self)@.targets[target_id as int].visit_count < u64::MAX,
                Err(e) => if target_id >= old(self)@.targets.len() {
                    e == LinkError::LinkNotFound
                } else {
                    e == LinkError::StoreUnavailable
                        && old(self)@.targets[target_id as int].visit_count == u64::MAX
                },
            },
    {
        proof {
            lemma_target_visit_wf(self@, target_id as nat);
        }
        if target_id >= self.targets.len() as u64 {
            return Err(LinkError::LinkNotFound);
        }
        let at: usize = target_id as usize;
        if self.targets[at].visit_count == u64::MAX {
            assert(self@.with_target_visit(target_id as nat).targets =~= self@.targets);
            return Err(LinkError::StoreUnavailable);
        }
        let target = &self.targets[at];
        let visited = Target {
            id: target.id,
            link_id: target.link_id,
            destination_url: target.destination_url.clone(),
            visit_count: target.visit_count + 1,
        };
        self.targets.set(at, visited);
        assert(self@.targets =~= old(self)@.with_target_visit(target_id as nat).targets);
        Ok(())
    }
}

} // verus!
