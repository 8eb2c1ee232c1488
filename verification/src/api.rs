//! The service's three operations at its boundary: creating a link,
//! querying it, and redirecting a visit, with the HTTP status of each
//! outcome.

use vstd::prelude::*;
use crate::codegen::{generate, is_generated_code};
use crate::engine::{Load, Resolution, ResolutionView, TARGET_LOAD_CAP};
use crate::engine::{candidates, resolution_of, resolve, visited};
use crate::model::{Link, LinkError, LinkView, RedirectMode, Target, TargetView};
use crate::model::{string_views, target_views};
use crate::store::{LinkStore, StoreState};

verus! {

/// How often the creation of a link with a generated code is tried again,
/// with a new code, after the first code turned out to be taken.
pub const MAX_CODE_RETRIES: usize = 3;

/// Status of a redirect that the client may cache for good.
pub const STATUS_MOVED_PERMANENTLY: u16 = 301;

/// Status of a redirect that holds for this request only.
pub const STATUS_TEMPORARY_REDIRECT: u16 = 307;

/// Status of a request for a code that leads nowhere.
pub const STATUS_NOT_FOUND: u16 = 404;

/// Status of every other failure.
pub const STATUS_INTERNAL_SERVER_ERROR: u16 = 500;

/// Where the code of a link to be created comes from.
#[derive(Clone, Copy, Debug, PartialEq, Eq, Structural)]
pub enum CodeSource {
    /// The client chose the code.
    Supplied,
    /// The identifier generator drew the code.
    Generated,
}

/// A request to create a link.
#[derive(Clone, Debug, PartialEq, Eq)]
pub struct CreateLinkRequest {
    /// The code to use; without one a code is generated.
    pub code: Option<String>,
    /// Whether visits are redirected permanently; without it they are not.
    pub permanent_redirect: Option<bool>,
    /// The destination URLs.
    pub targets: Vec<String>,
}

/// A creation that is ready to be handed to the store.
#[derive(Clone, Debug, PartialEq, Eq)]
pub struct CreationPlan {
    /// The code to create the link under.
    pub code: String,
    /// Where the code comes from.
    pub source: CodeSource,
    pub redirect_mode: RedirectMode,
    /// The destination URLs, at least one.
    pub destination_urls: Vec<String>,
    /// How often the creation was tried again with a new code.
    pub retries_made: usize,
}

/// A link with targets of it.
#[derive(Clone, Debug, PartialEq, Eq)]
pub struct LinkInfo {
    pub link: Link,
    pub targets: Vec<Target>,
}

/// The answer to a visit: a status, and the destination where it is a
/// redirect.
#[derive(Clone, Debug, PartialEq, Eq)]
pub struct HttpReply {
    pub status: u16,
    pub location: Option<String>,
}

/// What an [`HttpReply`] is, with its destination as a sequence of
/// characters.
pub struct HttpReplyView {
    pub status: u16,
    pub location: Option<Seq<char>>,
}

impl View for HttpReply {
    type V = HttpReplyView;

    open spec fn view(&self) -> HttpReplyView {
        HttpReplyView {
            status: self.status,
            location: match self.location {
                Some(url) => Some(url@),
                None => None,
            },
        }
    }
}

/// The redirect mode that a request's flag asks for: permanent where the
/// flag is set, temporary where it is cleared or left out.
pub open spec fn mode_of(permanent_redirect: Option<bool>) -> RedirectMode {
    if permanent_redirect == Some(true) {
        RedirectMode::Permanent
    } else {
        RedirectMode::Temporary
    }
}

/// The status of a redirect in the given mode.
pub open spec fn redirect_status_of(mode: RedirectMode) -> u16 {
    match mode {
        RedirectMode::Permanent => STATUS_MOVED_PERMANENTLY,
        RedirectMode::Temporary => STATUS_TEMPORARY_REDIRECT,
    }
}

/// The status that reports a failure: 404 for a link that was not found,
/// 500 for everything else.
pub open spec fn error_status_of(error: LinkError) -> u16 {
    match error {
        LinkError::LinkNotFound => STATUS_NOT_FOUND,
        _ => STATUS_INTERNAL_SERVER_ERROR,
    }
}

/// A status that tells the client to use the new address from now on.
pub open spec fn is_permanent_class(status: u16) -> bool {
    status == 301 || status == 308
}

/// A status that tells the client to keep asking at the old address.
pub open spec fn is_temporary_class(status: u16) -> bool {
    status == 302 || status == 303 || status == 307
}

/// The answer to a visit, from the outcome of its resolution.
pub open spec fn reply_of(outcome: Result<ResolutionView, LinkError>) -> HttpReplyView {
    match outcome {
        Ok(resolution) => HttpReplyView {
            status: redirect_status_of(resolution.redirect_mode),
            location: Some(resolution.destination_url),
        },
        Err(error) => HttpReplyView { status: error_status_of(error), location: None },
    }
}

/// Whether a refused creation is tried again with a new code: only where
/// the code was generated, the refusal was a taken code, and fewer than
/// `MAX_CODE_RETRIES` retries were made.
pub open spec fn retries(source: CodeSource, error: LinkError, retries_made: nat) -> bool {
    source == CodeSource::Generated && error == LinkError::DuplicateCode && retries_made
        < MAX_CODE_RETRIES
}

/// The store holds a link whose code has the shape of a generated code.
pub open spec fn holds_generated_code(store: StoreState) -> bool {
    exists|i: int|
        0 <= i < store.links.len() && is_generated_code((#[trigger] store.links[i]).code)
}

/// A creation took place: it was not refused, `after` is `before` with the
/// new link and its targets, and these are the ones handed back.
pub open spec fn created_as(
    before: StoreState,
    after: StoreState,
    link: LinkView,
    targets: Seq<TargetView>,
    code: Seq<char>,
    redirect_mode: RedirectMode,
    urls: Seq<Seq<char>>,
) -> bool {
    &&& before.creation_error(code, urls) is None
    &&& after == before.created(code, redirect_mode, urls)
    &&& link == before.new_link(code, redirect_mode)
    &&& targets == before.new_targets(urls)
}

/// The redirect mode that a request's flag asks for.
pub fn redirect_mode_for(permanent_redirect: Option<bool>) -> (mode: RedirectMode)
    ensures
        mode == mode_of(permanent_redirect),
{
    match permanent_redirect {
        Some(true) => RedirectMode::Permanent,
        _ => RedirectMode::Temporary,
    }
}

/// The status of a redirect in the given mode.
pub fn redirect_status(mode: RedirectMode) -> (status: u16)
    ensures
        status == redirect_status_of(mode),
{
    match mode {
        RedirectMode::Permanent => STATUS_MOVED_PERMANENTLY,
        RedirectMode::Temporary => STATUS_TEMPORARY_REDIRECT,
    }
}

/// The status that reports a failure.
pub fn error_status(error: LinkError) -> (status: u16)
    ensures
        status == error_status_of(error),
{
    match error {
        LinkError::LinkNotFound => STATUS_NOT_FOUND,
        _ => STATUS_INTERNAL_SERVER_ERROR,
    }
}

/// Whether a refused creation is tried again with a new code.
pub fn should_retry(source: CodeSource, error: LinkError, retries_made: usize) -> (again: bool)
    ensures
        again == retries(source, error, retries_made as nat),
{
    source == CodeSource::Generated && error == LinkError::DuplicateCode && retries_made
        < MAX_CODE_RETRIES
}

/// The answer to a visit, from the outcome of its resolution: a redirect to
/// the destination, or the failure's status.
pub fn redirect_reply(outcome: &Result<Resolution, LinkError>) -> (reply: HttpReply)
    ensures
        reply@ == reply_of(
            match *outcome {
                Ok(resolution) => Ok(resolution@),
                Err(error) => Err(error),
            },
        ),
{
    match outcome {
        Ok(resolution) => HttpReply {
            status: redirect_status(resolution.redirect_mode),
            location: Some(resolution.destination_url.clone()),
        },
        Err(error) => HttpReply { status: error_status(*error), location: None },
    }
}

/// Plans the creation that a request asks for, before anything is
/// written.
///
/// A request without targets is refused with `EmptyTargetList`. Otherwise
/// the plan carries the request's targets and redirect mode, and the
/// request's code, or a generated one where the request has none.
pub fn plan_creation(request: CreateLinkRequest) -> (planned: Result<CreationPlan, LinkError>)
    ensures
        match planned {
            Ok(plan) => {
                &&& request.targets@.len() > 0
                &&& plan.destination_urls == request.targets
                &&& plan.redirect_mode == mode_of(request.permanent_redirect)
                &&& plan.retries_made == 0
                &&& match request.code {
                    Some(code) => plan.source == CodeSource::Supplied && plan.code == code,
                    None => plan.source == CodeSource::Generated && is_generated_code(plan.code@),
                }
            },
            Err(e) => e == LinkError::EmptyTargetList && request.targets@.len() == 0,
        },
{
    let CreateLinkRequest { code, permanent_redirect, targets } = request;
    if targets.len() == 0 {
        return Err(LinkError::EmptyTargetList);
    }
    let redirect_mode = redirect_mode_for(permanent_redirect);
    match code {
        Some(code) => Ok(
            CreationPlan {
                code,
                source: CodeSource::Supplied,
                redirect_mode,
                destination_urls: targets,
                retries_made: 0,
            },
        ),
        None => Ok(
            CreationPlan {
                code: generate(),
                source: CodeSource::Generated,
                redirect_mode,
                destination_urls: targets,
                retries_made: 0,
            },
        ),
    }
}

/// Plans again after the store refused the plan's code as taken.
///
/// A plan with a generated code that was retried fewer than
/// `MAX_CODE_RETRIES` times comes back with a new generated code and one
/// more retry, and is otherwise the same. Any other plan ends here, with
/// `DuplicateCode`.
pub fn replan_after_conflict(plan: CreationPlan) -> (planned: Result<CreationPlan, LinkError>)
    ensures
        match planned {
            Ok(next) => {
                &&& retries(plan.source, LinkError::DuplicateCode, plan.retries_made as nat)
                &&& is_generated_code(next.code@)
                &&& next.source == plan.source
                &&& next.redirect_mode == plan.redirect_mode
                &&& next.destination_urls == plan.destination_urls
                &&& next.retries_made == plan.retries_made + 1
            },
            Err(e) => e == LinkError::DuplicateCode && !retries(
                plan.source,
                LinkError::DuplicateCode,
                plan.retries_made as nat,
            ),
        },
{
    if should_retry(plan.source, LinkError::DuplicateCode, plan.retries_made) {
        Ok(
            CreationPlan {
                code: generate(),
                source: plan.source,
                redirect_mode: plan.redirect_mode,
                destination_urls: plan.destination_urls,
                retries_made: plan.retries_made + 1,
            },
        )
    } else {
        Err(LinkError::DuplicateCode)
    }
}

/// Creates a link with its targets.
///
/// With a code in the request, the link is created under that code or not
/// at all. Without one, a code is generated; where it is taken, another is
/// generated, up to `MAX_CODE_RETRIES` times, before the creation fails
/// with `DuplicateCode`. An empty list of targets is refused first in
/// either case. A creation that fails leaves the store as it was.
pub fn post_link(store: &mut LinkStore, request: CreateLinkRequest) -> (created: Result<
    LinkInfo,
    LinkError,
>)
    requires
        old(store).wf(),
    ensures
        final(store).wf(),
        match request.code {
            Some(code) => match created {
                Ok(info) => created_as(
                    old(store)@,
                    final(store)@,
                    info.link@,
                    target_views(info.targets@),
                    code@,
                    mode_of(request.permanent_redirect),
                    string_views(request.targets@),
                ),
                Err(e) => old(store)@.creation_error(code@, string_views(request.targets@))
                    == Some(e) && final(store)@ == old(store)@,
            },
            None => match created {
                Ok(info) => is_generated_code(info.link@.code) && created_as(
                    old(store)@,
                    final(store)@,
                    info.link@,
                    target_views(info.targets@),
                    info.link@.code,
                    mode_of(request.permanent_redirect),
                    string_views(request.targets@),
                ),
                Err(e) => final(store)@ == old(store)@ && if request.targets@.len() == 0 {
                    e == LinkError::EmptyTargetList
                } else {
                    e == LinkError::DuplicateCode && holds_generated_code(old(store)@)
                },
            },
        },
{
    let ghost supplied = request.code;
    let ghost urls = request.targets;
    let ghost flag = request.permanent_redirect;
    let mut plan = match plan_creation(request) {
        Ok(plan) => plan,
        Err(e) => {
            return Err(e);
        },
    };
    loop
        invariant
            store.wf(),
            store@ == old(store)@,
            supplied == request.code,
            urls == request.targets,
            flag == request.permanent_redirect,
            urls@.len() > 0,
            plan.destination_urls == urls,
            plan.redirect_mode == mode_of(flag),
            plan.retries_made <= MAX_CODE_RETRIES,
            match supplied {
                Some(code) => plan.source == CodeSource::Supplied && plan.code@ == code@,
                None => plan.source == CodeSource::Generated && is_generated_code(plan.code@),
            },
        decreases MAX_CODE_RETRIES - plan.retries_made,
    {
        let attempt = store.create_link_with_targets(
            plan.code.clone(),
            plan.redirect_mode,
            &plan.destination_urls,
        );
        match attempt {
            Ok((link, targets)) => {
                return Ok(LinkInfo { link, targets });
            },
            Err(_) => {
                proof {
                    let at = old(store)@.position_of(plan.code@);
                    assert(old(store)@.links[at].code == plan.code@);
                }
                match replan_after_conflict(plan) {
                    Ok(next) => {
                        plan = next;
                    },
                    Err(e) => {
                        return Err(e);
                    },
                }
            },
        }
    }
}

/// Goes on from the store's answer to the bounded load of a link's
/// targets, for a query: the link with the loaded targets, or
/// `StoreUnavailable` where the store could not answer.
pub fn info_after_load(link: Link, load: Load) -> (outcome: Result<LinkInfo, LinkError>)
    ensures
        match load {
            Load::Loaded(targets) => outcome is Ok && outcome.unwrap().link == link
                && outcome.unwrap().targets == targets,
            Load::Failed => outcome is Err && outcome.unwrap_err()
                == LinkError::StoreUnavailable,
        },
{
    match load {
        Load::Loaded(targets) => Ok(LinkInfo { link, targets }),
        Load::Failed => Err(LinkError::StoreUnavailable),
    }
}

/// Reports a link with its first `TARGET_LOAD_CAP` targets. Nothing is
/// chosen and nothing is counted.
pub fn link_info(store: &LinkStore, code: &str) -> (found: Result<LinkInfo, LinkError>)
    requires
        store.wf(),
    ensures
        match found {
            Ok(info) => store@.lookup(code@) == Some(info.link@) && target_views(info.targets@)
                == candidates(store@, code@),
            Err(e) => e == LinkError::LinkNotFound && store@.lookup(code@) is None,
        },
{
    match store.find_link_by_code(code) {
        Ok(link) => {
            let targets = store.list_targets(link.id, TARGET_LOAD_CAP);
            Ok(LinkInfo { link, targets })
        },
        Err(_) => Err(LinkError::LinkNotFound),
    }
}

/// Answers a visit of a short code: a redirect to one of the link's
/// candidates, in the link's redirect mode, with the visit counted; 404,
/// with the store unchanged, where no link carries the code.
pub fn link(store: &mut LinkStore, code: &str) -> (reply: HttpReply)
    requires
        old(store).wf(),
    ensures
        final(store).wf(),
        if old(store)@.has_code(code@) {
            exists|k: int|
                0 <= k < candidates(old(store)@, code@).len() && reply@ == reply_of(
                    Ok(
                        resolution_of(
                            old(store)@.lookup(code@).unwrap(),
                            #[trigger] candidates(old(store)@, code@)[k],
                        ),
                    ),
                ) && final(store)@ == visited(
                    old(store)@,
                    old(store)@.lookup(code@).unwrap().id,
                    candidates(old(store)@, code@)[k].id,
                )
        } else {
            reply@ == reply_of(Err(LinkError::LinkNotFound)) && final(store)@ == old(store)@
        },
{
    let outcome = resolve(store, code);
    redirect_reply(&outcome)
}

} // verus!
