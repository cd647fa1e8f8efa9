//! What holds of the API across requests.

use vstd::prelude::*;

use crate::api;
use crate::api::http::RequestModel;
use crate::api::routes;
use crate::api::routes::{RouteModel, StepModel};
use crate::domain::issue::IssueModel;
use crate::domain::kinds::IssueId;
use crate::projection::laws;
use crate::projection::model;

verus! {

/// Whether a request reads one Issue.
pub open spec fn reads_issue(request: RequestModel, id: IssueId) -> bool {
    request.method == "GET"@ && routes::routed(request.path) == Some(RouteModel::Issue(id))
}

/// Once an Issue has been filed, reading it answers with that Issue.
pub proof fn what_is_filed_is_served(
    issues: Seq<IssueModel>,
    new: IssueModel,
    request: RequestModel,
)
    requires
        laws::distinct_ids(issues),
        model::found(issues, new.id) is None,
        reads_issue(request, new.id),
    ensures
        routes::dispatched(request, model::after_insert(issues, new)) == StepModel::Respond(
            routes::issue_response(200, new, model::after_insert(issues, new)),
        ),
{
    let after = model::after_insert(issues, new);
    laws::an_insert_adds_one_issue(issues, new);
    laws::an_issue_is_found_by_its_id(after, new.id);
    assert(after.contains(new));
}

/// Once a new version of an Issue has been stored, reading the Issue answers
/// with that version, as the write itself was answered.
pub proof fn what_is_written_is_served(
    issues: Seq<IssueModel>,
    next: IssueModel,
    request: RequestModel,
)
    requires
        laws::distinct_ids(issues),
        model::found(issues, next.id) is Some,
        reads_issue(request, next.id),
    ensures
        routes::dispatched(request, model::after_update(issues, next)) == StepModel::Respond(
            routes::issue_response(200, next, model::after_update(issues, next)),
        ),
{
    let after = model::after_update(issues, next);
    laws::an_update_replaces_one_issue(issues, next);
    laws::an_issue_is_found_by_its_id(after, next.id);
    assert(after.contains(next));
}

/// Once an Issue has been erased, reading it answers that there is none.
pub proof fn what_is_erased_is_gone(issues: Seq<IssueModel>, id: IssueId, request: RequestModel)
    requires
        laws::distinct_ids(issues),
        reads_issue(request, id),
    ensures
        routes::dispatched(request, model::after_delete(issues, id)) == StepModel::Respond(
            routes::not_found_response(id),
        ),
{
    let after = model::after_delete(issues, id);
    laws::an_erasure_orphans_the_parts(issues, id);
    laws::an_issue_is_found_by_its_id(after, id);
}

/// A `GET` is answered, and writes nothing.
pub proof fn a_read_writes_nothing(request: RequestModel, issues: Seq<IssueModel>)
    requires
        request.method == "GET"@,
    ensures
        routes::dispatched(request, issues) is Respond,
{
    reveal_strlit("GET");
    reveal_strlit("PUT");
    reveal_strlit("DELETE");
    assert("GET"@[0] != "PUT"@[0]);
    assert("GET"@[0] != "DELETE"@[0]);
}

/// A request that is not let in is answered the same whatever the Issues are,
/// and writes nothing.
pub proof fn a_refused_request_learns_nothing(
    request: RequestModel,
    token: Seq<char>,
    issues: Seq<IssueModel>,
    others: Seq<IssueModel>,
)
    requires
        !api::auth::admitted(request, token),
    ensures
        api::handled(request, token, issues) is Respond,
        api::handled(request, token, issues) == api::handled(request, token, others),
{
}

} // verus!
