//! The endpoints of the cloud API: for each call, the HTTP method and path.
use vstd::prelude::*;
use crate::transport::HttpMethod;

verus! {

/// One call of the cloud API.
#[derive(Clone, Copy, PartialEq, Eq, Debug)]
pub enum Endpoint {
    Authenticate,
    ReadAccount,
    ReadLeanVersions,
    CreateBacktest,
    ReadBacktest,
    ListBacktests,
    UpdateBacktest,
    DeleteBacktest,
    UpdateBacktestTags,
    ReadBacktestChart,
    ReadBacktestOrders,
    ReadBacktestInsights,
    ReadBacktestReport,
    CreateCompile,
    ReadCompile,
    CreateFile,
    ReadFiles,
    UpdateFileName,
    UpdateFileContents,
    DeleteFile,
    PatchFile,
    UploadObject,
    GetObjectProperties,
    GetObject,
    DeleteObject,
    ListObjects,
    CreateProject,
    ReadProject,
    UpdateProject,
    DeleteProject,
    CreateCollaborator,
    ReadCollaborators,
    UpdateCollaborator,
    DeleteCollaborator,
    LockProject,
    ReadProjectNodes,
    UpdateProjectNodes,
}

/// The HTTP method of each call.
pub open spec fn endpoint_method(e: Endpoint) -> HttpMethod {
    match e {
        Endpoint::Authenticate => HttpMethod::Post,
        Endpoint::ReadAccount => HttpMethod::Get,
        Endpoint::ReadLeanVersions => HttpMethod::Get,
        Endpoint::CreateBacktest => HttpMethod::Post,
        Endpoint::ReadBacktest => HttpMethod::Post,
        Endpoint::ListBacktests => HttpMethod::Post,
        Endpoint::UpdateBacktest => HttpMethod::Post,
        Endpoint::DeleteBacktest => HttpMethod::Post,
        Endpoint::UpdateBacktestTags => HttpMethod::Post,
        Endpoint::ReadBacktestChart => HttpMethod::Post,
        Endpoint::ReadBacktestOrders => HttpMethod::Post,
        Endpoint::ReadBacktestInsights => HttpMethod::Post,
        Endpoint::ReadBacktestReport => HttpMethod::Post,
        Endpoint::CreateCompile => HttpMethod::Post,
        Endpoint::ReadCompile => HttpMethod::Post,
        Endpoint::CreateFile => HttpMethod::Post,
        Endpoint::ReadFiles => HttpMethod::Post,
        Endpoint::UpdateFileName => HttpMethod::Post,
        Endpoint::UpdateFileContents => HttpMethod::Post,
        Endpoint::DeleteFile => HttpMethod::Post,
        Endpoint::PatchFile => HttpMethod::Post,
        Endpoint::UploadObject => HttpMethod::Post,
        Endpoint::GetObjectProperties => HttpMethod::Post,
        Endpoint::GetObject => HttpMethod::Post,
        Endpoint::DeleteObject => HttpMethod::Post,
        Endpoint::ListObjects => HttpMethod::Post,
        Endpoint::CreateProject => HttpMethod::Post,
        Endpoint::ReadProject => HttpMethod::Get,
        Endpoint::UpdateProject => HttpMethod::Put,
        Endpoint::DeleteProject => HttpMethod::Delete,
        Endpoint::CreateCollaborator => HttpMethod::Post,
        Endpoint::ReadCollaborators => HttpMethod::Get,
        Endpoint::UpdateCollaborator => HttpMethod::Put,
        Endpoint::DeleteCollaborator => HttpMethod::Delete,
        Endpoint::LockProject => HttpMethod::Post,
        Endpoint::ReadProjectNodes => HttpMethod::Get,
        Endpoint::UpdateProjectNodes => HttpMethod::Put,
    }
}

/// The path of each call, below the API's base URL.
pub open spec fn endpoint_path(e: Endpoint) -> Seq<char> {
    match e {
        Endpoint::Authenticate => "/authenticate"@,
        Endpoint::ReadAccount => "/account/read"@,
        Endpoint::ReadLeanVersions => "/lean/versions/read"@,
        Endpoint::CreateBacktest => "/backtests/create"@,
        Endpoint::ReadBacktest => "/backtests/read"@,
        Endpoint::ListBacktests => "/backtests/list"@,
        Endpoint::UpdateBacktest => "/backtests/update"@,
        Endpoint::DeleteBacktest => "/backtests/delete"@,
        Endpoint::UpdateBacktestTags => "/backtests/tags/update"@,
        Endpoint::ReadBacktestChart => "/backtests/chart/read"@,
        Endpoint::ReadBacktestOrders => "/backtests/orders/read"@,
        Endpoint::ReadBacktestInsights => "/backtests/read/insights"@,
        Endpoint::ReadBacktestReport => "/backtests/read/report"@,
        Endpoint::CreateCompile => "/compile/create"@,
        Endpoint::ReadCompile => "/compile/read"@,
        Endpoint::CreateFile => "/files/create"@,
        Endpoint::ReadFiles => "/files/read"@,
        Endpoint::UpdateFileName => "/files/update"@,
        Endpoint::UpdateFileContents => "/files/update"@,
        Endpoint::DeleteFile => "/files/delete"@,
        Endpoint::PatchFile => "/files/patch"@,
        Endpoint::UploadObject => "/object/set"@,
        Endpoint::GetObjectProperties => "/object/properties"@,
        Endpoint::GetObject => "/object/get"@,
        Endpoint::DeleteObject => "/object/delete"@,
        Endpoint::ListObjects => "/object/list"@,
        Endpoint::CreateProject => "/projects/create"@,
        Endpoint::ReadProject => "/projects/read"@,
        Endpoint::UpdateProject => "/projects/update"@,
        Endpoint::DeleteProject => "/projects/delete"@,
        Endpoint::CreateCollaborator => "/projects/collaboration/create"@,
        Endpoint::ReadCollaborators => "/projects/collaboration/read"@,
        Endpoint::UpdateCollaborator => "/projects/collaboration/update"@,
        Endpoint::DeleteCollaborator => "/projects/collaboration/delete"@,
        Endpoint::LockProject => "/projects/collaboration/lock/acquire"@,
        Endpoint::ReadProjectNodes => "/projects/nodes/read"@,
        Endpoint::UpdateProjectNodes => "/projects/nodes/update"@,
    }
}

impl Endpoint {
    /// The HTTP method and path of this call. Reads go by `GET` with a query
    /// string; project and collaborator updates by `PUT`; their deletions by
    /// `DELETE`; every other call by `POST` with a JSON body (an object
    /// upload by `POST` with a multipart form).
    pub fn route(self) -> (r: (HttpMethod, &'static str))
        ensures
            r.0 == endpoint_method(self),
            r.1@ == endpoint_path(self),
    {
        match self {
            Endpoint::Authenticate => (HttpMethod::Post, "/authenticate"),
            Endpoint::ReadAccount => (HttpMethod::Get, "/account/read"),
            Endpoint::ReadLeanVersions => (HttpMethod::Get, "/lean/versions/read"),
            Endpoint::CreateBacktest => (HttpMethod::Post, "/backtests/create"),
            Endpoint::ReadBacktest => (HttpMethod::Post, "/backtests/read"),
            Endpoint::ListBacktests => (HttpMethod::Post, "/backtests/list"),
            Endpoint::UpdateBacktest => (HttpMethod::Post, "/backtests/update"),
            Endpoint::DeleteBacktest => (HttpMethod::Post, "/backtests/delete"),
            Endpoint::UpdateBacktestTags => (HttpMethod::Post, "/backtests/tags/update"),
            Endpoint::ReadBacktestChart => (HttpMethod::Post, "/backtests/chart/read"),
            Endpoint::ReadBacktestOrders => (HttpMethod::Post, "/backtests/orders/read"),
            Endpoint::ReadBacktestInsights => (HttpMethod::Post, "/backtests/read/insights"),
            Endpoint::ReadBacktestReport => (HttpMethod::Post, "/backtests/read/report"),
            Endpoint::CreateCompile => (HttpMethod::Post, "/compile/create"),
            Endpoint::ReadCompile => (HttpMethod::Post, "/compile/read"),
            Endpoint::CreateFile => (HttpMethod::Post, "/files/create"),
            Endpoint::ReadFiles => (HttpMethod::Post, "/files/read"),
            Endpoint::UpdateFileName => (HttpMethod::Post, "/files/update"),
            Endpoint::UpdateFileContents => (HttpMethod::Post, "/files/update"),
            Endpoint::DeleteFile => (HttpMethod::Post, "/files/delete"),
            Endpoint::PatchFile => (HttpMethod::Post, "/files/patch"),
            Endpoint::UploadObject => (HttpMethod::Post, "/object/set"),
            Endpoint::GetObjectProperties => (HttpMethod::Post, "/object/properties"),
            Endpoint::GetObject => (HttpMethod::Post, "/object/get"),
            Endpoint::DeleteObject => (HttpMethod::Post, "/object/delete"),
            Endpoint::ListObjects => (HttpMethod::Post, "/object/list"),
            Endpoint::CreateProject => (HttpMethod::Post, "/projects/create"),
            Endpoint::ReadProject => (HttpMethod::Get, "/projects/read"),
            Endpoint::UpdateProject => (HttpMethod::Put, "/projects/update"),
            Endpoint::DeleteProject => (HttpMethod::Delete, "/projects/delete"),
            Endpoint::CreateCollaborator => (HttpMethod::Post, "/projects/collaboration/create"),
            Endpoint::ReadCollaborators => (HttpMethod::Get, "/projects/collaboration/read"),
            Endpoint::UpdateCollaborator => (HttpMethod::Put, "/projects/collaboration/update"),
            Endpoint::DeleteCollaborator => (HttpMethod::Delete, "/projects/collaboration/delete"),
            Endpoint::LockProject => (HttpMethod::Post, "/projects/collaboration/lock/acquire"),
            Endpoint::ReadProjectNodes => (HttpMethod::Get, "/projects/nodes/read"),
            Endpoint::UpdateProjectNodes => (HttpMethod::Put, "/projects/nodes/update"),
        }
    }
}

} // verus!
