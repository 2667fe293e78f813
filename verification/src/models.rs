//! Response models of the cloud API that the library reads.
//!
//! Fields mirror the service's JSON (camelCase there, snake_case here);
//! fields the service may omit take their default when read.
use vstd::prelude::*;
use crate::warm::{CompileStart, CompileRead};
use crate::projects::DeleteOutcome;

verus! {

/// Base response returned by every endpoint.
#[derive(Debug, Clone)]
pub struct RestResponse {
    pub success: bool,
    pub errors: Vec<String>,
}

/// A payment card on the account.
#[derive(Debug, Clone)]
pub struct Card {
    pub brand: String,
    pub expiration: String,
    pub last4: String,
}

/// One release of the LEAN engine.
#[derive(Debug, Clone)]
pub struct LeanVersion {
    pub id: i64,
    pub created: String,
    pub description: String,
    pub lean_hash: String,
    pub lean_cloud_hash: String,
    pub name: String,
    pub ref_: String,
    pub public: Option<bool>,
}

/// Available LEAN engine versions.
#[derive(Debug, Clone)]
pub struct LeanVersionsResponse {
    pub versions: Vec<LeanVersion>,
    pub success: bool,
    pub errors: Vec<String>,
}

/// A traded symbol as orders report it.
#[derive(Debug, Clone)]
pub struct Symbol {
    pub value: String,
    pub id: String,
    pub permtick: String,
}

/// A backtest report (HTML with embedded images), or news that it is being generated.
#[derive(Debug, Clone)]
pub struct BacktestReportResponse {
    pub report: Option<String>,
    pub generating: Option<bool>,
    pub success: bool,
    pub errors: Vec<String>,
}

/// One parameter found in a project file.
#[derive(Debug, Clone)]
pub struct ParameterDetail {
    pub line: i64,
    pub type_: String,
}

/// The parameters found in one project file.
#[derive(Debug, Clone)]
pub struct FileParameters {
    pub file: String,
    pub parameters: Vec<ParameterDetail>,
}

/// Answer to a request to start a compile.
#[derive(Debug, Clone)]
pub struct CreateCompileResponse {
    pub compile_id: String,
    /// `InQueue`, `BuildSuccess` or `BuildError`.
    pub state: String,
    pub parameters: Vec<FileParameters>,
    pub project_id: i64,
    pub signature: Option<String>,
    pub signature_order: Vec<String>,
    pub success: bool,
    pub errors: Vec<String>,
}

/// State of a compile, with its build log.
#[derive(Debug, Clone)]
pub struct ReadCompileResponse {
    pub compile_id: String,
    pub state: String,
    pub logs: Vec<String>,
    pub success: bool,
    pub errors: Vec<String>,
}

/// One file of a project.
#[derive(Debug, Clone)]
pub struct ProjectFile {
    pub id: Option<i64>,
    pub project_id: i64,
    pub name: String,
    pub content: String,
    pub modified: String,
    pub open: bool,
    pub is_library: bool,
}

/// The files of a project.
#[derive(Debug, Clone)]
pub struct ProjectFilesResponse {
    pub files: Vec<ProjectFile>,
    pub success: bool,
    pub errors: Vec<String>,
}

/// Metadata of an object in the organization's object store.
#[derive(Debug, Clone)]
pub struct ObjectStoreProperties {
    pub key: String,
    pub modified: String,
    pub created: String,
    pub size: i64,
    pub md5: Option<String>,
    pub mime: Option<String>,
    pub preview: Option<String>,
}

/// Metadata of one stored object.
#[derive(Debug, Clone)]
pub struct ObjectPropertiesResponse {
    pub metadata: Option<ObjectStoreProperties>,
    pub success: bool,
    pub errors: Vec<String>,
}

/// A download link for a stored object.
#[derive(Debug, Clone)]
pub struct GetObjectResponse {
    pub job_id: Option<String>,
    /// Download URL, parameters included.
    pub url: Option<String>,
    pub success: bool,
    pub errors: Vec<String>,
}

/// One entry of an object store listing.
#[derive(Debug, Clone)]
pub struct ObjectStoreSummary {
    pub key: String,
    pub name: Option<String>,
    pub modified: String,
    pub mime: Option<String>,
    pub folder: bool,
    pub size: i64,
}

/// One page of an object store listing.
#[derive(Debug, Clone)]
pub struct ListObjectsResponse {
    pub path: String,
    pub objects: Vec<ObjectStoreSummary>,
    pub page: i64,
    pub total_pages: i64,
    pub object_storage_used: i64,
    pub object_storage_used_human: Option<String>,
    pub success: bool,
    pub errors: Vec<String>,
}

/// A collaborator on a project.
#[derive(Debug, Clone)]
pub struct Collaborator {
    pub uid: i64,
    pub live_control: bool,
    pub permission: String,
    pub public_id: String,
    pub profile_image: String,
    pub email: String,
    pub name: String,
    pub bio: String,
    pub owner: bool,
}

/// The collaborators of a project after a change.
#[derive(Debug, Clone)]
pub struct CollaboratorsResponse {
    pub collaborators: Vec<Collaborator>,
    pub success: bool,
    pub errors: Vec<String>,
}

/// The collaborators of a project and the caller's own rights.
#[derive(Debug, Clone)]
pub struct ReadCollaboratorsResponse {
    pub collaborators: Vec<Collaborator>,
    pub user_live_control: bool,
    pub user_permissions: String,
    pub success: bool,
    pub errors: Vec<String>,
}

/// Monthly and yearly price of a node.
#[derive(Debug, Clone)]
pub struct NodePrices {
    pub monthly: i64,
    pub yearly: i64,
}

impl RestResponse {
    /// How a deletion request answered with this response ended.
    pub fn delete_outcome(self) -> (o: DeleteOutcome)
        ensures
            self.success ==> o is Deleted,
            !self.success ==> (o matches DeleteOutcome::Rejected { errors } && errors@ == self.errors@),
    {
        if self.success {
            DeleteOutcome::Deleted
        } else {
            DeleteOutcome::Rejected { errors: self.errors }
        }
    }
}

impl CreateCompileResponse {
    /// This answer, as the warm-up steps read it.
    pub fn as_compile_start(self) -> (s: CompileStart)
        ensures
            s matches CompileStart::Answered { success, compile_id, errors } && success == self.success
                && compile_id == self.compile_id && errors == self.errors,
    {
        CompileStart::Answered { success: self.success, compile_id: self.compile_id, errors: self.errors }
    }
}

impl ReadCompileResponse {
    /// This answer, as the compile poll reads it.
    pub fn as_compile_read(self) -> (r: CompileRead)
        ensures
            r matches CompileRead::State { state, logs } && state == self.state && logs == self.logs,
    {
        CompileRead::State { state: self.state, logs: self.logs }
    }
}

} // verus!
