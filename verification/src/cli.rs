//! The command line's arguments, as plain data.
use vstd::prelude::*;

verus! {

#[derive(Debug)]
pub struct Cli {
    pub cmd: RootCmds,
}

#[derive(Debug)]
pub enum RootCmds {
    /// Commands for interacting with requests in a collection
    Req(ReqArgs),

    /// Commands for interacting with collections
    Coll(CollArgs),

    /// Commands for interacting with environments
    Env(EnvArgs),

    /// Commands for interacting with workspaces
    Work(WorkArgs),

    /// Commands for interacting with specs
    Spec,

    /// Commands for viewing request history
    Hist(HistArgs),

    /// Commands for configuring yapi
    Conf(ConfArgs),
}

// ── Req ─────────────────────────────────────────────────────────────────

#[derive(Debug)]
pub struct ReqArgs {
    pub cmd: ReqCmds,
}

#[derive(Debug)]
pub enum ReqCmds {
    /// List requests in a collection
    List(ReqListArgs),
    /// Create a new request
    Create(ReqCreateArgs),
    /// Show details of a request
    Show(ReqShowArgs),
    /// Run a request
    Run(ReqRunArgs),
    /// Update a request
    Update(ReqUpdateArgs),
    /// Delete a request from a collection
    Del(ReqDelArgs),
}

#[derive(Debug)]
pub struct ReqListArgs {
    /// Collection to list requests from
    pub collection: Option<String>,
    /// Filter by workspace name
    pub workspace: Option<String>,
    /// Output as JSON
    pub json: bool,
}

#[derive(Debug)]
pub struct ReqCreateArgs {
    /// Name for the new request
    pub name: String,
    /// URL for the request
    pub url: String,
    /// Collection to add the request to
    pub collection: Option<String>,
    /// Workspace name
    pub workspace: Option<String>,
    /// HTTP method
    pub method: Option<String>,
    /// Request body
    pub body: Option<String>,
    /// Headers (repeatable), format: "Key: Value"
    pub headers: Vec<String>,
    /// Query parameters (repeatable), format: "key=value"
    pub queries: Vec<String>,
}

#[derive(Debug)]
pub struct ReqShowArgs {
    /// Name of the request
    pub name: String,
    /// Collection containing the request
    pub collection: Option<String>,
    /// Workspace name
    pub workspace: Option<String>,
    /// Output as JSON
    pub json: bool,
}

#[derive(Debug)]
pub struct ReqRunArgs {
    /// Name of the request to run
    pub name: String,
    /// Collection containing the request
    pub collection: Option<String>,
    /// Workspace name
    pub workspace: Option<String>,
    /// Environment to use for variable substitution
    pub env: Option<String>,
}

#[derive(Debug)]
pub struct ReqUpdateArgs {
    /// Name of the request to update
    pub name: String,
    /// Collection containing the request
    pub collection: Option<String>,
    /// Workspace name
    pub workspace: Option<String>,
    /// New name for the request
    pub new_name: Option<String>,
    /// New URL
    pub new_url: Option<String>,
    /// New HTTP method
    pub new_method: Option<String>,
    /// New request body
    pub new_body: Option<String>,
}

#[derive(Debug)]
pub struct ReqDelArgs {
    /// Name of the request to delete
    pub name: String,
    /// Collection containing the request
    pub collection: Option<String>,
    /// Workspace name
    pub workspace: Option<String>,
    /// Skip confirmation prompt
    pub force: bool,
}

// ── Coll ────────────────────────────────────────────────────────────────

#[derive(Debug)]
pub struct CollArgs {
    pub cmd: CollCmds,
}

#[derive(Debug)]
pub enum CollCmds {
    /// List collections
    List(CollListArgs),
    /// Create a new collection
    Create(CollCreateArgs),
    /// Show details of a collection
    Show(CollShowArgs),
    /// Update a collection
    Update(CollUpdateArgs),
    /// Delete a collection
    Del(CollDelArgs),
}

#[derive(Debug)]
pub struct CollListArgs {
    /// Filter by workspace name
    pub workspace: Option<String>,
    /// Output as JSON
    pub json: bool,
}

#[derive(Debug)]
pub struct CollCreateArgs {
    /// Name for the new collection
    pub name: String,
    /// Workspace to create the collection in
    pub workspace: Option<String>,
    /// Description of the collection
    pub description: Option<String>,
}

#[derive(Debug)]
pub struct CollShowArgs {
    /// Name of the collection
    pub name: String,
    /// Workspace name
    pub workspace: Option<String>,
    /// Output as JSON
    pub json: bool,
}

#[derive(Debug)]
pub struct CollUpdateArgs {
    /// Name of the collection to update
    pub name: String,
    /// Workspace name
    pub workspace: Option<String>,
    /// New name for the collection
    pub new_name: Option<String>,
    /// New description
    pub new_description: Option<String>,
    /// Set the default environment (by name)
    pub default_env: Option<String>,
}

#[derive(Debug)]
pub struct CollDelArgs {
    /// Name of the collection to delete
    pub name: String,
    /// Workspace name
    pub workspace: Option<String>,
    /// Skip confirmation prompt
    pub force: bool,
}

// ── Env ─────────────────────────────────────────────────────────────────

#[derive(Debug)]
pub struct EnvArgs {
    pub cmd: EnvCmds,
}

#[derive(Debug)]
pub enum EnvCmds {
    /// List environments
    List(EnvListArgs),
    /// Create a new environment
    Create(EnvCreateArgs),
    /// Show details of an environment
    Show(EnvShowArgs),
    /// Update an environment
    Update(EnvUpdateArgs),
    /// Delete an environment
    Del(EnvDelArgs),
    /// Manage environment variables
    Vars(EnvVarArgs),
}

#[derive(Debug)]
pub struct EnvListArgs {
    /// Filter by workspace name
    pub workspace: Option<String>,
    /// Output as JSON
    pub json: bool,
}

#[derive(Debug)]
pub struct EnvCreateArgs {
    /// Name for the new environment
    pub name: String,
    /// Workspace to create the environment in
    pub workspace: Option<String>,
    /// Description of the environment
    pub description: Option<String>,
}

#[derive(Debug)]
pub struct EnvShowArgs {
    /// Name of the environment
    pub name: String,
    /// Workspace name
    pub workspace: Option<String>,
    /// Output as JSON
    pub json: bool,
}

#[derive(Debug)]
pub struct EnvUpdateArgs {
    /// Name of the environment to update
    pub name: String,
    /// Workspace name
    pub workspace: Option<String>,
    /// New name for the environment
    pub new_name: Option<String>,
    /// New description
    pub new_description: Option<String>,
}

#[derive(Debug)]
pub struct EnvDelArgs {
    /// Name of the environment to delete
    pub name: String,
    /// Workspace name
    pub workspace: Option<String>,
    /// Skip confirmation prompt
    pub force: bool,
}

// ── Env Vars ────────────────────────────────────────────────────────────

#[derive(Debug)]
pub struct EnvVarArgs {
    pub cmd: EnvVarCmds,
}

#[derive(Debug)]
pub enum EnvVarCmds {
    /// List variables in an environment
    List(EnvVarListArgs),
    /// Create a new environment variable
    Create(EnvVarCreateArgs),
    /// Show details of an environment variable
    Show(EnvVarShowArgs),
    /// Update an environment variable
    Update(EnvVarUpdateArgs),
    /// Delete an environment variable
    Del(EnvVarDelArgs),
}

#[derive(Debug)]
pub struct EnvVarListArgs {
    /// Environment name
    pub env: String,
    /// Workspace name
    pub workspace: Option<String>,
    /// Output as JSON
    pub json: bool,
}

#[derive(Debug)]
pub struct EnvVarCreateArgs {
    /// Name for the variable
    pub name: String,
    /// Value for the variable
    pub value: String,
    /// Environment to add the variable to
    pub env: String,
    /// Workspace name
    pub workspace: Option<String>,
    /// Description of the variable
    pub description: Option<String>,
    /// Mark as a secret variable
    pub secret: bool,
}

#[derive(Debug)]
pub struct EnvVarShowArgs {
    /// Name of the variable
    pub name: String,
    /// Environment name
    pub env: String,
    /// Workspace name
    pub workspace: Option<String>,
    /// Output as JSON
    pub json: bool,
}

#[derive(Debug)]
pub struct EnvVarUpdateArgs {
    /// Name of the variable to update
    pub name: String,
    /// Environment name
    pub env: String,
    /// Workspace name
    pub workspace: Option<String>,
    /// New name for the variable
    pub new_name: Option<String>,
    /// New value
    pub new_value: Option<String>,
    /// New description
    pub new_description: Option<String>,
    /// Mark as secret (or not)
    pub secret: Option<bool>,
}

#[derive(Debug)]
pub struct EnvVarDelArgs {
    /// Name of the variable to delete
    pub name: String,
    /// Environment name
    pub env: String,
    /// Workspace name
    pub workspace: Option<String>,
}

// ── Work ────────────────────────────────────────────────────────────────

#[derive(Debug)]
pub struct WorkArgs {
    pub cmd: WorkCmds,
}

#[derive(Debug)]
pub enum WorkCmds {
    /// List workspaces
    List(WorkListArgs),
    /// Create a new workspace
    Create(WorkCreateArgs),
    /// Show details of a workspace
    Show(WorkShowArgs),
    /// Update a workspace
    Update(WorkUpdateArgs),
    /// Delete a workspace
    Del(WorkDelArgs),
}

#[derive(Debug)]
pub struct WorkListArgs {
    /// Output as JSON
    pub json: bool,
}

#[derive(Debug)]
pub struct WorkCreateArgs {
    /// Name for the new workspace
    pub name: String,
    /// Description of the workspace
    pub description: Option<String>,
}

#[derive(Debug)]
pub struct WorkShowArgs {
    /// Name of the workspace
    pub name: String,
    /// Output as JSON
    pub json: bool,
}

#[derive(Debug)]
pub struct WorkUpdateArgs {
    /// Name of the workspace to update
    pub name: String,
    /// New name for the workspace
    pub new_name: Option<String>,
    /// New description
    pub new_description: Option<String>,
}

#[derive(Debug)]
pub struct WorkDelArgs {
    /// Name of the workspace to delete
    pub name: String,
    /// Skip confirmation prompt
    pub force: bool,
}

// ── Hist ────────────────────────────────────────────────────────────────

#[derive(Debug)]
pub struct HistArgs {
    pub cmd: HistCmds,
}

#[derive(Debug)]
pub enum HistCmds {
    /// List history entries
    List(HistListArgs),
    /// Show details of a history entry
    Show(HistShowArgs),
    /// Delete a history entry
    Del(HistDelArgs),
}

#[derive(Debug)]
pub struct HistListArgs {
    /// Filter by request name
    pub request: Option<String>,
    /// Filter by collection name
    pub collection: Option<String>,
    /// Filter by workspace name
    pub workspace: Option<String>,
    /// Output as JSON
    pub json: bool,
}

#[derive(Debug)]
pub struct HistShowArgs {
    /// ID of the history entry
    pub id: String,
    /// Output as JSON
    pub json: bool,
}

#[derive(Debug)]
pub struct HistDelArgs {
    /// ID of the history entry to delete
    pub id: String,
}

// ── Conf ────────────────────────────────────────────────────────────────

#[derive(Debug)]
pub struct ConfArgs {
    pub cmd: ConfCmds,
}

#[derive(Debug)]
pub enum ConfCmds {
    /// Initialize a default configuration file
    Init(ConfInitArgs),
    /// Show current configuration
    Show,
    /// Set a configuration value
    SetValue(ConfSetArgs),
    /// Get a configuration value
    Get(ConfGetArgs),
}

#[derive(Debug)]
pub struct ConfInitArgs {
    /// Overwrite existing config and database files
    pub force: bool,
}

#[derive(Debug)]
pub struct ConfSetArgs {
    /// Configuration key
    pub key: String,
    /// Value to set
    pub value: String,
}

#[derive(Debug)]
pub struct ConfGetArgs {
    /// Configuration key
    pub key: String,
}

} // verus!
