//! Error and deployment-report types shared by the gateway core and the
//! operational tooling around it.

use vstd::prelude::*;

verus! {

/// Relies on `std::io::Error` as an opaque error payload carried inside
/// `GraphError`; nothing is assumed about its contents.
#[verifier::external_type_specification]
#[verifier::external_body]
pub struct ExIoError(std::io::Error);

/// Errors surfaced by the graph storage engine and by connection handling.
#[derive(Debug)]
pub enum GraphError {
    Io(std::io::Error),
    GraphConnectionError(String, std::io::Error),
    StorageConnectionError(String, std::io::Error),
    StorageError(String),
    TraversalError(String),
    EdgeNotFound,
    NodeNotFound,
    New(String),
}

/// Relies on the `Display` implementation of `std::io::Error` for the text of
/// the underlying OS error; nothing is promised of that text.
#[verifier::external_body]
fn io_error_text(e: &std::io::Error) -> String {
    format!("{}", e)
}

impl GraphError {
    /// Human-readable rendering of the error. The text of an embedded
    /// `std::io::Error` is machine-dependent, so for those variants only the
    /// prefix is pinned down.
    pub fn message(&self) -> (r: String)
        ensures
            (match self {
                GraphError::Io(_) => exists|t: Seq<char>| r@ == "IO error: "@ + t,
                GraphError::GraphConnectionError(msg, _) => exists|t: Seq<char>|
                    r@ == "Error: "@ + msg@ + seq![' '] + t,
                GraphError::StorageConnectionError(msg, _) => exists|t: Seq<char>|
                    r@ == "Error: "@ + msg@ + seq![' '] + t,
                GraphError::TraversalError(msg) => r@ == "Traversal error: "@ + msg@,
                GraphError::StorageError(msg) => r@ == "Storage error: "@ + msg@,
                GraphError::EdgeNotFound => r@ == "Edge not found"@,
                GraphError::NodeNotFound => r@ == "Node not found"@,
                GraphError::New(msg) => r@ == "Graph error: "@ + msg@,
            }),
    {
        match self {
            GraphError::Io(e) => {
                let text = io_error_text(e);
                let r = String::from_str("IO error: ").concat(text.as_str());
                proof {
                    let t = text@;
                    assert(r@ == "IO error: "@ + t);
                }
                r
            },
            GraphError::GraphConnectionError(msg, e) => connection_error_text(msg, e),
            GraphError::StorageConnectionError(msg, e) => connection_error_text(msg, e),
            GraphError::TraversalError(msg) => String::from_str("Traversal error: ").concat(
                msg.as_str(),
            ),
            GraphError::StorageError(msg) => String::from_str("Storage error: ").concat(
                msg.as_str(),
            ),
            GraphError::EdgeNotFound => String::from_str("Edge not found"),
            GraphError::NodeNotFound => String::from_str("Node not found"),
            GraphError::New(msg) => String::from_str("Graph error: ").concat(msg.as_str()),
        }
    }
}

/// Builds `"Error: <msg> <io text>"`; only the part before the machine-chosen
/// io text is pinned down.
fn connection_error_text(msg: &String, e: &std::io::Error) -> (r: String)
    ensures
        exists|t: Seq<char>| r@ == "Error: "@ + msg@ + seq![' '] + t,
{
    let mut s = String::from_str("Error: ");
    s.append(msg.as_str());
    s.append(" ");
    let text = io_error_text(e);
    s.append(text.as_str());
    proof {
        reveal_strlit(" ");
        assert(" "@ =~= seq![' ']);
        let t = text@;
        assert(s@ =~= "Error: "@ + msg@ + seq![' '] + t);
    }
    s
}

impl core::convert::From<std::io::Error> for GraphError {
    fn from(error: std::io::Error) -> (r: GraphError) {
        GraphError::Io(error)
    }
}

impl vstd::std_specs::convert::FromSpecImpl<std::io::Error> for GraphError {
    open spec fn obeys_from_spec() -> bool {
        true
    }

    open spec fn from_spec(v: std::io::Error) -> GraphError {
        GraphError::Io(v)
    }
}

/// A request to redeploy one instance, as the operator's helper receives it.
pub struct HBuildDeployRequest {
    pub user_id: String,
    pub instance_id: String,
    pub version: String,
}

/// The acknowledgment the redeploy helper returns to the operator.
pub struct DeployResponse {
    pub success: bool,
    pub message: String,
    pub error: Option<String>,
}

impl DeployResponse {
    /// A successful acknowledgment carrying `message` and no error text.
    pub fn success(message: String) -> (r: DeployResponse)
        ensures
            r.success,
            r.message == message,
            r.error is None,
    {
        DeployResponse { success: true, message, error: None }
    }

    /// A failed acknowledgment carrying `message` and the error text.
    pub fn error(message: String, error: String) -> (r: DeployResponse)
        ensures
            !r.success,
            r.message == message,
            r.error == Some(error),
    {
        DeployResponse { success: false, message, error: Some(error) }
    }
}

} // verus!
