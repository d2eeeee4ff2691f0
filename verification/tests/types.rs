use helix_gateway::types::{DeployResponse, GraphError};

#[test]
fn test_deploy_response_success() {
    let r = DeployResponse::success(String::from("deployed"));
    assert!(r.success);
    assert_eq!(r.message, "deployed");
    assert!(r.error.is_none());
}

#[test]
fn test_deploy_response_error() {
    let r = DeployResponse::error(String::from("deploy failed"), String::from("no such version"));
    assert!(!r.success);
    assert_eq!(r.message, "deploy failed");
    assert_eq!(r.error, Some(String::from("no such version")));
}

#[test]
fn test_graph_error_messages() {
    assert_eq!(GraphError::EdgeNotFound.message(), "Edge not found");
    assert_eq!(GraphError::NodeNotFound.message(), "Node not found");
    assert_eq!(
        GraphError::New(String::from("boom")).message(),
        "Graph error: boom"
    );
    assert_eq!(
        GraphError::StorageError(String::from("disk full")).message(),
        "Storage error: disk full"
    );
    assert_eq!(
        GraphError::TraversalError(String::from("no path")).message(),
        "Traversal error: no path"
    );
    let io = std::io::Error::new(std::io::ErrorKind::Other, "gone");
    assert!(GraphError::Io(io).message().starts_with("IO error: "));
    let io2 = std::io::Error::new(std::io::ErrorKind::Other, "gone");
    assert!(GraphError::GraphConnectionError(String::from("lost"), io2)
        .message()
        .starts_with("Error: lost "));
    let io3 = std::io::Error::new(std::io::ErrorKind::Other, "gone");
    let from_io = GraphError::from(io3);
    assert!(matches!(from_io, GraphError::Io(_)));
}
