use forge_watch::artifacts::{
    artifact_response, locate_artifact, refusal_response, ArtifactRefusal, ArtifactRequest,
};
use forge_watch::http::{http_response, http_text};

fn request(node: &str, file: &str) -> ArtifactRequest {
    ArtifactRequest { node_id: node.to_string(), filename: file.to_string() }
}

#[test]
fn allowed_files_are_located() {
    for file in ["prompt.md", "response.md", "status.json"] {
        let path = format!("/api/artifacts/plan_1/{file}");
        assert_eq!(locate_artifact(&path), Ok(request("plan_1", file)));
    }
    assert_eq!(locate_artifact("/api/artifacts//prompt.md"), Ok(request("", "prompt.md")));
    assert_eq!(locate_artifact("/api/artifacts/./prompt.md"), Ok(request(".", "prompt.md")));
}

#[test]
fn other_paths_are_not_found() {
    assert_eq!(locate_artifact("/api/artifact/a/prompt.md"), Err(ArtifactRefusal::NotFound));
    assert_eq!(locate_artifact("/"), Err(ArtifactRefusal::NotFound));
    assert_eq!(locate_artifact(""), Err(ArtifactRefusal::NotFound));
}

#[test]
fn path_without_a_file_is_refused() {
    assert_eq!(locate_artifact("/api/artifacts/node"), Err(ArtifactRefusal::MissingFilename));
    assert_eq!(locate_artifact("/api/artifacts/"), Err(ArtifactRefusal::MissingFilename));
}

#[test]
fn other_files_are_refused() {
    for file in ["", "secret.txt", "a/prompt.md", "prompt.md/", "../prompt.md", "PROMPT.MD"] {
        let path = format!("/api/artifacts/node/{file}");
        assert_eq!(locate_artifact(&path), Err(ArtifactRefusal::InvalidFilename));
    }
}

#[test]
fn nodes_that_lead_out_are_refused() {
    for node in ["..", "a..b", "a\\b", "\\"] {
        let path = format!("/api/artifacts/{node}/prompt.md");
        assert_eq!(locate_artifact(&path), Err(ArtifactRefusal::InvalidNodeId));
    }
}

#[test]
fn file_is_judged_before_the_node() {
    assert_eq!(locate_artifact("/api/artifacts/../x"), Err(ArtifactRefusal::InvalidFilename));
}

#[test]
fn refusals_have_their_replies() {
    assert_eq!(refusal_response(ArtifactRefusal::NotFound), http_text(404, "Not Found"));
    assert_eq!(
        refusal_response(ArtifactRefusal::MissingFilename),
        http_text(400, "missing filename")
    );
    assert_eq!(
        refusal_response(ArtifactRefusal::InvalidFilename),
        http_text(400, "invalid filename")
    );
    assert_eq!(
        refusal_response(ArtifactRefusal::InvalidNodeId),
        http_text(400, "invalid node_id")
    );
}

#[test]
fn content_type_follows_the_file() {
    assert_eq!(
        artifact_response(&request("n", "status.json"), &Some(b"{}".to_vec())),
        http_response(200, "application/json", b"{}")
    );
    assert_eq!(
        artifact_response(&request("n", "prompt.md"), &Some(b"hi".to_vec())),
        http_response(200, "text/plain; charset=utf-8", b"hi")
    );
    assert_eq!(
        artifact_response(&request("n", "json"), &Some(Vec::new())),
        http_response(200, "text/plain; charset=utf-8", b"")
    );
}

#[test]
fn absent_file_is_not_found() {
    assert_eq!(
        artifact_response(&request("n", "prompt.md"), &None),
        http_text(404, "Not Found")
    );
}
