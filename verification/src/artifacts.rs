//! Requests for the files that a node leaves in the log directory.
use crate::http::{
    http_response, http_text, law_reply_reads_back, law_text_reply_reads_back, lemma_content_types,
    lemma_status_lines, received_body, received_line, response, text_reply,
};
use crate::text::{
    chars_of, contains_text, cut, find_char, has_prefix, law_starts_with_means_in_front, lemma_cut,
    lemma_cut_bounds, occurs, starts_with, str_eq,
};
use vstd::prelude::*;
use vstd::string::*;
use vstd::utf8::*;

verus! {

/// A file that may be served: it lies in the directory of the node under the log directory.
#[derive(Clone, Debug, PartialEq, Eq)]
pub struct ArtifactRequest {
    pub node_id: String,
    pub filename: String,
}

/// Why a path names no file that may be served.
#[derive(Clone, Copy, Debug, PartialEq, Eq, Structural)]
pub enum ArtifactRefusal {
    /// The path is none of an artifact.
    NotFound,
    /// The path names a node but no file.
    MissingFilename,
    /// The file is none of those that nodes leave.
    InvalidFilename,
    /// The node's name could lead out of the log directory.
    InvalidNodeId,
}

/// The node and the file that an `ArtifactRequest` names.
pub type ArtifactName = (Seq<char>, Seq<char>);

impl View for ArtifactRequest {
    type V = ArtifactName;

    open spec fn view(&self) -> ArtifactName {
        (self.node_id@, self.filename@)
    }
}

/// The files that nodes leave and that may be served.
pub open spec fn allowed_file(name: Seq<char>) -> bool {
    name == "prompt.md"@ || name == "response.md"@ || name == "status.json"@
}

/// Whether a node's name cannot lead out of the log directory.
pub open spec fn safe_node(name: Seq<char>) -> bool {
    !occurs(name, ".."@) && !name.contains('/') && !name.contains('\\')
}

/// The file that a path names, or why it names none: behind the prefix `/api/artifacts/` stand
/// the node, a slash and the file.
pub open spec fn artifact_named(path: Seq<char>) -> Result<ArtifactName, ArtifactRefusal> {
    if !starts_with(path, "/api/artifacts/"@) {
        Err(ArtifactRefusal::NotFound)
    } else {
        let rest = path.skip("/api/artifacts/"@.len() as int);
        let slash = cut(rest, '/') as int;
        if slash == rest.len() {
            Err(ArtifactRefusal::MissingFilename)
        } else {
            let node = rest.take(slash);
            let file = rest.skip(slash + 1);
            if !allowed_file(file) {
                Err(ArtifactRefusal::InvalidFilename)
            } else if !safe_node(node) {
                Err(ArtifactRefusal::InvalidNodeId)
            } else {
                Ok((node, file))
            }
        }
    }
}

fn is_allowed_file(name: &str) -> (r: bool)
    ensures
        r == allowed_file(name@),
{
    str_eq(name, "prompt.md") || str_eq(name, "response.md") || str_eq(name, "status.json")
}

fn has_char(s: &str, c: char) -> (r: bool)
    ensures
        r == s@.contains(c),
{
    let text = chars_of(s);
    let at = find_char(&text, c);
    proof {
        lemma_cut_bounds(s@, c);
    }
    at < text.len()
}

fn is_safe_node(name: &str) -> (r: bool)
    ensures
        r == safe_node(name@),
{
    !contains_text(name, "..") && !has_char(name, '/') && !has_char(name, '\\')
}

/// Finds the file that a path names.
pub fn locate_artifact(path: &str) -> (r: Result<ArtifactRequest, ArtifactRefusal>)
    ensures
        match r {
            Ok(request) => artifact_named(path@) == Ok::<ArtifactName, ArtifactRefusal>(request@),
            Err(refusal) => artifact_named(path@) == Err::<ArtifactName, ArtifactRefusal>(refusal),
        },
{
    let prefix = "/api/artifacts/";
    if !has_prefix(path, prefix) {
        return Err(ArtifactRefusal::NotFound);
    }
    let rest = path.substring_char(prefix.unicode_len(), path.unicode_len());
    assert(rest@ =~= path@.skip("/api/artifacts/"@.len() as int));
    let slash = find_char(&chars_of(rest), '/');
    let end = rest.unicode_len();
    if slash == end {
        return Err(ArtifactRefusal::MissingFilename);
    }
    let node = rest.substring_char(0, slash);
    let file = rest.substring_char(slash + 1, end);
    assert(node@ =~= rest@.take(slash as int));
    assert(file@ =~= rest@.skip(slash + 1));
    if !is_allowed_file(file) {
        return Err(ArtifactRefusal::InvalidFilename);
    }
    if !is_safe_node(node) {
        return Err(ArtifactRefusal::InvalidNodeId);
    }
    Ok(ArtifactRequest { node_id: String::from(node), filename: String::from(file) })
}

/// The reply to a request that is refused.
pub open spec fn refusal_reply(refusal: ArtifactRefusal) -> Seq<u8> {
    match refusal {
        ArtifactRefusal::NotFound => text_reply(404, "Not Found"@),
        ArtifactRefusal::MissingFilename => text_reply(400, "missing filename"@),
        ArtifactRefusal::InvalidFilename => text_reply(400, "invalid filename"@),
        ArtifactRefusal::InvalidNodeId => text_reply(400, "invalid node_id"@),
    }
}

/// The reply to a request that is refused.
pub fn refusal_response(refusal: ArtifactRefusal) -> (r: Vec<u8>)
    ensures
        r@ == refusal_reply(refusal),
{
    match refusal {
        ArtifactRefusal::NotFound => http_text(404, "Not Found"),
        ArtifactRefusal::MissingFilename => http_text(400, "missing filename"),
        ArtifactRefusal::InvalidFilename => http_text(400, "invalid filename"),
        ArtifactRefusal::InvalidNodeId => http_text(400, "invalid node_id"),
    }
}

/// The content type of a file.
pub open spec fn file_type(name: Seq<char>) -> Seq<char> {
    if name.len() >= 5 && name.skip(name.len() - 5) == ".json"@ {
        "application/json"@
    } else {
        "text/plain; charset=utf-8"@
    }
}

/// The reply with a file's content, or, where there is no such file, that it was not found.
pub open spec fn file_reply(name: Seq<char>, content: Option<Seq<u8>>) -> Seq<u8> {
    match content {
        Some(bytes) => response(200, file_type(name), bytes),
        None => text_reply(404, "Not Found"@),
    }
}

/// The reply to a request for a file; `content` is what the file holds, `None` where it could
/// not be read.
pub fn artifact_response(request: &ArtifactRequest, content: &Option<Vec<u8>>) -> (r: Vec<u8>)
    ensures
        r@ == file_reply(
            request@.1,
            match content {
                Some(bytes) => Some(bytes@),
                None => None,
            },
        ),
{
    match content {
        Some(bytes) => {
            let name = request.filename.as_str();
            let n = name.unicode_len();
            proof {
                reveal_strlit(".json");
            }
            let json = n >= 5 && str_eq(name.substring_char(n - 5, n), ".json");
            assert(n >= 5 ==> name@.subrange(n - 5, n as int) =~= name@.skip(n - 5));
            if json {
                http_response(200, "application/json", bytes.as_slice())
            } else {
                http_response(200, "text/plain; charset=utf-8", bytes.as_slice())
            }
        },
        None => http_text(404, "Not Found"),
    }
}

/// A path is served exactly if it names an allowed file of a node that cannot lead out of the
/// log directory, and then that very node and file are served.
pub proof fn law_served_paths(node: Seq<char>, file: Seq<char>)
    requires
        !node.contains('/'),
    ensures
        artifact_named("/api/artifacts/"@ + node + "/"@ + file) == if !allowed_file(file) {
            Err::<ArtifactName, ArtifactRefusal>(ArtifactRefusal::InvalidFilename)
        } else if !safe_node(node) {
            Err(ArtifactRefusal::InvalidNodeId)
        } else {
            Ok((node, file))
        },
{
    let prefix = "/api/artifacts/"@;
    let path = prefix + node + "/"@ + file;
    reveal_strlit("/");
    assert(path.subrange(0, prefix.len() as int) =~= prefix);
    let rest = path.skip(prefix.len() as int);
    assert(rest =~= node + "/"@ + file);
    assert forall|i: int| 0 <= i < node.len() implies rest[i] != '/' by {
        assert(node.contains(node[i]));
    }
    lemma_cut(rest, '/', node.len() as int);
    assert(rest.take(node.len() as int) =~= node);
    assert(rest.skip(node.len() as int + 1) =~= file);
}

/// What is served stays in the log directory: the node's name is a single step, down or in
/// place, and the file is one of the allowed ones; and the path was made of these two.
pub proof fn law_served_files_stay_inside(path: Seq<char>)
    requires
        artifact_named(path) is Ok,
    ensures
        ({
            let (node, file) = artifact_named(path)->Ok_0;
            &&& allowed_file(file)
            &&& !file.contains('/')
            &&& !node.contains('/')
            &&& !node.contains('\\')
            &&& !occurs(node, ".."@)
            &&& path == "/api/artifacts/"@ + node + "/"@ + file
        }),
{
    let prefix = "/api/artifacts/"@;
    let rest = path.skip(prefix.len() as int);
    let slash = cut(rest, '/') as int;
    lemma_cut_bounds(rest, '/');
    reveal_strlit("/");
    reveal_strlit("prompt.md");
    reveal_strlit("response.md");
    reveal_strlit("status.json");
    let (node, file) = artifact_named(path)->Ok_0;
    assert(rest =~= node + "/"@ + file);
    assert(path =~= path.subrange(0, prefix.len() as int) + rest);
    assert(path =~= prefix + node + "/"@ + file);
}

proof fn lemma_two_dots(name: Seq<char>)
    ensures
        occurs(name, ".."@) <==> exists|i: int|
            0 <= i < name.len() - 1 && #[trigger] name[i] == '.' && name[i + 1] == '.',
{
    reveal_strlit("..");
    let dots = ".."@;
    if occurs(name, dots) {
        let i = choose|i: int|
            0 <= i <= name.len() - dots.len() && #[trigger] name.subrange(i, i + dots.len()) == dots;
        let part = name.subrange(i, i + dots.len());
        assert(part[0] == name[i] && part[1] == name[i + 1]);
        assert(name[i] == '.' && name[i + 1] == '.');
    }
    if exists|i: int| 0 <= i < name.len() - 1 && #[trigger] name[i] == '.' && name[i + 1] == '.' {
        let i = choose|i: int|
            0 <= i < name.len() - 1 && #[trigger] name[i] == '.' && name[i + 1] == '.';
        assert(name.subrange(i, i + dots.len()) =~= dots);
    }
}

/// What stands behind the prefix is a node and a file, parted by the first slash. It is served
/// exactly if the file is one of the three that nodes leave and the node has neither a backslash
/// nor two dots in a row, and then that node and that file are served. The file is judged first.
pub proof fn law_which_files_are_served(node: Seq<char>, file: Seq<char>)
    requires
        !node.contains('/'),
    ensures
        ({
            let named = artifact_named("/api/artifacts/"@ + node + "/"@ + file);
            let left_by_nodes = file == "prompt.md"@ || file == "response.md"@ || file
                == "status.json"@;
            let leads_out = node.contains('\\') || exists|i: int|
                0 <= i < node.len() - 1 && #[trigger] node[i] == '.' && node[i + 1] == '.';
            &&& named is Ok <==> left_by_nodes && !leads_out
            &&& named is Ok ==> named->Ok_0 == (node, file)
            &&& named is Err && named->Err_0 is InvalidFilename <==> !left_by_nodes
            &&& named is Err && named->Err_0 is InvalidNodeId <==> left_by_nodes && leads_out
        }),
{
    law_served_paths(node, file);
    lemma_two_dots(node);
}

/// A path that does not start with the prefix names nothing; one that has no slash behind the
/// prefix names no file; every other path names a node and a file.
pub proof fn law_paths_that_name_no_file(path: Seq<char>, rest: Seq<char>)
    ensures
        artifact_named(path) is Err && artifact_named(path)->Err_0 is NotFound <==> !(exists|
            back: Seq<char>,
        |
            path == #[trigger] ("/api/artifacts/"@ + back)),
        artifact_named("/api/artifacts/"@ + rest) is Err && artifact_named(
            "/api/artifacts/"@ + rest,
        )->Err_0 is MissingFilename <==> !rest.contains('/'),
{
    let prefix = "/api/artifacts/"@;
    law_starts_with_means_in_front(path, prefix);
    law_starts_with_means_in_front(prefix + rest, prefix);
    assert(starts_with(prefix + rest, prefix));
    assert((prefix + rest).skip(prefix.len() as int) =~= rest);
    lemma_cut_bounds(rest, '/');
    if rest.contains('/') {
        let i = choose|i: int| 0 <= i < rest.len() && rest[i] == '/';
        if cut(rest, '/') == rest.len() {
            assert(rest[i] != '/');
        }
    } else {
        assert forall|i: int| 0 <= i < rest.len() implies rest[i] != '/' by {
            assert(rest.contains(rest[i]));
        }
        lemma_cut(rest, '/', rest.len() as int);
    }
}

/// A refusal is answered with 404 where the path names nothing and with 400 otherwise, and says
/// in plain text what was wrong.
pub proof fn law_refusals_say_why(refusal: ArtifactRefusal)
    ensures
        received_line(refusal_reply(refusal), 0) == if refusal is NotFound {
            "HTTP/1.1 404 Not Found"@
        } else {
            "HTTP/1.1 400 Bad Request"@
        },
        received_line(refusal_reply(refusal), 1) == "Content-Type: text/plain"@,
        decode_utf8(received_body(refusal_reply(refusal))) == match refusal {
            ArtifactRefusal::NotFound => "Not Found"@,
            ArtifactRefusal::MissingFilename => "missing filename"@,
            ArtifactRefusal::InvalidFilename => "invalid filename"@,
            ArtifactRefusal::InvalidNodeId => "invalid node_id"@,
        },
{
    lemma_status_lines();
    law_text_reply_reads_back(404, "Not Found"@);
    law_text_reply_reads_back(400, "missing filename"@);
    law_text_reply_reads_back(400, "invalid filename"@);
    law_text_reply_reads_back(400, "invalid node_id"@);
}

/// A file is received with its very content, as JSON if its name ends in `.json` and as UTF-8 text
/// otherwise; a file that could not be read is answered that it was not found.
pub proof fn law_files_are_received_as_they_are(
    name: Seq<char>,
    stem: Seq<char>,
    content: Seq<u8>,
)
    ensures
        received_line(file_reply(name, Some(content)), 0) == "HTTP/1.1 200 OK"@,
        received_body(file_reply(name, Some(content))) == content,
        received_line(file_reply(stem + ".json"@, Some(content)), 1)
            == "Content-Type: application/json"@,
        !(exists|front: Seq<char>| name == #[trigger] (front + ".json"@)) ==> received_line(
            file_reply(name, Some(content)),
            1,
        ) == "Content-Type: text/plain; charset=utf-8"@,
        received_line(file_reply(name, None), 0) == "HTTP/1.1 404 Not Found"@,
        decode_utf8(received_body(file_reply(name, None))) == "Not Found"@,
{
    lemma_status_lines();
    lemma_content_types();
    law_text_reply_reads_back(404, "Not Found"@);
    law_reply_reads_back(200, "application/json"@, content);
    law_reply_reads_back(200, "text/plain; charset=utf-8"@, content);
    reveal_strlit(".json");
    let whole = stem + ".json"@;
    assert(whole.skip(whole.len() - 5) =~= ".json"@);
    if name.len() >= 5 && name.skip(name.len() - 5) == ".json"@ {
        let front = name.take(name.len() - 5);
        assert(name =~= front + name.skip(name.len() - 5));
        assert(name == front + ".json"@);
    }
}

/// A request for a file is shown as its node and its file.
pub proof fn law_artifact_request_is_shown(request: ArtifactRequest)
    ensures
        request@.0 == request.node_id@,
        request@.1 == request.filename@,
{
}

} // verus!
