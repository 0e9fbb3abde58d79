//! What is sent to GitHub and what is made of its replies.

use crate::app;
use crate::app::Message;
use crate::json;
use crate::json::Json;
use crate::text;
use vstd::prelude::*;
use vstd::string::*;

verus! {

/// How a request is made.
#[derive(Clone, Copy, PartialEq, Eq, Structural, Debug)]
pub enum Method {
    Patch,
    Post,
    Delete,
}

/// A request to GitHub.
pub struct Request {
    pub method: Method,
    pub url: String,
    pub body: Option<Json>,
}

pub ghost struct RequestView {
    pub method: Method,
    pub url: Seq<char>,
    pub body: Option<json::JsonView>,
}

impl View for Request {
    type V = RequestView;

    open spec fn view(&self) -> RequestView {
        RequestView {
            method: self.method,
            url: self.url@,
            body: match self.body {
                Some(j) => Some(json::json_view(j)),
                None => None,
            },
        }
    }
}

/// The gist has a file of the given name.
pub open spec fn has_file(gist: json::JsonView, filename: Seq<char>) -> bool {
    json::field(gist, "files"@) matches json::JsonView::Object(files) && json::entry_at(
        files,
        filename,
        0,
    ) is Some
}

/// The first gist from number `i` on that has a file of the given name.
pub open spec fn gist_with(gists: Seq<json::JsonView>, filename: Seq<char>, i: int) -> Option<int>
    decreases gists.len() - i,
{
    if i < 0 || i >= gists.len() {
        None
    } else if has_file(gists[i], filename) {
        Some(i)
    } else {
        gist_with(gists, filename, i + 1)
    }
}

/// The id of the first gist in a list that has a file of the given name.
pub open spec fn gist_id(list: json::JsonView, filename: Seq<char>) -> Option<Seq<char>> {
    match list {
        json::JsonView::Array(gists) => match gist_with(gists, filename, 0) {
            Some(i) => json::text_of(json::field(gists[i], "id"@)),
            None => None,
        },
        _ => None,
    }
}

/// Whether the gist has a file of the given name.
fn file_in(gist: &Json, filename: &str) -> (r: bool)
    ensures
        r == has_file(json::json_view(*gist), filename@),
{
    match gist.get("files") {
        Some(files) => files.get(filename).is_some(),
        None => false,
    }
}

/// The id of the first gist in a list that has a file of the given name.
pub fn find_gist_id(list: &Json, filename: &str) -> (r: Option<String>)
    ensures
        text::opt_text(r) == gist_id(json::json_view(*list), filename@),
{
    match list {
        Json::Array(gists) => {
            let ghost views = json::json_view(*list)->Array_0;
            let mut i: usize = 0;
            while i < gists.len()
                invariant
                    i <= gists@.len(),
                    *list == Json::Array(*gists),
                    json::json_view(*list) == json::JsonView::Array(views),
                    views.len() == gists@.len(),
                    gist_with(views, filename@, 0) == gist_with(views, filename@, i as int),
                decreases gists@.len() - i,
            {
                assert(views[i as int] == json::json_view(gists@[i as int]));
                if file_in(&gists[i], filename) {
                    return gists[i].get_text("id");
                }
                i = i + 1;
            }
            None
        },
        _ => None,
    }
}

/// An object with one entry.
pub open spec fn object_of(key: Seq<char>, value: json::JsonView) -> json::JsonView {
    json::JsonView::Object(seq![(key, value)])
}

/// The files of a request: one file with its content.
pub open spec fn files_of(filename: Seq<char>, content: Seq<char>) -> json::JsonView {
    object_of(filename, object_of("content"@, json::JsonView::Text(content)))
}

/// The request that uploads a file: a change of the gist that has it, or else a
/// new gist that is not public.
pub open spec fn upload_request_of(
    list: json::JsonView,
    filename: Seq<char>,
    content: Seq<char>,
) -> RequestView {
    match gist_id(list, filename) {
        Some(id) => RequestView {
            method: Method::Patch,
            url: "https://api.github.com/gists/"@ + id,
            body: Some(object_of("files"@, files_of(filename, content))),
        },
        None => RequestView {
            method: Method::Post,
            url: "https://api.github.com/gists"@,
            body: Some(
                json::JsonView::Object(
                    seq![
                        ("description"@, json::JsonView::Text("Uploaded via termbookman"@)),
                        ("public"@, json::JsonView::Bool(false)),
                        ("files"@, files_of(filename, content)),
                    ],
                ),
            ),
        },
    }
}

/// An object with one entry.
fn one_entry(key: &str, value: Json) -> (r: Json)
    ensures
        json::json_view(r) == object_of(key@, json::json_view(value)),
{
    let mut entries: Vec<(String, Json)> = Vec::new();
    entries.push((key.to_owned(), value));
    let r = Json::Object(entries);
    assert(json::json_view(r)->Object_0 =~= seq![(key@, json::json_view(value))]);
    r
}

/// The files of a request.
fn file_entry(filename: &str, content: &str) -> (r: Json)
    ensures
        json::json_view(r) == files_of(filename@, content@),
{
    one_entry(filename, one_entry("content", Json::Text(content.to_owned())))
}

/// The request that uploads a file, given the list of the gists.
pub fn upload_request(list: &Json, filename: &str, content: &str) -> (r: Request)
    ensures
        r@ == upload_request_of(json::json_view(*list), filename@, content@),
{
    let files = file_entry(filename, content);
    match find_gist_id(list, filename) {
        Some(id) => Request {
            method: Method::Patch,
            url: text::concat2("https://api.github.com/gists/", id.as_str()),
            body: Some(one_entry("files", files)),
        },
        None => {
            let mut entries: Vec<(String, Json)> = Vec::new();
            entries.push(
                ("description".to_owned(), Json::Text("Uploaded via termbookman".to_owned())),
            );
            entries.push(("public".to_owned(), Json::Bool(false)));
            entries.push(("files".to_owned(), files));
            let body = Json::Object(entries);
            proof {
                reveal_with_fuel(json::json_view, 2);
            }
            assert(json::json_view(body)->Object_0 =~= seq![
                ("description"@, json::JsonView::Text("Uploaded via termbookman"@)),
                ("public"@, json::JsonView::Bool(false)),
                ("files"@, files_of(filename@, content@)),
            ]);
            Request {
                method: Method::Post,
                url: "https://api.github.com/gists".to_owned(),
                body: Some(body),
            }
        },
    }
}

/// The request that deletes the gist that has a file of the given name, if
/// there is one.
pub fn delete_request(list: &Json, filename: &str) -> (r: Option<Request>)
    ensures
        match r {
            Some(q) => gist_id(json::json_view(*list), filename@) matches Some(id) && q@
                == (RequestView {
                method: Method::Delete,
                url: "https://api.github.com/gists/"@ + id,
                body: None,
            }),
            None => gist_id(json::json_view(*list), filename@) is None,
        },
{
    match find_gist_id(list, filename) {
        Some(id) => Some(
            Request {
                method: Method::Delete,
                url: text::concat2("https://api.github.com/gists/", id.as_str()),
                body: None,
            },
        ),
        None => None,
    }
}

/// What is said of a request that GitHub refused.
pub open spec fn refusal(method: Method, status: Seq<char>, reply: Seq<char>) -> Seq<char> {
    match method {
        Method::Patch => "Failed to update gist: "@ + status,
        Method::Post => "Failed to create gist: "@ + status + " - "@ + reply,
        Method::Delete => "Failed to delete gist: "@ + status,
    }
}

/// What is said of a request that GitHub refused.
pub fn refusal_text(method: Method, status: &str, reply: &str) -> (r: String)
    ensures
        r@ == refusal(method, status@, reply@),
{
    match method {
        Method::Patch => text::concat2("Failed to update gist: ", status),
        Method::Post => {
            let mut t = text::concat3("Failed to create gist: ", status, " - ");
            t.append(reply);
            t
        },
        Method::Delete => text::concat2("Failed to delete gist: ", status),
    }
}

/// The list of the gists in GitHub's reply; `ok` says whether the status is one
/// of success. The body of the reply may be no text.
pub open spec fn listed(ok: bool, status: Seq<char>, body: Option<Seq<char>>) -> Result<
    json::JsonView,
    Seq<char>,
> {
    if !ok {
        Err("Failed to list gists: "@ + status)
    } else {
        match json::parsed_body(body) {
            Some(list) => Ok(list),
            None => Err("error decoding response body"@),
        }
    }
}

/// Reads the list of the gists in GitHub's reply.
pub fn read_list(ok: bool, status: &str, body: Option<&str>) -> (r: Result<Json, String>)
    ensures
        match r {
            Ok(list) => listed(ok, status@, text::str_view(body)) == Ok::<
                json::JsonView,
                Seq<char>,
            >(json::json_view(list)),
            Err(e) => listed(ok, status@, text::str_view(body)) == Err::<
                json::JsonView,
                Seq<char>,
            >(e@),
        },
{
    if !ok {
        return Err(text::concat2("Failed to list gists: ", status));
    }
    match json::parse_body(body) {
        Some(list) => Ok(list),
        None => Err("error decoding response body".to_owned()),
    }
}

/// The request that deletes the gist with a file of the given name, once the
/// gists were listed, or why none is made.
pub open spec fn deletion_of(
    list: Result<json::JsonView, Seq<char>>,
    filename: Seq<char>,
) -> Result<RequestView, Seq<char>> {
    match list {
        Err(e) => Err(e),
        Ok(l) => match gist_id(l, filename) {
            Some(id) => Ok(
                RequestView {
                    method: Method::Delete,
                    url: "https://api.github.com/gists/"@ + id,
                    body: None,
                },
            ),
            None => Err("Gist not found on GitHub"@),
        },
    }
}

/// The request that deletes the gist with a file of the given name, given the
/// reply to the request for the list, or why none is made: the list could not
/// be had, or no gist has the file.
pub fn plan_delete(ok: bool, status: &str, body: Option<&str>, filename: &str) -> (r: Result<
    Request,
    String,
>)
    ensures
        match r {
            Ok(q) => deletion_of(listed(ok, status@, text::str_view(body)), filename@) == Ok::<
                RequestView,
                Seq<char>,
            >(q@),
            Err(e) => deletion_of(listed(ok, status@, text::str_view(body)), filename@) == Err::<
                RequestView,
                Seq<char>,
            >(e@),
        },
        !ok ==> (r matches Err(e) && e@ == "Failed to list gists: "@ + status@),
{
    match read_list(ok, status, body) {
        Ok(list) => match delete_request(&list, filename) {
            Some(q) => Ok(q),
            None => Err("Gist not found on GitHub".to_owned()),
        },
        Err(e) => Err(e),
    }
}

/// The request that uploads a file, given the reply to the request for the list,
/// or why none is made.
pub fn plan_upload(
    ok: bool,
    status: &str,
    body: Option<&str>,
    filename: &str,
    content: &str,
) -> (r: Result<Request, String>)
    ensures
        match r {
            Ok(q) => listed(ok, status@, text::str_view(body)) matches Ok(list) && q@
                == upload_request_of(list, filename@, content@),
            Err(e) => listed(ok, status@, text::str_view(body)) == Err::<
                json::JsonView,
                Seq<char>,
            >(e@),
        },
        !ok ==> (r matches Err(e) && e@ == "Failed to list gists: "@ + status@),
{
    match read_list(ok, status, body) {
        Ok(list) => Ok(upload_request(&list, filename, content)),
        Err(e) => Err(e),
    }
}

/// What a request came to: done, if its status is one of success, or else
/// refused.
pub fn request_result(method: Method, ok: bool, status: &str, reply: &str) -> (r: Result<
    (),
    String,
>)
    ensures
        match r {
            Ok(_) => ok,
            Err(e) => !ok && e@ == refusal(method, status@, reply@),
        },
{
    if ok {
        Ok(())
    } else {
        Err(refusal_text(method, status, reply))
    }
}

/// How far a task at GitHub has come.
pub enum Stage {
    Started,
    Done,
    Failed(String),
}

/// What is said of the upload of a gist, and whether it tells of a success.
pub open spec fn upload_news(name: Seq<char>, automatic: bool, stage: Stage) -> (Seq<char>, bool) {
    match (stage, automatic) {
        (Stage::Started, false) => ("[Uploading Gist: "@ + name + "]"@, true),
        (Stage::Started, true) => ("[Auto-Uploading Gist: "@ + name + "]"@, true),
        (Stage::Done, false) => ("✓ Gist updated: "@ + name, true),
        (Stage::Done, true) => ("✓ Auto-upload success: "@ + name, true),
        (Stage::Failed(error), false) => ("✗ Gist upload failed: "@ + error@, false),
        (Stage::Failed(error), true) => ("✗ Auto-upload failed: "@ + error@, false),
    }
}

/// The message about the upload of a gist.
pub fn upload_message(name: &str, automatic: bool, stage: &Stage) -> (r: Message)
    ensures
        r@ == app::MessageView::GistUploadStatus(
            upload_news(name@, automatic, *stage).0,
            upload_news(name@, automatic, *stage).1,
        ),
{
    match stage {
        Stage::Started => Message::GistUploadStatus(
            if automatic {
                text::concat3("[Auto-Uploading Gist: ", name, "]")
            } else {
                text::concat3("[Uploading Gist: ", name, "]")
            },
            true,
        ),
        Stage::Done => Message::GistUploadStatus(
            if automatic {
                text::concat2("✓ Auto-upload success: ", name)
            } else {
                text::concat2("✓ Gist updated: ", name)
            },
            true,
        ),
        Stage::Failed(error) => Message::GistUploadStatus(
            if automatic {
                text::concat2("✗ Auto-upload failed: ", error.as_str())
            } else {
                text::concat2("✗ Gist upload failed: ", error.as_str())
            },
            false,
        ),
    }
}

/// What is said of the deletion of a gist, and whether it tells of a success.
pub open spec fn delete_news(name: Seq<char>, stage: Stage) -> (Seq<char>, bool) {
    match stage {
        Stage::Started => ("[Deleting Gist: "@ + name + "]"@, true),
        Stage::Done => ("✓ Gist deleted: "@ + name, true),
        Stage::Failed(error) => ("✗ Gist deletion failed: "@ + error@, false),
    }
}

/// The message about the deletion of a gist.
pub fn delete_message(name: &str, stage: &Stage) -> (r: Message)
    ensures
        r@ == app::MessageView::GistUploadStatus(
            delete_news(name@, *stage).0,
            delete_news(name@, *stage).1,
        ),
{
    match stage {
        Stage::Started => Message::GistUploadStatus(
            text::concat3("[Deleting Gist: ", name, "]"),
            true,
        ),
        Stage::Done => Message::GistUploadStatus(text::concat2("✓ Gist deleted: ", name), true),
        Stage::Failed(error) => Message::GistUploadStatus(
            text::concat2("✗ Gist deletion failed: ", error.as_str()),
            false,
        ),
    }
}

/// The parameters of the request for a device code: the client, and the scope
/// where one is given.
pub open spec fn device_code_query(client_id: Seq<char>, scope: Seq<char>) -> Seq<
    (Seq<char>, Seq<char>),
> {
    if scope.len() == 0 {
        seq![("client_id"@, client_id)]
    } else {
        seq![("client_id"@, client_id), ("scope"@, scope)]
    }
}

/// The parameters that a sequence of pairs holds.
pub open spec fn pair_views(v: Seq<(String, String)>) -> Seq<(Seq<char>, Seq<char>)> {
    v.map_values(|p: (String, String)| (p.0@, p.1@))
}

/// The parameters of the request for a device code.
pub fn device_code_params(client_id: &str, scope: &str) -> (r: Vec<(String, String)>)
    ensures
        pair_views(r@) == device_code_query(client_id@, scope@),
{
    let mut out: Vec<(String, String)> = Vec::new();
    out.push(("client_id".to_owned(), client_id.to_owned()));
    if !scope.is_empty() {
        out.push(("scope".to_owned(), scope.to_owned()));
    }
    assert(pair_views(out@) =~= device_code_query(client_id@, scope@));
    out
}

/// How far an update of the program has come, or why it failed.
pub enum UpdateStage {
    Checking,
    Downloading,
    Done,
    /// The path of the program is not known.
    NoPath(String),
    Network(String),
    /// The status of a reply that is no success.
    Refused(String),
    Unreadable(String),
    NotWritten(String),
    NotReplaced(String),
}

/// What is said of an update, and whether it tells of a success.
pub open spec fn update_news(stage: UpdateStage) -> (Seq<char>, bool) {
    let failed = "✗ Update failed: "@;
    match stage {
        UpdateStage::Checking => ("[Update: Checking for latest binary...]"@, true),
        UpdateStage::Downloading => ("[Update: Downloading from GitHub...]"@, true),
        UpdateStage::Done => ("✓ Update successful! Please restart the app."@, true),
        UpdateStage::NoPath(e) => (
            failed + "Could not get current exe path ("@ + e@ + ")"@,
            false,
        ),
        UpdateStage::Network(e) => (failed + "Network error ("@ + e@ + ")"@, false),
        UpdateStage::Refused(status) => (failed + "GitHub returned status "@ + status@, false),
        UpdateStage::Unreadable(e) => (
            failed + "Error reading response bytes ("@ + e@ + ")"@,
            false,
        ),
        UpdateStage::NotWritten(e) => (
            failed + "Could not write temporary file ("@ + e@ + ")"@,
            false,
        ),
        UpdateStage::NotReplaced(e) => (
            failed + "Could not replace binary (Permission error? Try running as sudo) ("@ + e@
                + ")"@,
            false,
        ),
    }
}

/// The message about a failed update.
fn update_failure(what: &str, error: &str, end: &str) -> (r: Message)
    ensures
        r@ == app::MessageView::GistUploadStatus(
            "✗ Update failed: "@ + what@ + error@ + end@,
            false,
        ),
{
    let mut t = text::concat3("✗ Update failed: ", what, error);
    t.append(end);
    Message::GistUploadStatus(t, false)
}

/// The message about an update of the program.
pub fn update_message(stage: &UpdateStage) -> (r: Message)
    ensures
        r@ == app::MessageView::GistUploadStatus(update_news(*stage).0, update_news(*stage).1),
{
    match stage {
        UpdateStage::Checking => Message::GistUploadStatus(
            "[Update: Checking for latest binary...]".to_owned(),
            true,
        ),
        UpdateStage::Downloading => Message::GistUploadStatus(
            "[Update: Downloading from GitHub...]".to_owned(),
            true,
        ),
        UpdateStage::Done => Message::GistUploadStatus(
            "✓ Update successful! Please restart the app.".to_owned(),
            true,
        ),
        UpdateStage::NoPath(e) => update_failure(
            "Could not get current exe path (",
            e.as_str(),
            ")",
        ),
        UpdateStage::Network(e) => update_failure("Network error (", e.as_str(), ")"),
        UpdateStage::Refused(status) => {
            proof {
                reveal_strlit("");
                assert(update_news(*stage).0 =~= "✗ Update failed: "@ + "GitHub returned status "@
                    + status@ + ""@);
            }
            update_failure("GitHub returned status ", status.as_str(), "")
        },
        UpdateStage::Unreadable(e) => update_failure(
            "Error reading response bytes (",
            e.as_str(),
            ")",
        ),
        UpdateStage::NotWritten(e) => update_failure(
            "Could not write temporary file (",
            e.as_str(),
            ")",
        ),
        UpdateStage::NotReplaced(e) => update_failure(
            "Could not replace binary (Permission error? Try running as sudo) (",
            e.as_str(),
            ")",
        ),
    }
}

/// What follows from GitHub's reply to the request for a device code; `status`
/// is that of the reply, which may be no JSON.
pub open spec fn device_code_answer(reply: Option<json::JsonView>, status: Seq<char>) -> app::MessageView {
    let unclear = app::MessageView::AuthError(
        "Failed to parse device code (Status: "@ + status + ")"@,
    );
    match reply {
        None => unclear,
        Some(j) => {
            let device = json::text_of(json::field(j, "device_code"@));
            let user = json::text_of(json::field(j, "user_code"@));
            let uri = json::text_of(json::field(j, "verification_uri"@));
            let error = json::text_of(json::field(j, "error"@));
            let described = json::text_of(json::field(j, "error_description"@));
            if device is Some && user is Some && uri is Some {
                app::MessageView::DeviceCodeSuccess(device->0, user->0, uri->0)
            } else {
                match error {
                    Some(e) => app::MessageView::AuthError(
                        "GitHub: "@ + (match described {
                            Some(d) => d,
                            None => e,
                        }),
                    ),
                    None => unclear,
                }
            }
        },
    }
}

/// A reply as values.
pub open spec fn reply_view(reply: Option<&Json>) -> Option<json::JsonView> {
    match reply {
        Some(j) => Some(json::json_view(*j)),
        None => None,
    }
}

/// What follows from GitHub's reply to the request for a device code.
pub fn device_code_reply(reply: Option<&Json>, status: &str) -> (r: Message)
    ensures
        r@ == device_code_answer(reply_view(reply), status@),
{
    if let Some(j) = reply {
        let device = j.get_text("device_code");
        let user = j.get_text("user_code");
        let uri = j.get_text("verification_uri");
        if device.is_some() && user.is_some() && uri.is_some() {
            return Message::DeviceCodeSuccess(device.unwrap(), user.unwrap(), uri.unwrap());
        }
        if let Some(error) = j.get_text("error") {
            let said = match j.get_text("error_description") {
                Some(d) => d,
                None => error,
            };
            return Message::AuthError(text::concat2("GitHub: ", said.as_str()));
        }
    }
    Message::AuthError(text::concat3("Failed to parse device code (Status: ", status, ")"))
}

/// What follows from the body of GitHub's reply to the request for a device
/// code; the body may be no text.
pub fn read_device_code(body: Option<&str>, status: &str) -> (r: Message)
    ensures
        r@ == device_code_answer(json::parsed_body(text::str_view(body)), status@),
{
    match json::parse_body(body) {
        Some(j) => device_code_reply(Some(&j), status),
        None => device_code_reply(None, status),
    }
}

/// What to do next while waiting for a token.
pub enum PollStep {
    /// The token is there.
    Granted(String),
    /// Ask again at the usual pace.
    Wait,
    /// Ask again after a longer pause.
    SlowDown,
    /// GitHub refuses.
    Refused(String),
}

pub ghost enum PollStepView {
    Granted(Seq<char>),
    Wait,
    SlowDown,
    Refused(Seq<char>),
}

impl View for PollStep {
    type V = PollStepView;

    open spec fn view(&self) -> PollStepView {
        match self {
            PollStep::Granted(t) => PollStepView::Granted(t@),
            PollStep::Wait => PollStepView::Wait,
            PollStep::SlowDown => PollStepView::SlowDown,
            PollStep::Refused(e) => PollStepView::Refused(e@),
        }
    }
}

/// What follows from GitHub's reply to the request for a token, which may be no
/// JSON.
pub open spec fn poll_answer(reply: Option<json::JsonView>) -> PollStepView {
    match reply {
        None => PollStepView::Wait,
        Some(j) => match (
            json::text_of(json::field(j, "access_token"@)),
            json::text_of(json::field(j, "error"@)),
        ) {
            (Some(token), _) => PollStepView::Granted(token),
            (None, Some(error)) => if error == "authorization_pending"@ {
                PollStepView::Wait
            } else if error == "slow_down"@ {
                PollStepView::SlowDown
            } else {
                PollStepView::Refused(error)
            },
            (None, None) => PollStepView::Wait,
        },
    }
}

/// What follows from GitHub's reply to the request for a token.
pub fn poll_reply(reply: Option<&Json>) -> (r: PollStep)
    ensures
        r@ == poll_answer(reply_view(reply)),
{
    match reply {
        None => PollStep::Wait,
        Some(j) => match j.get_text("access_token") {
            Some(token) => PollStep::Granted(token),
            None => match j.get_text("error") {
                Some(error) => if text::same_text(error.as_str(), "authorization_pending") {
                    PollStep::Wait
                } else if text::same_text(error.as_str(), "slow_down") {
                    PollStep::SlowDown
                } else {
                    PollStep::Refused(error)
                },
                None => PollStep::Wait,
            },
        },
    }
}

/// What follows from the body of GitHub's reply to the request for a token; the
/// body may be no text.
pub fn read_poll(body: Option<&str>) -> (r: PollStep)
    ensures
        r@ == poll_answer(json::parsed_body(text::str_view(body))),
{
    match json::parse_body(body) {
        Some(j) => poll_reply(Some(&j)),
        None => poll_reply(None),
    }
}

/// A deletion is asked for only of a gist that the list holds and that has the
/// file, and of the first such gist; where no gist has the file, it is refused.
pub proof fn law_deletes_first_with_file(gists: Seq<json::JsonView>, filename: Seq<char>)
    ensures
        ({
            let asked = deletion_of(Ok(json::JsonView::Array(gists)), filename);
            match gist_with(gists, filename, 0) {
                Some(i) => {
                    &&& 0 <= i < gists.len()
                    &&& has_file(gists[i], filename)
                    &&& forall|j: int| 0 <= j < i ==> !has_file(#[trigger] gists[j], filename)
                    &&& json::text_of(json::field(gists[i], "id"@)) matches Some(id) ==> asked == Ok::<
                        RequestView,
                        Seq<char>,
                    >(
                        RequestView {
                            method: Method::Delete,
                            url: "https://api.github.com/gists/"@ + id,
                            body: None,
                        },
                    )
                },
                None => asked == Err::<RequestView, Seq<char>>("Gist not found on GitHub"@) && forall|
                    j: int,
                |
                    0 <= j < gists.len() ==> !has_file(#[trigger] gists[j], filename),
            }
        }),
{
    law_gist_found_has_file(gists, filename, 0);
}

/// An upload goes to the gist that a deletion of the same file would delete,
/// and makes a new gist where there is none to delete.
pub proof fn law_upload_and_delete_agree(
    list: json::JsonView,
    filename: Seq<char>,
    content: Seq<char>,
)
    ensures
        upload_request_of(list, filename, content).method is Post <==> gist_id(list, filename)
            is None,
        gist_id(list, filename) matches Some(id) ==> upload_request_of(
            list,
            filename,
            content,
        ).url == "https://api.github.com/gists/"@ + id,
{
}

/// The gist that is found for a file has that file, and no gist before it has.
pub proof fn law_gist_found_has_file(gists: Seq<json::JsonView>, filename: Seq<char>, i: int)
    requires
        0 <= i <= gists.len(),
    ensures
        match gist_with(gists, filename, i) {
            Some(k) => i <= k < gists.len() && has_file(gists[k], filename) && forall|j: int|
                i <= j < k ==> !has_file(#[trigger] gists[j], filename),
            None => forall|j: int| i <= j < gists.len() ==> !has_file(#[trigger] gists[j], filename),
        },
    decreases gists.len() - i,
{
    if i < gists.len() && !has_file(gists[i], filename) {
        law_gist_found_has_file(gists, filename, i + 1);
    }
}

/// The body of the request that uploads a file holds, under "files", the file's
/// name and under it, as "content", what the file holds: whether a gist is changed
/// or made anew, and whatever the list of gists is. A new gist is not public.
pub proof fn law_upload_sends_name_and_content(
    list: json::JsonView,
    filename: Seq<char>,
    content: Seq<char>,
)
    ensures
        ({
            let request = upload_request_of(list, filename, content);
            let file = json::JsonView::Object(seq![("content"@, json::JsonView::Text(content))]);
            let files = json::JsonView::Object(seq![(filename, file)]);
            &&& request.body matches Some(body) && body matches json::JsonView::Object(entries) && {
                &&& entries.contains(("files"@, files))
                &&& forall|i: int|
                    0 <= i < entries.len() && (#[trigger] entries[i]).0 == "files"@ ==> entries[i].1
                        == files
                &&& json::field(
                    json::field(json::field(body, "files"@), filename),
                    "content"@,
                ) == json::JsonView::Text(content)
                &&& request.method is Patch ==> entries.len() == 1
                &&& request.method is Post ==> entries.contains(
                    ("public"@, json::JsonView::Bool(false)),
                ) && entries.contains(
                    ("description"@, json::JsonView::Text("Uploaded via termbookman"@)),
                ) && entries.len() == 3
            }
        }),
{
    reveal_strlit("files");
    reveal_strlit("public");
    reveal_strlit("description");
    let request = upload_request_of(list, filename, content);
    let file = json::JsonView::Object(seq![("content"@, json::JsonView::Text(content))]);
    let files = json::JsonView::Object(seq![(filename, file)]);
    let entries = request.body->0->Object_0;
    let i: int = if request.method is Patch {
        0
    } else {
        2
    };
    assert("files"@.len() == 5 && "public"@.len() == 6 && "description"@.len() == 11);
    assert(entries[i] == ("files"@, files));
    if request.method is Post {
        assert(entries[0] == ("description"@, json::JsonView::Text("Uploaded via termbookman"@)));
        assert(entries[1] == ("public"@, json::JsonView::Bool(false)));
    }
    json::law_field_is_found_by_key(entries, "files"@, i);
    json::law_field_is_found_by_key(seq![(filename, file)], filename, 0);
    json::law_field_is_found_by_key(
        seq![("content"@, json::JsonView::Text(content))],
        "content"@,
        0,
    );
}

/// A gist has a file of the given name: an entry of that name under "files".
pub open spec fn names_file(gist: json::JsonView, filename: Seq<char>) -> bool {
    json::field(gist, "files"@) matches json::JsonView::Object(files) && exists|j: int|
        0 <= j < files.len() && (#[trigger] files[j]).0 == filename
}

/// An upload changes, and a deletion deletes, the first gist of the list that has
/// a file of the name, where its id is a text. Where no gist has one, an upload
/// makes a new gist, and a deletion is refused.
pub proof fn law_first_gist_with_the_file(
    gists: Seq<json::JsonView>,
    filename: Seq<char>,
    content: Seq<char>,
    i: int,
    id: Seq<char>,
)
    ensures
        ({
            let list = json::JsonView::Array(gists);
            let upload = upload_request_of(list, filename, content);
            let deletion = deletion_of(Ok(list), filename);
            let url = "https://api.github.com/gists/"@ + id;
            &&& 0 <= i < gists.len() && names_file(gists[i], filename) && (forall|j: int|
                0 <= j < i ==> !names_file(#[trigger] gists[j], filename)) && json::field(
                gists[i],
                "id"@,
            ) == json::JsonView::Text(id) ==> {
                &&& upload.method is Patch
                &&& upload.url == url
                &&& deletion == Ok::<RequestView, Seq<char>>(
                    RequestView { method: Method::Delete, url, body: None },
                )
            }
            &&& (forall|j: int|
                0 <= j < gists.len() ==> !names_file(#[trigger] gists[j], filename)) ==> {
                &&& upload.method is Post
                &&& upload.url == "https://api.github.com/gists"@
                &&& deletion == Err::<RequestView, Seq<char>>("Gist not found on GitHub"@)
            }
        }),
{
    assert forall|j: int| 0 <= j < gists.len() implies has_file(gists[j], filename)
        == #[trigger] names_file(gists[j], filename) by {
        if let json::JsonView::Object(files) = json::field(gists[j], "files"@) {
            json::law_entry_found_iff_there(files, filename);
        }
    }
    law_gist_found_has_file(gists, filename, 0);
    if let Some(k) = gist_with(gists, filename, 0) {
        assert(names_file(gists[k], filename));
        assert forall|j: int| 0 <= j < k implies !names_file(#[trigger] gists[j], filename) by {
            assert(!has_file(gists[j], filename));
        }
    } else {
        assert forall|j: int| 0 <= j < gists.len() implies !names_file(
            #[trigger] gists[j],
            filename,
        ) by {
            assert(!has_file(gists[j], filename));
        }
    }
}

/// A list that is no array has no gists: an upload makes a new one, and a deletion
/// is refused. Without a list, because its reply is no success or no JSON, nothing
/// is asked for.
pub proof fn law_no_list_no_gist(
    list: json::JsonView,
    filename: Seq<char>,
    content: Seq<char>,
    ok: bool,
    status: Seq<char>,
    body: Option<Seq<char>>,
)
    ensures
        !(list is Array) ==> upload_request_of(list, filename, content).method is Post
            && deletion_of(Ok(list), filename) == Err::<RequestView, Seq<char>>(
            "Gist not found on GitHub"@,
        ),
        !ok ==> listed(ok, status, body) == Err::<json::JsonView, Seq<char>>(
            "Failed to list gists: "@ + status,
        ) && deletion_of(listed(ok, status, body), filename) == Err::<RequestView, Seq<char>>(
            "Failed to list gists: "@ + status,
        ),
        ok ==> match body {
            Some(t) => match json::parsed_json(t) {
                Some(j) => listed(ok, status, body) == Ok::<json::JsonView, Seq<char>>(j),
                None => listed(ok, status, body) is Err,
            },
            None => listed(ok, status, body) is Err,
        },
{
}

/// A refusal names what failed, and the status; that of a new gist also what
/// GitHub said. What is said of an upload, a deletion or an update names what it
/// is about, and tells of a success unless it failed.
pub proof fn law_news_name_what_happened(
    status: Seq<char>,
    reply: Seq<char>,
    name: Seq<char>,
    automatic: bool,
    error: String,
)
    ensures
        refusal(Method::Patch, status, reply) == "Failed to update gist: "@ + status,
        refusal(Method::Delete, status, reply) == "Failed to delete gist: "@ + status,
        refusal(Method::Post, status, reply) == "Failed to create gist: "@ + status + " - "@
            + reply,
        upload_news(name, automatic, Stage::Started).1,
        upload_news(name, automatic, Stage::Done).1,
        !upload_news(name, automatic, Stage::Failed(error)).1,
        upload_news(name, automatic, Stage::Started).0 == (if automatic {
            "[Auto-Uploading Gist: "@
        } else {
            "[Uploading Gist: "@
        }) + name + "]"@,
        upload_news(name, automatic, Stage::Done).0 == (if automatic {
            "✓ Auto-upload success: "@
        } else {
            "✓ Gist updated: "@
        }) + name,
        upload_news(name, automatic, Stage::Failed(error)).0 == (if automatic {
            "✗ Auto-upload failed: "@
        } else {
            "✗ Gist upload failed: "@
        }) + error@,
        delete_news(name, Stage::Started) == ("[Deleting Gist: "@ + name + "]"@, true),
        delete_news(name, Stage::Done) == ("✓ Gist deleted: "@ + name, true),
        delete_news(name, Stage::Failed(error)) == ("✗ Gist deletion failed: "@ + error@, false),
{
}

/// An update that is under way or done is told as a success, and a failed one is
/// not: it names why it failed.
pub proof fn law_update_news(stage: UpdateStage)
    ensures
        update_news(stage).1 == (stage is Checking || stage is Downloading || stage is Done),
        stage is Checking ==> update_news(stage).0 == "[Update: Checking for latest binary...]"@,
        stage is Downloading ==> update_news(stage).0 == "[Update: Downloading from GitHub...]"@,
        stage is Done ==> update_news(stage).0 == "✓ Update successful! Please restart the app."@,
        stage matches UpdateStage::Refused(status) ==> update_news(stage).0
            == "✗ Update failed: GitHub returned status "@ + status@,
        stage matches UpdateStage::NoPath(e) ==> update_news(stage).0
            == "✗ Update failed: Could not get current exe path ("@ + e@ + ")"@,
        stage matches UpdateStage::Network(e) ==> update_news(stage).0
            == "✗ Update failed: Network error ("@ + e@ + ")"@,
        stage matches UpdateStage::Unreadable(e) ==> update_news(stage).0
            == "✗ Update failed: Error reading response bytes ("@ + e@ + ")"@,
        stage matches UpdateStage::NotWritten(e) ==> update_news(stage).0
            == "✗ Update failed: Could not write temporary file ("@ + e@ + ")"@,
        stage matches UpdateStage::NotReplaced(e) ==> update_news(stage).0
            == "✗ Update failed: Could not replace binary (Permission error? Try running as sudo) ("@ + e@ + ")"@,
{
    reveal_strlit("✗ Update failed: ");
    reveal_strlit("✗ Update failed: GitHub returned status ");
    reveal_strlit("GitHub returned status ");
    assert("✗ Update failed: "@ + "GitHub returned status "@ =~= "✗ Update failed: GitHub returned status "@);
    reveal_strlit("Could not get current exe path (");
    reveal_strlit("✗ Update failed: Could not get current exe path (");
    assert("✗ Update failed: "@ + "Could not get current exe path ("@ =~= "✗ Update failed: Could not get current exe path ("@);
    reveal_strlit("Network error (");
    reveal_strlit("✗ Update failed: Network error (");
    assert("✗ Update failed: "@ + "Network error ("@ =~= "✗ Update failed: Network error ("@);
    reveal_strlit("Error reading response bytes (");
    reveal_strlit("✗ Update failed: Error reading response bytes (");
    assert("✗ Update failed: "@ + "Error reading response bytes ("@ =~= "✗ Update failed: Error reading response bytes ("@);
    reveal_strlit("Could not write temporary file (");
    reveal_strlit("✗ Update failed: Could not write temporary file (");
    assert("✗ Update failed: "@ + "Could not write temporary file ("@ =~= "✗ Update failed: Could not write temporary file ("@);
    reveal_strlit("Could not replace binary (Permission error? Try running as sudo) (");
    reveal_strlit("✗ Update failed: Could not replace binary (Permission error? Try running as sudo) (");
    assert("✗ Update failed: "@ + "Could not replace binary (Permission error? Try running as sudo) ("@ =~= "✗ Update failed: Could not replace binary (Permission error? Try running as sudo) ("@);
}

/// A reply with a device code, a user code and an address is taken as such, each
/// in its place. Any other reply is an error: what GitHub said, where it said
/// something, its description first.
pub proof fn law_device_code_reply(
    j: json::JsonView,
    status: Seq<char>,
    device: Seq<char>,
    user: Seq<char>,
    uri: Seq<char>,
)
    ensures
        ({
            let d = json::field(j, "device_code"@);
            let u = json::field(j, "user_code"@);
            let v = json::field(j, "verification_uri"@);
            let e = json::field(j, "error"@);
            let said = json::field(j, "error_description"@);
            let unclear = app::MessageView::AuthError(
                "Failed to parse device code (Status: "@ + status + ")"@,
            );
            let answer = device_code_answer(Some(j), status);
            let complete = d is Text && u is Text && v is Text;
            &&& device_code_answer(None, status) == unclear
            &&& d == json::JsonView::Text(device) && u == json::JsonView::Text(user) && v
                == json::JsonView::Text(uri) ==> answer == app::MessageView::DeviceCodeSuccess(
                device,
                user,
                uri,
            )
            &&& answer is DeviceCodeSuccess ==> complete
            &&& !complete && !(e is Text) ==> answer == unclear
            &&& !complete && e is Text && said is Text ==> answer == app::MessageView::AuthError(
                "GitHub: "@ + said->Text_0,
            )
            &&& !complete && e is Text && !(said is Text) ==> answer == app::MessageView::AuthError(
                "GitHub: "@ + e->Text_0,
            )
        }),
{
}

/// A token is granted if and only if the reply holds one, and it is that one. Of
/// errors, pending is waited for, slow down is waited for longer, and any other
/// ends the wait; a reply without either is waited for.
pub proof fn law_poll_reply(j: json::JsonView, t: Seq<char>)
    ensures
        ({
            let token = json::field(j, "access_token"@);
            let error = json::field(j, "error"@);
            let step = poll_answer(Some(j));
            &&& poll_answer(None) is Wait
            &&& step == PollStepView::Granted(t) <==> token == json::JsonView::Text(t)
            &&& step is Granted ==> token is Text
            &&& !(token is Text) && error == json::JsonView::Text("authorization_pending"@) ==> step
                is Wait
            &&& !(token is Text) && error == json::JsonView::Text("slow_down"@) ==> step is SlowDown
            &&& step is SlowDown ==> error == json::JsonView::Text("slow_down"@)
            &&& step == PollStepView::Refused(t) ==> error == json::JsonView::Text(t)
            &&& !(token is Text) && error == json::JsonView::Text(t) && t
                != "authorization_pending"@ && t != "slow_down"@ ==> step == PollStepView::Refused(
                t,
            )
            &&& !(token is Text) && !(error is Text) ==> step is Wait
        }),
{
    reveal_strlit("authorization_pending");
    reveal_strlit("slow_down");
    assert("authorization_pending"@.len() == 21 && "slow_down"@.len() == 9);
}

/// The request for a device code names the client, and the scope where one is
/// given.
pub proof fn law_device_code_query(client_id: Seq<char>, scope: Seq<char>)
    ensures
        ({
            let query = device_code_query(client_id, scope);
            &&& query.len() > 0 && query[0] == ("client_id"@, client_id)
            &&& scope.len() > 0 ==> query.len() == 2 && query[1] == ("scope"@, scope)
            &&& scope.len() == 0 ==> query.len() == 1
        }),
{
}

/// A list of gists that is no JSON is told as such.
pub proof fn law_unreadable_list_is_told(status: Seq<char>, body: Seq<char>)
    ensures
        listed(true, status, None) == Err::<json::JsonView, Seq<char>>(
            "error decoding response body"@,
        ),
        json::parsed_json(body) is None ==> listed(true, status, Some(body)) == Err::<
            json::JsonView,
            Seq<char>,
        >("error decoding response body"@),
{
}

} // verus!
