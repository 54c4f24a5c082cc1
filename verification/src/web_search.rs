//! The `web_search` tool: its parameters, its settings, the request it sends to
//! Azure AI Search, and how it reads the answer.
//!
//! The tool's run alternates work with the outside world (reading the process
//! environment, sending the request, receiving and decoding the answer) with
//! decisions, which are made here:
//! [`prepare_request`] turns the settings and the query into the request or the error,
//! [`request_succeeded`], [`request_failed_error`], [`send_failed_error`] and
//! [`parse_failed_error`] decide how a reply is judged and reported, and
//! [`search_output`] extracts what the tool returns from a decoded answer.

use vstd::prelude::*;
use crate::error::BrowserError;
use crate::json_text::{decimal, decimal_text, escape, json_string, json_string_text, law_unescape_escape, unescape};
use crate::tools::{web_search_name, ToolName};

verus! {

broadcast use vstd::string::group_string_axioms;

/// Parameters for web search.
#[derive(Debug, Clone)]
pub struct WebSearchParams {
    /// The search query text.
    pub query: String,
}

/// Tool for performing web search using Azure AI Search.
#[derive(Debug, Clone, Copy, Default)]
pub struct WebSearchTool;

impl ToolName for WebSearchTool {
    open spec fn tool_name(&self) -> Seq<char> {
        web_search_name()
    }

    /// The tool's name, `web_search`.
    fn name(&self) -> (res: &str) {
        "web_search"
    }
}

/// The environment variable that holds the search service's base URL.
pub const BASE_URL_VAR: &'static str = "AZURE_AI_SEARCH_BASE_URL";

/// The environment variable that holds the knowledge base name.
pub const KB_NAME_VAR: &'static str = "AZURE_AI_SEARCH_KB_NAME";

/// The environment variable that holds the knowledge source name.
pub const KNOWLEDGE_SOURCE_NAME_VAR: &'static str = "AZURE_AI_SEARCH_KNOWLEDGE_SOURCE_NAME";

/// The environment variable that holds the knowledge source kind (optional).
pub const KNOWLEDGE_SOURCE_KIND_VAR: &'static str = "AZURE_AI_SEARCH_KNOWLEDGE_SOURCE_KIND";

/// The environment variable that holds the API key.
pub const API_KEY_VAR: &'static str = "AZURE_AI_SEARCH_API_KEY";

/// The knowledge source kind used where none is set.
pub const DEFAULT_KNOWLEDGE_SOURCE_KIND: &'static str = "web";

/// The settings that the tool reads from the environment: `None` where a variable is
/// not set (or does not hold Unicode text).
#[derive(Debug)]
pub struct SearchEnvironment {
    pub base_url: Option<String>,
    pub kb_name: Option<String>,
    pub knowledge_source_name: Option<String>,
    pub knowledge_source_kind: Option<String>,
    pub api_key: Option<String>,
}

/// The request that the tool sends: a POST of `body` (JSON, `application/json`) to
/// `url`, with the header `api-key` set to `api_key`.
#[derive(Debug)]
pub struct RetrieveRequest {
    pub url: String,
    pub api_key: String,
    pub body: String,
}

/// The characters of an optional string.
pub open spec fn opt_view(o: Option<String>) -> Option<Seq<char>> {
    match o {
        Some(s) => Some(s@),
        None => None,
    }
}

/// `e` reports that the web search tool failed for `reason`.
pub open spec fn is_tool_failure(e: BrowserError, reason: Seq<char>) -> bool {
    e matches BrowserError::ToolExecutionFailed { tool, reason: r } && tool@ == web_search_name() && r@ == reason
}

/// The reason given when a required environment variable is missing.
pub open spec fn not_set_reason(var: Seq<char>) -> Seq<char> {
    var + " environment variable not set"@
}

/// `s` without the `/` characters at its end.
pub open spec fn trim_trailing_slashes(s: Seq<char>) -> Seq<char>
    decreases s.len(),
{
    if s.len() > 0 && s.last() == '/' {
        trim_trailing_slashes(s.drop_last())
    } else {
        s
    }
}

/// The address of the knowledge base's retrieve operation.
pub open spec fn retrieve_url(base_url: Seq<char>, kb_name: Seq<char>) -> Seq<char> {
    trim_trailing_slashes(base_url) + "/knowledgebases/"@ + kb_name
        + "/retrieve?api-version=2025-11-01-preview"@
}

/// The JSON body of a retrieve request for `query`, with object keys in the order
/// that `serde_json` writes them (sorted).
pub open spec fn request_body(query: Seq<char>, source_name: Seq<char>, source_kind: Seq<char>) -> Seq<char> {
    "{\"includeActivity\":false,\"knowledgeSourceParams\":[{\"alwaysQuerySource\":false,\"includeReferenceSourceData\":true,\"includeReferences\":true,\"kind\":"@
        + json_string(source_kind) + ",\"knowledgeSourceName\":"@ + json_string(source_name)
        + "}],\"messages\":[{\"content\":[{\"text\":"@ + json_string(query)
        + ",\"type\":\"text\"}],\"role\":\"user\"}]}"@
}

/// What a search for `query` with the given settings sends, as (url, api key, body),
/// or the reason it fails: the first missing variable among the base URL, the
/// knowledge base name, the knowledge source name and the API key, in that order.
pub open spec fn planned_request(
    query: Seq<char>,
    base_url: Option<Seq<char>>,
    kb_name: Option<Seq<char>>,
    source_name: Option<Seq<char>>,
    source_kind: Option<Seq<char>>,
    api_key: Option<Seq<char>>,
) -> Result<(Seq<char>, Seq<char>, Seq<char>), Seq<char>> {
    match (base_url, kb_name, source_name, api_key) {
        (None, _, _, _) => Err(not_set_reason(BASE_URL_VAR@)),
        (Some(_), None, _, _) => Err(not_set_reason(KB_NAME_VAR@)),
        (Some(_), Some(_), None, _) => Err(not_set_reason(KNOWLEDGE_SOURCE_NAME_VAR@)),
        (Some(_), Some(_), Some(_), None) => Err(not_set_reason(API_KEY_VAR@)),
        (Some(b), Some(k), Some(n), Some(key)) => {
            let kind = match source_kind {
                Some(kind) => kind,
                None => DEFAULT_KNOWLEDGE_SOURCE_KIND@,
            };
            Ok((retrieve_url(b, k), key, request_body(query, n, kind)))
        },
    }
}

/// The planned request for `params` and `env`.
pub open spec fn planned_for(params: WebSearchParams, env: SearchEnvironment) -> Result<
    (Seq<char>, Seq<char>, Seq<char>),
    Seq<char>,
> {
    planned_request(
        params.query@,
        opt_view(env.base_url),
        opt_view(env.kb_name),
        opt_view(env.knowledge_source_name),
        opt_view(env.knowledge_source_kind),
        opt_view(env.api_key),
    )
}

/// A failure of the web search tool for `reason`.
fn tool_failure(reason: String) -> (e: BrowserError)
    ensures
        is_tool_failure(e, reason@),
{
    let tool = WebSearchTool.name();
    BrowserError::ToolExecutionFailed { tool: tool.to_owned(), reason }
}

/// The failure for a missing environment variable.
fn not_set_failure(var: &str) -> (e: BrowserError)
    ensures
        is_tool_failure(e, not_set_reason(var@)),
{
    let mut reason = var.to_owned();
    reason.append(" environment variable not set");
    tool_failure(reason)
}

/// `base_url` without the `/` characters at its end.
fn trim_slashes(base_url: &str) -> (res: &str)
    ensures
        res@ == trim_trailing_slashes(base_url@),
{
    let n = base_url.unicode_len();
    let mut end = n;
    assert(base_url@.take(n as int) =~= base_url@);
    while end > 0 && base_url.get_char(end - 1) == '/'
        invariant
            n == base_url@.len(),
            end <= n,
            trim_trailing_slashes(base_url@.take(end as int)) == trim_trailing_slashes(base_url@),
        decreases end,
    {
        assert(base_url@.take(end as int).drop_last() =~= base_url@.take(end - 1));
        end = end - 1;
    }
    assert(base_url@.take(n as int) =~= base_url@);
    base_url.substring_char(0, end)
}

/// Builds the request that a search for `params` sends, or the error that stops it.
pub fn prepare_request(params: &WebSearchParams, env: &SearchEnvironment) -> (res: Result<RetrieveRequest, BrowserError>)
    ensures
        match (res, planned_for(*params, *env)) {
            (Ok(r), Ok((url, key, body))) => r.url@ == url && r.api_key@ == key && r.body@ == body,
            (Err(e), Err(reason)) => is_tool_failure(e, reason),
            _ => false,
        },
        (env.base_url is Some && env.kb_name is Some && env.knowledge_source_name is Some && env.api_key is Some)
            <==> res is Ok,
        res matches Ok(r) ==> env.api_key matches Some(key) && r.api_key@ == key@,
        res matches Ok(r) ==> env.base_url matches Some(base) && env.kb_name matches Some(kb) && r.url@ == retrieve_url(
            base@,
            kb@,
        ),
        res matches Ok(r) ==> env.knowledge_source_name matches Some(name) && r.body@ == request_body(
            params.query@,
            name@,
            match env.knowledge_source_kind {
                Some(kind) => kind@,
                None => "web"@,
            },
        ),
{
    let base_url = match &env.base_url {
        Some(v) => v,
        None => {
            return Err(not_set_failure(BASE_URL_VAR));
        },
    };
    let kb_name = match &env.kb_name {
        Some(v) => v,
        None => {
            return Err(not_set_failure(KB_NAME_VAR));
        },
    };
    let source_name = match &env.knowledge_source_name {
        Some(v) => v,
        None => {
            return Err(not_set_failure(KNOWLEDGE_SOURCE_NAME_VAR));
        },
    };
    let source_kind: &str = match &env.knowledge_source_kind {
        Some(v) => v.as_str(),
        None => DEFAULT_KNOWLEDGE_SOURCE_KIND,
    };
    let api_key = match &env.api_key {
        Some(v) => v,
        None => {
            return Err(not_set_failure(API_KEY_VAR));
        },
    };

    let mut url = trim_slashes(base_url.as_str()).to_owned();
    url.append("/knowledgebases/");
    url.append(kb_name.as_str());
    url.append("/retrieve?api-version=2025-11-01-preview");

    let mut body = String::from_str(
        "{\"includeActivity\":false,\"knowledgeSourceParams\":[{\"alwaysQuerySource\":false,\"includeReferenceSourceData\":true,\"includeReferences\":true,\"kind\":",
    );
    body.append(json_string_text(source_kind).as_str());
    body.append(",\"knowledgeSourceName\":");
    body.append(json_string_text(source_name.as_str()).as_str());
    body.append("}],\"messages\":[{\"content\":[{\"text\":");
    body.append(json_string_text(params.query.as_str()).as_str());
    body.append(",\"type\":\"text\"}],\"role\":\"user\"}]}");

    Ok(RetrieveRequest { url, api_key: api_key.clone(), body })
}

/// The message for a start without the required settings: the first required
/// variable that is missing, in the order base URL, knowledge base name, knowledge
/// source name, API key.
pub open spec fn startup_message(env: SearchEnvironment) -> Option<Seq<char>> {
    let prefix = "Required environment variable "@;
    let suffix = " is not set"@;
    if env.base_url is None {
        Some(prefix + BASE_URL_VAR@ + suffix)
    } else if env.kb_name is None {
        Some(prefix + KB_NAME_VAR@ + suffix)
    } else if env.knowledge_source_name is None {
        Some(prefix + KNOWLEDGE_SOURCE_NAME_VAR@ + suffix)
    } else if env.api_key is None {
        Some(prefix + API_KEY_VAR@ + suffix)
    } else {
        None
    }
}

/// Checks that the settings a server needs are present; `Some` with the message that
/// stops the server where one is missing.
pub fn check_required_variables(env: &SearchEnvironment) -> (res: Option<String>)
    ensures
        opt_view(res) == startup_message(*env),
{
    let missing = if env.base_url.is_none() {
        BASE_URL_VAR
    } else if env.kb_name.is_none() {
        KB_NAME_VAR
    } else if env.knowledge_source_name.is_none() {
        KNOWLEDGE_SOURCE_NAME_VAR
    } else if env.api_key.is_none() {
        API_KEY_VAR
    } else {
        return None;
    };
    let mut message = String::from_str("Required environment variable ");
    message.append(missing);
    message.append(" is not set");
    Some(message)
}

/// The reason phrase that the HTTP standard gives a status code, if it gives one.
pub uninterp spec fn canonical_reason(code: u16) -> Option<Seq<char>>;

/// The reason phrase of a status code, through `reqwest::StatusCode::from_u16` and
/// `StatusCode::canonical_reason`: `None` where the code is outside 100 to 999 (the
/// codes `from_u16` refuses) or has no standard phrase.
#[verifier::external_body]
fn status_reason(code: u16) -> (res: Option<String>)
    ensures
        opt_view(res) == canonical_reason(code),
{
    match reqwest::StatusCode::from_u16(code) {
        Ok(status) => status.canonical_reason().map(str::to_owned),
        Err(_) => None,
    }
}

/// How an HTTP status is shown: its code, a space, and its reason phrase or
/// `<unknown status code>`.
pub open spec fn status_text(code: u16, reason: Option<Seq<char>>) -> Seq<char> {
    decimal(code as nat) + " "@ + match reason {
        Some(r) => r,
        None => "<unknown status code>"@,
    }
}

/// The reason given when the search service answers with a status that is not a
/// success.
pub open spec fn failed_status_reason(code: u16, reason: Option<Seq<char>>, error_text: Seq<char>) -> Seq<char> {
    "Azure AI Search request failed with status "@ + status_text(code, reason) + ": "@ + error_text
}

/// Whether the search service's status reports success (200 to 299).
pub fn request_succeeded(status: u16) -> (b: bool)
    ensures
        b == (200 <= status < 300),
{
    200 <= status && status < 300
}

/// The error for an answer with the status `status` that is not a success, whose
/// body read as `error_text`.
pub fn request_failed_error(status: u16, error_text: &str) -> (e: BrowserError)
    ensures
        is_tool_failure(e, failed_status_reason(status, canonical_reason(status), error_text@)),
{
    let mut reason = String::from_str("Azure AI Search request failed with status ");
    reason.append(decimal_text(status).as_str());
    reason.append(" ");
    match status_reason(status) {
        Some(phrase) => reason.append(phrase.as_str()),
        None => reason.append("<unknown status code>"),
    }
    reason.append(": ");
    reason.append(error_text);
    assert(reason@ =~= failed_status_reason(status, canonical_reason(status), error_text@));
    tool_failure(reason)
}

/// The error for a request that could not be sent; `detail` is the transport's
/// description of what went wrong.
pub fn send_failed_error(detail: &str) -> (e: BrowserError)
    ensures
        is_tool_failure(e, "Failed to send request to Azure AI Search: "@ + detail@),
{
    let mut reason = String::from_str("Failed to send request to Azure AI Search: ");
    reason.append(detail);
    tool_failure(reason)
}

/// The error for an answer that could not be decoded; `detail` is the decoder's
/// description of what went wrong.
pub fn parse_failed_error(detail: &str) -> (e: BrowserError)
    ensures
        is_tool_failure(e, "Failed to parse Azure AI Search response: "@ + detail@),
{
    let mut reason = String::from_str("Failed to parse Azure AI Search response: ");
    reason.append(detail);
    tool_failure(reason)
}

/// The error for tool parameters that could not be decoded; `detail` is the
/// decoder's description of what went wrong.
pub fn invalid_parameters_error(detail: &str) -> (e: BrowserError)
    ensures
        e matches BrowserError::InvalidArgument(m) && m@ == "Invalid parameters: "@ + detail@,
{
    let mut message = String::from_str("Invalid parameters: ");
    message.append(detail);
    BrowserError::InvalidArgument(message)
}

/// A content item of an answer.
#[derive(Debug, Clone)]
pub struct ContentItem {
    /// The item's type (`type` in the answer).
    pub content_type: String,
    pub text: String,
}

/// A response item of an answer.
#[derive(Debug, Clone)]
pub struct ResponseItem {
    pub content: Vec<ContentItem>,
}

/// A reference (a source) of an answer.
#[derive(Debug, Clone)]
pub struct Reference {
    /// The reference's type (`type` in the answer), such as `web`.
    pub ref_type: String,
    pub id: String,
    /// `activitySource` in the answer.
    pub activity_source: i32,
    /// `sourceData` in the answer.
    pub source_data: Option<serde_json::Value>,
    pub url: String,
    pub title: String,
}

/// An Azure AI Search retrieve answer.
#[derive(Debug, Clone)]
pub struct AzureSearchResponse {
    pub response: Vec<ResponseItem>,
    pub activity: Vec<serde_json::Value>,
    pub references: Vec<Reference>,
}

/// What the tool returns: the synthesized response text and the references.
#[derive(Debug, Clone)]
pub struct WebSearchOutput {
    pub response: String,
    pub references: Vec<Reference>,
}

/// The response text of an answer: the text of the first content item of the first
/// response item where that item's type is `text`, and the empty text otherwise.
pub open spec fn answer_text(resp: AzureSearchResponse) -> Seq<char> {
    if resp.response@.len() > 0 && resp.response@[0].content@.len() > 0
        && resp.response@[0].content@[0].content_type@ == "text"@ {
        resp.response@[0].content@[0].text@
    } else {
        Seq::empty()
    }
}

/// The response text of an answer.
pub fn response_text(resp: &AzureSearchResponse) -> (res: String)
    ensures
        res@ == answer_text(*resp),
        resp.response@.len() > 0 && resp.response@[0].content@.len() > 0
            && resp.response@[0].content@[0].content_type@ == "text"@ ==> res@ == resp.response@[0].content@[0].text@,
        !(resp.response@.len() > 0 && resp.response@[0].content@.len() > 0
            && resp.response@[0].content@[0].content_type@ == "text"@) ==> res@.len() == 0,
{
    if resp.response.len() > 0 {
        let first = &resp.response[0];
        if first.content.len() > 0 {
            let item = &first.content[0];
            let text_type = String::from_str("text");
            if item.content_type == text_type {
                return item.text.clone();
            }
        }
    }
    String::new()
}

/// What the tool returns for a decoded answer: its response text and its references.
pub fn search_output(resp: AzureSearchResponse) -> (out: WebSearchOutput)
    ensures
        out.response@ == answer_text(resp),
        resp.response@.len() > 0 && resp.response@[0].content@.len() > 0
            && resp.response@[0].content@[0].content_type@ == "text"@ ==> out.response@ == resp.response@[0].content@[0].text@,
        !(resp.response@.len() > 0 && resp.response@[0].content@.len() > 0
            && resp.response@[0].content@[0].content_type@ == "text"@) ==> out.response@.len() == 0,
        out.references == resp.references,
{
    let response = response_text(&resp);
    WebSearchOutput { response, references: resp.references }
}

/// The first required variable that is missing, in the order base URL, knowledge
/// base name, knowledge source name, API key.
pub open spec fn first_missing_variable(env: SearchEnvironment) -> Option<Seq<char>> {
    if env.base_url is None {
        Some(BASE_URL_VAR@)
    } else if env.kb_name is None {
        Some(KB_NAME_VAR@)
    } else if env.knowledge_source_name is None {
        Some(KNOWLEDGE_SOURCE_NAME_VAR@)
    } else if env.api_key is None {
        Some(API_KEY_VAR@)
    } else {
        None
    }
}

/// The start-up check and the search agree: where the check passes, every search can
/// be prepared; where it stops the server, it names the variable whose absence would
/// fail the search.
pub proof fn law_startup_check_matches_search(params: WebSearchParams, env: SearchEnvironment)
    ensures
        match first_missing_variable(env) {
            None => startup_message(env) is None && planned_for(params, env) is Ok,
            Some(var) => startup_message(env) == Some("Required environment variable "@ + var + " is not set"@)
                && planned_for(params, env) == Err::<(Seq<char>, Seq<char>, Seq<char>), Seq<char>>(not_set_reason(var)),
        },
{
}

/// Trimming leaves no `/` at the end, trims nothing more when repeated, and removes
/// only `/` characters from the end.
pub proof fn law_trim_trailing_slashes(s: Seq<char>)
    ensures
        trim_trailing_slashes(s).len() <= s.len(),
        trim_trailing_slashes(s).len() == 0 || trim_trailing_slashes(s).last() != '/',
        trim_trailing_slashes(trim_trailing_slashes(s)) == trim_trailing_slashes(s),
        s.subrange(0, trim_trailing_slashes(s).len() as int) == trim_trailing_slashes(s),
        forall|i: int| trim_trailing_slashes(s).len() <= i < s.len() ==> s[i] == '/',
    decreases s.len(),
{
    if s.len() > 0 && s.last() == '/' {
        law_trim_trailing_slashes(s.drop_last());
        let t = trim_trailing_slashes(s);
        assert(s.subrange(0, t.len() as int) =~= s.drop_last().subrange(0, t.len() as int));
        assert forall|i: int| t.len() <= i < s.len() implies s[i] == '/' by {
            if i < s.len() - 1 {
                assert(s[i] == s.drop_last()[i]);
            }
        }
    } else {
        assert(s.subrange(0, s.len() as int) =~= s);
    }
}

/// The response text of an answer is the whole text of the first content item of
/// the first response item when that item's type is `text`, character for character,
/// and empty otherwise.
pub proof fn law_answer_text(resp: AzureSearchResponse)
    ensures
        resp.response@.len() > 0 && resp.response@[0].content@.len() > 0
            && resp.response@[0].content@[0].content_type@ == "text"@ ==> answer_text(resp)
            == resp.response@[0].content@[0].text@ && answer_text(resp).len()
            == resp.response@[0].content@[0].text@.len(),
        !(resp.response@.len() > 0 && resp.response@[0].content@.len() > 0
            && resp.response@[0].content@[0].content_type@ == "text"@) ==> answer_text(resp).len() == 0,
{
}

/// With every required setting present, the planned request goes to the knowledge
/// base's retrieve address, carries the configured API key unchanged, and its body
/// carries the query, the knowledge source name and the configured kind (or `web`
/// where none is set) unchanged.
pub proof fn law_planned_request_uses_settings(
    query: Seq<char>,
    base_url: Seq<char>,
    kb_name: Seq<char>,
    source_name: Seq<char>,
    source_kind: Option<Seq<char>>,
    api_key: Seq<char>,
)
    ensures
        planned_request(query, Some(base_url), Some(kb_name), Some(source_name), source_kind, Some(api_key))
            matches Ok((url, key, body)) && key == api_key && url == retrieve_url(base_url, kb_name) && body
            == request_body(
            query,
            source_name,
            match source_kind {
                Some(kind) => kind,
                None => "web"@,
            },
        ),
{
}

/// The body's `kind` field is the JSON string of the kind, and it reads back as the
/// kind itself, character for character; likewise the knowledge source name and the
/// query.
pub proof fn law_request_body_fields(query: Seq<char>, source_name: Seq<char>, source_kind: Seq<char>)
    ensures
        ({
            let body = request_body(query, source_name, source_kind);
            let kind_at = "{\"includeActivity\":false,\"knowledgeSourceParams\":[{\"alwaysQuerySource\":false,\"includeReferenceSourceData\":true,\"includeReferences\":true,\"kind\":"@.len();
            let kind_end = kind_at + json_string(source_kind).len();
            let name_at = kind_end + ",\"knowledgeSourceName\":"@.len();
            let name_end = name_at + json_string(source_name).len();
            let query_at = name_end + "}],\"messages\":[{\"content\":[{\"text\":"@.len();
            let query_end = query_at + json_string(query).len();
            &&& body.subrange(kind_at as int, kind_end as int) == json_string(source_kind)
            &&& unescape(body.subrange((kind_at + 1) as int, (kind_end - 1) as int)) == source_kind
            &&& body.subrange(name_at as int, name_end as int) == json_string(source_name)
            &&& unescape(body.subrange((name_at + 1) as int, (name_end - 1) as int)) == source_name
            &&& body.subrange(query_at as int, query_end as int) == json_string(query)
            &&& unescape(body.subrange((query_at + 1) as int, (query_end - 1) as int)) == query
        }),
{
    let p1 = "{\"includeActivity\":false,\"knowledgeSourceParams\":[{\"alwaysQuerySource\":false,\"includeReferenceSourceData\":true,\"includeReferences\":true,\"kind\":"@;
    let p2 = ",\"knowledgeSourceName\":"@;
    let p3 = "}],\"messages\":[{\"content\":[{\"text\":"@;
    let p4 = ",\"type\":\"text\"}],\"role\":\"user\"}]}"@;
    let jk = json_string(source_kind);
    let jn = json_string(source_name);
    let jq = json_string(query);
    let body = request_body(query, source_name, source_kind);
    assert(body =~= p1 + jk + p2 + jn + p3 + jq + p4);
    let kind_at = p1.len();
    let name_at = kind_at + jk.len() + p2.len();
    let query_at = name_at + jn.len() + p3.len();
    assert(body.subrange(kind_at as int, (kind_at + jk.len()) as int) =~= jk);
    assert(body.subrange((kind_at + 1) as int, (kind_at + jk.len() - 1) as int) =~= escape(source_kind));
    assert(body.subrange(name_at as int, (name_at + jn.len()) as int) =~= jn);
    assert(body.subrange((name_at + 1) as int, (name_at + jn.len() - 1) as int) =~= escape(source_name));
    assert(body.subrange(query_at as int, (query_at + jq.len()) as int) =~= jq);
    assert(body.subrange((query_at + 1) as int, (query_at + jq.len() - 1) as int) =~= escape(query));
    law_unescape_escape(source_kind);
    law_unescape_escape(source_name);
    law_unescape_escape(query);
}

/// Requests for different queries differ: with the same knowledge source, the body
/// determines the query.
pub proof fn law_request_body_determines_query(
    query1: Seq<char>,
    query2: Seq<char>,
    source_name: Seq<char>,
    source_kind: Seq<char>,
)
    requires
        request_body(query1, source_name, source_kind) == request_body(query2, source_name, source_kind),
    ensures
        query1 == query2,
{
    let head = "{\"includeActivity\":false,\"knowledgeSourceParams\":[{\"alwaysQuerySource\":false,\"includeReferenceSourceData\":true,\"includeReferences\":true,\"kind\":"@
        + json_string(source_kind) + ",\"knowledgeSourceName\":"@ + json_string(source_name)
        + "}],\"messages\":[{\"content\":[{\"text\":"@;
    let tail = ",\"type\":\"text\"}],\"role\":\"user\"}]}"@;
    let b1 = request_body(query1, source_name, source_kind);
    let b2 = request_body(query2, source_name, source_kind);
    assert(b1 =~= head + json_string(query1) + tail);
    assert(b2 =~= head + json_string(query2) + tail);
    let j1 = json_string(query1);
    let j2 = json_string(query2);
    assert(j1.len() == j2.len());
    assert(j1 =~= b1.subrange(head.len() as int, (head.len() + j1.len()) as int));
    assert(j2 =~= b2.subrange(head.len() as int, (head.len() + j2.len()) as int));
    assert(crate::json_text::escape(query1) =~= j1.subrange(1, j1.len() - 1));
    assert(crate::json_text::escape(query2) =~= j2.subrange(1, j2.len() - 1));
    crate::json_text::law_escape_injective(query1, query2);
}

} // verus!
