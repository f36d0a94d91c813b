//! The outgoing HTTP client of plugins: the request method, and the error
//! code that a failed request reports.

use vstd::prelude::*;

use crate::text::to_chars;

verus! {

#[verifier::external_type_specification]
#[verifier::external_body]
pub struct ExReqwestError(reqwest::Error);

/// The method of a request as plugins give it.
pub enum WasiMethod {
    Get,
    Head,
    Post,
    Put,
    Delete,
    Connect,
    Options,
    Trace,
    Patch,
    Other(String),
}

/// The method that a request is sent with, by its token.
pub struct RequestMethod {
    pub token: String,
}

/// A method that is not a valid token.
pub struct InvalidMethod;

/// The error codes that the client reports to plugins.
pub enum ErrorCode {
    InternalError(Option<String>),
    HttpRequestMethodInvalid,
}

/// Whether a character may stand in a method token (`tchar` of RFC 9110).
pub open spec fn is_tchar(c: char) -> bool {
    ||| ('a' <= c && c <= 'z')
    ||| ('A' <= c && c <= 'Z')
    ||| ('0' <= c && c <= '9')
    ||| c == '!' || c == '#' || c == '$' || c == '%' || c == '&' || c == '\'' || c == '*'
    ||| c == '+' || c == '-' || c == '.' || c == '^' || c == '_' || c == '`' || c == '|'
    ||| c == '~'
}

/// Whether a text is a method token: not empty, and of token characters
/// only.
pub open spec fn is_token(s: Seq<char>) -> bool {
    s.len() > 0 && forall|i: int| 0 <= i < s.len() ==> is_tchar(s[i])
}

/// The token of a method that plugins give; `None` when it is not a valid
/// token.
pub open spec fn method_token(m: WasiMethod) -> Option<Seq<char>> {
    match m {
        WasiMethod::Get => Some("GET"@),
        WasiMethod::Head => Some("HEAD"@),
        WasiMethod::Post => Some("POST"@),
        WasiMethod::Put => Some("PUT"@),
        WasiMethod::Delete => Some("DELETE"@),
        WasiMethod::Connect => Some("CONNECT"@),
        WasiMethod::Options => Some("OPTIONS"@),
        WasiMethod::Trace => Some("TRACE"@),
        WasiMethod::Patch => Some("PATCH"@),
        WasiMethod::Other(m) => if is_token(m@) {
            Some(m@)
        } else {
            None
        },
    }
}

fn tchar(c: char) -> (b: bool)
    ensures
        b == is_tchar(c),
{
    ('a' <= c && c <= 'z') || ('A' <= c && c <= 'Z') || ('0' <= c && c <= '9') || c == '!' || c
        == '#' || c == '$' || c == '%' || c == '&' || c == '\'' || c == '*' || c == '+' || c == '-'
        || c == '.' || c == '^' || c == '_' || c == '`' || c == '|' || c == '~'
}

fn token_ok(s: &str) -> (b: bool)
    ensures
        b == is_token(s@),
{
    let v = to_chars(s);
    if v.len() == 0 {
        return false;
    }
    let mut i: usize = 0;
    while i < v.len()
        invariant
            v@ == s@,
            i <= v@.len(),
            forall|j: int| 0 <= j < i ==> is_tchar(v@[j]),
        decreases v@.len() - i,
    {
        if !tchar(v[i]) {
            return false;
        }
        i = i + 1;
    }
    true
}

/// The method that a request of a plugin is sent with: the standard methods
/// by their names, another method by its own token if it is a valid token.
pub fn convert_wasi_method_to_reqwest_method(method: &WasiMethod) -> (r: Result<
    RequestMethod,
    InvalidMethod,
>)
    ensures
        r is Ok <==> method_token(*method) is Some,
        r is Ok ==> method_token(*method) == Some(r->Ok_0.token@),
{
    let token = match method {
        WasiMethod::Get => "GET".to_owned(),
        WasiMethod::Head => "HEAD".to_owned(),
        WasiMethod::Post => "POST".to_owned(),
        WasiMethod::Put => "PUT".to_owned(),
        WasiMethod::Delete => "DELETE".to_owned(),
        WasiMethod::Connect => "CONNECT".to_owned(),
        WasiMethod::Options => "OPTIONS".to_owned(),
        WasiMethod::Trace => "TRACE".to_owned(),
        WasiMethod::Patch => "PATCH".to_owned(),
        WasiMethod::Other(m) => {
            if !token_ok(m.as_str()) {
                return Err(InvalidMethod);
            }
            m.clone()
        },
    };
    Ok(RequestMethod { token })
}

/// The debug text of a client error (`{:?}`); what it says is not stated.
#[verifier::external_body]
fn reqwest_error_debug(e: &reqwest::Error) -> String {
    format!("{e:?}")
}

/// The error code that a failed request reports, from the client error's
/// debug text: an internal error whose message is `Reqwest error: `
/// followed by that text.
pub fn reqwest_error_code(detail: &str) -> (code: ErrorCode)
    ensures
        code matches ErrorCode::InternalError(Some(message)) && message@ == "Reqwest error: "@
            + detail@,
{
    let mut message = "Reqwest error: ".to_owned();
    message.append(detail);
    ErrorCode::InternalError(Some(message))
}

/// The error code that a failed request reports (see
/// [`reqwest_error_code`]), with the client error's debug text, whose
/// content is not stated.
pub fn convert_reqwest_error_to_error_code(e: reqwest::Error) -> (code: ErrorCode)
    ensures
        code matches ErrorCode::InternalError(Some(message)) && message@.len() >= 15
            && message@.take(15) == "Reqwest error: "@,
{
    let detail = reqwest_error_debug(&e);
    let code = reqwest_error_code(detail.as_str());
    proof {
        reveal_strlit("Reqwest error: ");
        let m = code->InternalError_0->Some_0;
        assert(m@.take(15) =~= "Reqwest error: "@);
    }
    code
}

/// The method of an outgoing request, or the error code that plugins
/// receive when the method is not a valid token.
pub fn request_method(method: &WasiMethod) -> (r: Result<RequestMethod, ErrorCode>)
    ensures
        r is Ok <==> method_token(*method) is Some,
        r is Ok ==> method_token(*method) == Some(r->Ok_0.token@),
        r is Err ==> r->Err_0 is HttpRequestMethodInvalid,
{
    match convert_wasi_method_to_reqwest_method(method) {
        Ok(m) => Ok(m),
        Err(_) => Err(ErrorCode::HttpRequestMethodInvalid),
    }
}

/// Each standard method is sent under its own name (RFC 9110): `GET`,
/// `HEAD`, `POST`, `PUT`, `DELETE`, `CONNECT`, `OPTIONS`, `TRACE` and
/// `PATCH`, and two different standard methods are never sent under the
/// same name.
pub proof fn law_standard_method_names(a: WasiMethod, b: WasiMethod)
    ensures
        method_token(WasiMethod::Get) == Some("GET"@),
        method_token(WasiMethod::Head) == Some("HEAD"@),
        method_token(WasiMethod::Post) == Some("POST"@),
        method_token(WasiMethod::Put) == Some("PUT"@),
        method_token(WasiMethod::Delete) == Some("DELETE"@),
        method_token(WasiMethod::Connect) == Some("CONNECT"@),
        method_token(WasiMethod::Options) == Some("OPTIONS"@),
        method_token(WasiMethod::Trace) == Some("TRACE"@),
        method_token(WasiMethod::Patch) == Some("PATCH"@),
        !(a is Other) && !(b is Other) && method_token(a) == method_token(b) ==> a == b,
{
    reveal_strlit("GET");
    reveal_strlit("HEAD");
    reveal_strlit("POST");
    reveal_strlit("PUT");
    reveal_strlit("DELETE");
    reveal_strlit("CONNECT");
    reveal_strlit("OPTIONS");
    reveal_strlit("TRACE");
    reveal_strlit("PATCH");
    if !(a is Other) && !(b is Other) && method_token(a) == method_token(b) && a != b {
        let x = method_token(a)->Some_0;
        let y = method_token(b)->Some_0;
        assert(x == y);
        assert(x.len() != y.len() || x[0] != y[0] || x[1] != y[1] || x[2] != y[2]);
    }
}

} // verus!
