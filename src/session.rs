//! A web session's request decisions: which content a GET serves, what a
//! PUT, DELETE or POST asks of the store, and who is asking.
use vstd::prelude::*;
use vstd::string::{StrSliceExecFns, StringExecFns};
use vstd::utf8::{valid_utf8, decode_utf8};
use crate::encoding::{base64_decoded, from_base64, hex_of, to_hex, utf8_text};
use crate::path::{check_canonical, content_type_of, ends_with, has_prefix, has_suffix, infer_content_type,
    is_canonical, same_text, starts_with};

verus! {

/// Why a request was refused before any work was done.
#[derive(Clone, Copy, Debug, PartialEq, Eq, Structural)]
pub enum SessionError {
    /// The path holds `.`, `..` or an empty segment after the first.
    NonCanonicalPath,
    /// DELETE is only served under `sturdyref/`.
    DeleteOutsideSturdyrefs,
    /// The POST body is not base64.
    BadBase64,
    /// The uploaded description is not UTF-8 text.
    InvalidUtf8,
}

/// What a GET serves.
pub enum GetRoute {
    /// The application's main page.
    MainPage,
    /// A file, with its content type and, if any, its content encoding.
    File { filename: String, content_type: String, encoding: Option<String> },
    /// The names in a directory, one per line, without `.` and `..`.
    Listing { directory: String },
    /// A static file under `client/`; where `filename` is a directory the
    /// answer is a permanent redirect to `redirect` instead.
    Static { filename: String, redirect: String, content_type: String },
}

pub enum GetRouteView {
    MainPage,
    File { filename: Seq<char>, content_type: Seq<char>, encoding: Option<Seq<char>> },
    Listing { directory: Seq<char> },
    Static { filename: Seq<char>, redirect: Seq<char>, content_type: Seq<char> },
}

impl View for GetRoute {
    type V = GetRouteView;

    open spec fn view(&self) -> GetRouteView {
        match self {
            GetRoute::MainPage => GetRouteView::MainPage,
            GetRoute::File { filename, content_type, encoding } => GetRouteView::File {
                filename: filename@,
                content_type: content_type@,
                encoding: match encoding {
                    Some(e) => Some(e@),
                    None => None,
                },
            },
            GetRoute::Listing { directory } => GetRouteView::Listing { directory: directory@ },
            GetRoute::Static { filename, redirect, content_type } => GetRouteView::Static {
                filename: filename@,
                redirect: redirect@,
                content_type: content_type@,
            },
        }
    }
}

/// The route of a GET for canonical path `p`.
pub open spec fn get_route(p: Seq<char>) -> GetRouteView {
    if p.len() == 0 {
        GetRouteView::MainPage
    } else if p == "script.js"@ {
        GetRouteView::File {
            filename: "/script.js.gz"@,
            content_type: "text/javascript; charset=UTF-8"@,
            encoding: Some("gzip"@),
        }
    } else if p == "style.css"@ {
        GetRouteView::File {
            filename: "/style.css.gz"@,
            content_type: "text/css; charset=UTF-8"@,
            encoding: Some("gzip"@),
        }
    } else if p == "var"@ || p == "var/"@ {
        GetRouteView::Listing { directory: p }
    } else if starts_with(p, "var/"@) {
        GetRouteView::File { filename: p, content_type: "application/octet-stream"@, encoding: None }
    } else if ends_with(p, "/"@) {
        GetRouteView::File {
            filename: "client/"@ + p + "index.html"@,
            content_type: "text/html; charset=UTF-8"@,
            encoding: None,
        }
    } else {
        GetRouteView::Static { filename: "client/"@ + p, redirect: p + "/"@, content_type: content_type_of(p) }
    }
}

/// What a PUT asks for.
#[derive(Clone, Copy, Debug, PartialEq, Eq, Structural)]
pub enum PutRoute {
    /// The user may not write.
    Forbidden,
    /// Replace the description with the request body.
    UpdateDescription,
    /// Nothing is stored at that path.
    Ignored,
}

/// What a DELETE asks for.
pub enum DeleteRoute {
    /// The user may not write.
    Forbidden,
    /// Remove the saved view with this token.
    Remove(String),
}

/// What a POST asks for.
pub enum PostRoute {
    /// Not under `token/`.
    NotFound,
    /// Claim the capability behind `token`; `descriptor` is the decoded body.
    Claim { token: String, descriptor: Vec<u8> },
}

/// The user's side of a session: whether they may write, and who they are.
pub struct WebSession {
    pub can_write: bool,
    /// The user's identity id in lowercase hex.
    pub identity_id: String,
}

/// The decoded, checked text of an uploaded description.
pub fn description_text(content: &[u8]) -> (r: Result<String, SessionError>)
    ensures
        r is Ok <==> valid_utf8(content@),
        r matches Ok(s) ==> s@ == decode_utf8(content@),
        r matches Err(e) ==> e == SessionError::InvalidUtf8,
{
    match utf8_text(content) {
        Some(s) => Ok(s),
        None => Err(SessionError::InvalidUtf8),
    }
}

impl WebSession {
    /// A session for a user with the given permission bits (bit 0 is
    /// "write") and identity id bytes.
    pub fn new(permissions: &[bool], identity_id: &[u8]) -> (r: WebSession)
        ensures
            r.can_write == (permissions@.len() > 0 && permissions@[0]),
            r.identity_id@ == hex_of(identity_id@),
    {
        let can_write = permissions.len() > 0 && permissions[0];
        WebSession { can_write, identity_id: to_hex(identity_id) }
    }

    /// Refuses a path with a `.` or `..` segment or an empty segment after
    /// the first.
    pub fn require_canonical_path(&self, path: &str) -> (r: Result<(), SessionError>)
        ensures
            r is Ok <==> is_canonical(path@),
            r matches Err(e) ==> e == SessionError::NonCanonicalPath,
    {
        if check_canonical(path) {
            Ok(())
        } else {
            Err(SessionError::NonCanonicalPath)
        }
    }

    /// The content type for `filename`, by its extension.
    pub fn infer_content_type(&self, filename: &str) -> (r: &'static str)
        ensures
            r@ == content_type_of(filename@),
    {
        infer_content_type(filename)
    }

    /// Decides what a GET of `path` serves.
    pub fn get(&self, path: &str) -> (r: Result<GetRoute, SessionError>)
        ensures
            r is Ok <==> is_canonical(path@),
            r matches Ok(g) ==> g@ == get_route(path@),
            r matches Err(e) ==> e == SessionError::NonCanonicalPath,
    {
        if !check_canonical(path) {
            return Err(SessionError::NonCanonicalPath);
        }
        let r = if path.unicode_len() == 0 {
            GetRoute::MainPage
        } else if same_text(path, "script.js") {
            GetRoute::File {
                filename: String::from_str("/script.js.gz"),
                content_type: String::from_str("text/javascript; charset=UTF-8"),
                encoding: Some(String::from_str("gzip")),
            }
        } else if same_text(path, "style.css") {
            GetRoute::File {
                filename: String::from_str("/style.css.gz"),
                content_type: String::from_str("text/css; charset=UTF-8"),
                encoding: Some(String::from_str("gzip")),
            }
        } else if same_text(path, "var") || same_text(path, "var/") {
            GetRoute::Listing { directory: String::from_str(path) }
        } else if has_prefix(path, "var/") {
            GetRoute::File {
                filename: String::from_str(path),
                content_type: String::from_str("application/octet-stream"),
                encoding: None,
            }
        } else if has_suffix(path, "/") {
            let mut f = String::from_str("client/");
            f.append(path);
            f.append("index.html");
            GetRoute::File { filename: f, content_type: String::from_str("text/html; charset=UTF-8"), encoding: None }
        } else {
            let mut f = String::from_str("client/");
            f.append(path);
            let mut d = String::from_str(path);
            d.append("/");
            GetRoute::Static { filename: f, redirect: d, content_type: String::from_str(infer_content_type(path)) }
        };
        Ok(r)
    }

    /// Decides what a PUT of `path` does.
    pub fn put(&self, path: &str) -> (r: Result<PutRoute, SessionError>)
        ensures
            r is Ok <==> is_canonical(path@),
            r matches Err(e) ==> e == SessionError::NonCanonicalPath,
            r matches Ok(p) ==> p == if !self.can_write {
                PutRoute::Forbidden
            } else if path@ == "description"@ {
                PutRoute::UpdateDescription
            } else {
                PutRoute::Ignored
            },
    {
        if !check_canonical(path) {
            Err(SessionError::NonCanonicalPath)
        } else if !self.can_write {
            Ok(PutRoute::Forbidden)
        } else if same_text(path, "description") {
            Ok(PutRoute::UpdateDescription)
        } else {
            Ok(PutRoute::Ignored)
        }
    }

    /// Decides what a DELETE of `path` does: only `sturdyref/<token>` is
    /// served, and only to a user who may write.
    pub fn delete(&self, path: &str) -> (r: Result<DeleteRoute, SessionError>)
        ensures
            !is_canonical(path@) ==> r == Err::<DeleteRoute, SessionError>(SessionError::NonCanonicalPath),
            is_canonical(path@) && !starts_with(path@, "sturdyref/"@) ==> r
                == Err::<DeleteRoute, SessionError>(SessionError::DeleteOutsideSturdyrefs),
            is_canonical(path@) && starts_with(path@, "sturdyref/"@) ==> match r {
                Ok(DeleteRoute::Forbidden) => !self.can_write,
                Ok(DeleteRoute::Remove(t)) => self.can_write && t@ == path@.subrange(
                    "sturdyref/"@.len() as int,
                    path@.len() as int,
                ),
                Err(_) => false,
            },
    {
        if !check_canonical(path) {
            return Err(SessionError::NonCanonicalPath);
        }
        let prefix = "sturdyref/";
        if !has_prefix(path, prefix) {
            return Err(SessionError::DeleteOutsideSturdyrefs);
        }
        if !self.can_write {
            Ok(DeleteRoute::Forbidden)
        } else {
            let n = path.unicode_len();
            let m = prefix.unicode_len();
            Ok(DeleteRoute::Remove(String::from_str(path.substring_char(m, n))))
        }
    }

    /// Decides what a POST of `path` with base64 body `content` does: a
    /// path `token/<token>` claims that token with the decoded body.
    pub fn post(&self, path: &str, content: &[u8]) -> (r: Result<PostRoute, SessionError>)
        ensures
            !is_canonical(path@) ==> r == Err::<PostRoute, SessionError>(SessionError::NonCanonicalPath),
            is_canonical(path@) && !starts_with(path@, "token/"@) ==> r matches Ok(PostRoute::NotFound),
            is_canonical(path@) && starts_with(path@, "token/"@) ==> match base64_decoded(content@) {
                None => r == Err::<PostRoute, SessionError>(SessionError::BadBase64),
                Some(d) => r matches Ok(PostRoute::Claim { token, descriptor })
                    && token@ == path@.subrange("token/"@.len() as int, path@.len() as int)
                    && descriptor@ == d,
            },
    {
        if !check_canonical(path) {
            return Err(SessionError::NonCanonicalPath);
        }
        let prefix = "token/";
        if !has_prefix(path, prefix) {
            return Ok(PostRoute::NotFound);
        }
        let n = path.unicode_len();
        let m = prefix.unicode_len();
        let token = String::from_str(path.substring_char(m, n));
        match from_base64(content) {
            Some(descriptor) => Ok(PostRoute::Claim { token, descriptor }),
            None => Err(SessionError::BadBase64),
        }
    }
}

} // verus!
