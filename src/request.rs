//! An HTTP request builder whose types make a request without authentication,
//! or with two kinds of it, impossible to build.
use vstd::prelude::*;
use vstd::string::StringExecFns;

verus! {

/// The method of a request.
pub enum HttpMethod {
    Get,
    Post,
}

/// How a request authenticates.
pub enum Auth {
    Token(String),
    HttpAuth(String, String),
}

/// A request with a URL and a method, not yet authenticated.
pub struct RequestBuilder {
    name: String,
    method: HttpMethod,
}

/// A request with exactly one way of authenticating; all it can do is build.
pub struct RequestBuilderAuthed {
    request: RequestBuilder,
    auth: Auth,
}

/// The name of a method, as it opens the request.
pub open spec fn method_text(m: HttpMethod) -> Seq<char> {
    match m {
        HttpMethod::Get => "GET"@,
        HttpMethod::Post => "POST"@,
    }
}

/// The authentication line of a request.
pub open spec fn auth_text(a: Auth) -> Seq<char> {
    match a {
        Auth::Token(t) => "auth=token;"@ + t@,
        Auth::HttpAuth(u, p) => "auth=http-auth;"@ + u@ + ":"@ + p@,
    }
}

/// The text of a request: method and URL, authentication, then the body, one
/// per line.
pub open spec fn request_text(m: HttpMethod, url: Seq<char>, auth: Seq<char>, body: Seq<char>) -> Seq<char> {
    method_text(m) + " "@ + url + "\n"@ + auth + "\n"@ + body
}

impl RequestBuilder {
    pub closed spec fn url(&self) -> Seq<char> {
        self.name@
    }

    pub closed spec fn method(&self) -> HttpMethod {
        self.method
    }

    /// A `GET` request for `url`.
    pub fn new(url: &str) -> (r: Self)
        ensures
            r.url() == url@,
            r.method() == HttpMethod::Get,
    {
        RequestBuilder { name: url.to_owned(), method: HttpMethod::Get }
    }

    /// The same request with `method`.
    pub fn with_method(self, method: HttpMethod) -> (r: Self)
        ensures
            r.url() == self.url(),
            r.method() == method,
    {
        RequestBuilder { name: self.name, method }
    }

    /// The request, authenticated by `token`.
    pub fn with_token(self, token: &str) -> (r: RequestBuilderAuthed)
        ensures
            r.request().url() == self.url(),
            r.request().method() == self.method(),
            r.auth_line() == "auth=token;"@ + token@,
    {
        RequestBuilderAuthed { request: self, auth: Auth::Token(token.to_owned()) }
    }

    /// The request, authenticated by `user` and `password`.
    pub fn with_http_auth(self, user: &str, password: &str) -> (r: RequestBuilderAuthed)
        ensures
            r.request().url() == self.url(),
            r.request().method() == self.method(),
            r.auth_line() == "auth=http-auth;"@ + user@ + ":"@ + password@,
    {
        RequestBuilderAuthed {
            request: self,
            auth: Auth::HttpAuth(user.to_owned(), password.to_owned()),
        }
    }
}

impl RequestBuilderAuthed {
    pub closed spec fn request(&self) -> RequestBuilder {
        self.request
    }

    /// The authentication line of the request.
    pub closed spec fn auth_line(&self) -> Seq<char> {
        auth_text(self.auth)
    }

    /// The text of the request with `body`.
    pub fn build(self, body: &str) -> (r: String)
        ensures
            r@ == request_text(self.request().method(), self.request().url(), self.auth_line(), body@),
    {
        let mut text = match self.request.method {
            HttpMethod::Get => String::from_str("GET"),
            HttpMethod::Post => String::from_str("POST"),
        };
        text.append(" ");
        text.append(self.request.name.as_str());
        text.append("\n");
        match &self.auth {
            Auth::Token(token) => {
                text.append("auth=token;");
                text.append(token.as_str());
            },
            Auth::HttpAuth(user, password) => {
                text.append("auth=http-auth;");
                text.append(user.as_str());
                text.append(":");
                text.append(password.as_str());
            },
        }
        text.append("\n");
        text.append(body);
        proof {
            reveal_strlit("GET");
            reveal_strlit("POST");
            reveal_strlit(" ");
            reveal_strlit("\n");
            reveal_strlit("auth=token;");
            reveal_strlit("auth=http-auth;");
            reveal_strlit(":");
        }
        text
    }
}

} // verus!
